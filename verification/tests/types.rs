use godot_codegen::api_parser::{BuiltinClassDef, ClassDef, EnumDef, ExtensionApi};
use godot_codegen::names::{find_name, NameIndex};
use godot_codegen::rust_ty::RustTy;
use godot_codegen::util::Tokens;

fn toks(items: &[&str]) -> Tokens {
    Tokens { items: items.iter().map(|s| s.to_string()).collect() }
}

fn class(name: &str, enums: &[&str]) -> ClassDef {
    ClassDef {
        name: name.to_string(),
        parent: None,
        methods: vec![],
        enums: enums.iter().map(|e| EnumDef { name: e.to_string(), values: vec![] }).collect(),
        constants: vec![],
        is_instantiable: true,
        is_refcounted: false,
    }
}

fn builtin(name: &str) -> BuiltinClassDef {
    BuiltinClassDef {
        name: name.to_string(),
        sizes: vec![],
        constructors: vec![],
        has_destructor: false,
        indexing_return_type: None,
    }
}

fn sample_api() -> ExtensionApi {
    ExtensionApi {
        classes: vec![class("Node", &["ProcessMode"]), class("PhysicsBody3D", &[])],
        builtin_classes: vec![builtin("Vector2"), builtin("String")],
        utility_functions: vec![],
        global_enums: vec![EnumDef { name: "Error".to_string(), values: vec![] }],
        global_constants: vec![],
    }
}

#[test]
fn return_decl_of_an_engine_class_is_an_option() {
    let ty = RustTy::EngineClass(toks(&["Gd", "<", "Node", ">"]));
    assert_eq!(ty.return_decl().text(), "-> Option < Gd < Node > > ");
}

#[test]
fn return_decl_of_other_types_is_the_type() {
    assert_eq!(RustTy::BuiltinIdent("bool".to_string()).return_decl().text(), "-> bool ");
    let array = RustTy::BuiltinArray(toks(&["TypedArray", "<", "i64", ">"]));
    assert_eq!(array.return_decl().text(), "-> TypedArray < i64 > ");
    let objects = RustTy::EngineArray {
        tokens: toks(&["TypedArray", "<", "Gd", "<", "Node", ">", ">"]),
        elem_class: "Node".to_string(),
    };
    assert_eq!(objects.return_decl().text(), "-> TypedArray < Gd < Node > > ");
    let en = RustTy::EngineEnum {
        tokens: toks(&["node", "::", "ProcessMode"]),
        surrounding_class: Some("Node".to_string()),
    };
    assert_eq!(en.return_decl().text(), "-> node :: ProcessMode ");
}

#[test]
fn to_tokens_appends_to_what_is_there() {
    let mut out = toks(&["x", ":"]);
    RustTy::BuiltinIdent("Vector3i".to_string()).to_tokens(&mut out);
    assert_eq!(out.text(), "x : Vector3i ");
    RustTy::EngineClass(toks(&["Gd", "<", "Node", ">"])).to_tokens(&mut out);
    assert_eq!(out.text(), "x : Vector3i Gd < Node > ");
}

#[test]
fn find_name_gives_the_first_position() {
    let names = vec!["a".to_string(), "b".to_string(), "a".to_string()];
    assert_eq!(find_name(&names, "a"), Some(0));
    assert_eq!(find_name(&names, "b"), Some(1));
    assert_eq!(find_name(&names, "c"), None);
    assert_eq!(find_name(&vec![], "a"), None);
}

#[test]
fn name_index_collects_the_declared_names() {
    let index = NameIndex::build(&sample_api());
    assert_eq!(index.classes, vec!["Node", "PhysicsBody3D"]);
    assert_eq!(index.builtins, vec!["Vector2", "String"]);
    assert_eq!(index.global_enums, vec!["Error"]);
    assert_eq!(index.class_enums, vec![vec!["ProcessMode".to_string()], vec![]]);
    assert_eq!(index.find_class("PhysicsBody3D"), Some(1));
    assert_eq!(index.find_class("Vector2"), None);
}

#[test]
fn classify_primitives_and_builtins() {
    let index = NameIndex::build(&sample_api());
    assert_eq!(index.classify("bool"), Some(RustTy::BuiltinIdent("bool".to_string())));
    assert_eq!(index.classify("int"), Some(RustTy::BuiltinIdent("i64".to_string())));
    assert_eq!(index.classify("float"), Some(RustTy::BuiltinIdent("f64".to_string())));
    assert_eq!(index.classify("Variant"), Some(RustTy::BuiltinIdent("Variant".to_string())));
    assert_eq!(index.classify("Vector2"), Some(RustTy::BuiltinIdent("Vector2".to_string())));
}

#[test]
fn classify_engine_classes() {
    let index = NameIndex::build(&sample_api());
    assert_eq!(
        index.classify("Node"),
        Some(RustTy::EngineClass(toks(&["Gd", "<", "Node", ">"])))
    );
}

#[test]
fn classify_arrays() {
    let index = NameIndex::build(&sample_api());
    assert_eq!(
        index.classify("typedarray::int"),
        Some(RustTy::BuiltinArray(toks(&["TypedArray", "<", "i64", ">"])))
    );
    assert_eq!(
        index.classify("typedarray::Vector2"),
        Some(RustTy::BuiltinArray(toks(&["TypedArray", "<", "Vector2", ">"])))
    );
    assert_eq!(
        index.classify("typedarray::PhysicsBody3D"),
        Some(RustTy::EngineArray {
            tokens: toks(&["TypedArray", "<", "Gd", "<", "PhysicsBody3D", ">", ">"]),
            elem_class: "PhysicsBody3D".to_string(),
        })
    );
    assert_eq!(index.classify("typedarray::Missing"), None);
}

#[test]
fn classify_enums() {
    let index = NameIndex::build(&sample_api());
    assert_eq!(
        index.classify("enum::Node.ProcessMode"),
        Some(RustTy::EngineEnum {
            tokens: toks(&["node", "::", "ProcessMode"]),
            surrounding_class: Some("Node".to_string()),
        })
    );
    assert_eq!(
        index.classify("enum::Error"),
        Some(RustTy::EngineEnum {
            tokens: toks(&["global", "::", "Error"]),
            surrounding_class: None,
        })
    );
    assert_eq!(index.classify("enum::Node.Missing"), None);
    assert_eq!(index.classify("enum::Missing.ProcessMode"), None);
    assert_eq!(index.classify("enum::PhysicsBody3D.ProcessMode"), None);
    assert_eq!(index.classify("enum::Missing"), None);
}

#[test]
fn classify_rejects_what_is_not_declared() {
    let index = NameIndex::build(&sample_api());
    assert_eq!(index.classify("Missing"), None);
    assert_eq!(index.classify(""), None);
    assert_eq!(index.classify("node"), None);
    assert_eq!(index.classify("Error"), None);
}

#[test]
fn classify_twice_gives_the_same() {
    let index = NameIndex::build(&sample_api());
    for ty in ["int", "Node", "typedarray::Node", "enum::Error", "enum::Node.ProcessMode", "x"] {
        assert_eq!(index.classify(ty), index.classify(ty));
    }
}
