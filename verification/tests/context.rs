use godot_codegen::api_parser::{
    BuiltinClassDef, ClassDef, ConstructorDef, ExtensionApi, MethodDef, ParamDef,
};
use godot_codegen::context::{selected_classes, Context, SelectionMode};
use godot_codegen::inheritance::MethodRef;
use godot_codegen::rust_ty::RustTy;

fn method(name: &str, arity: usize, is_virtual: bool) -> MethodDef {
    MethodDef {
        name: name.to_string(),
        params: (0..arity)
            .map(|i| ParamDef { name: format!("p{i}"), ty: "int".to_string(), default_value: None })
            .collect(),
        return_type: None,
        is_static: false,
        is_virtual,
        is_const: false,
        is_vararg: false,
        hash: if is_virtual { None } else { Some(7) },
    }
}

fn class(name: &str, parent: Option<&str>, methods: Vec<MethodDef>) -> ClassDef {
    ClassDef {
        name: name.to_string(),
        parent: parent.map(|p| p.to_string()),
        methods,
        enums: vec![],
        constants: vec![],
        is_instantiable: true,
        is_refcounted: false,
    }
}

fn builtin(name: &str, constructor_arities: &[usize]) -> BuiltinClassDef {
    BuiltinClassDef {
        name: name.to_string(),
        sizes: vec![],
        constructors: constructor_arities
            .iter()
            .enumerate()
            .map(|(i, n)| ConstructorDef {
                index: i as u64,
                params: (0..*n)
                    .map(|k| ParamDef {
                        name: format!("a{k}"),
                        ty: "int".to_string(),
                        default_value: None,
                    })
                    .collect(),
            })
            .collect(),
        has_destructor: false,
        indexing_return_type: None,
    }
}

fn sample() -> ExtensionApi {
    ExtensionApi {
        classes: vec![
            class("Object", None, vec![method("notify", 1, true)]),
            class("Node", Some("Object"), vec![method("ready", 0, true), method("get_name", 0, false)]),
            class("Heightmap", Some("Node"), vec![method("ready", 0, true)]),
            class("BaseButton", Some("Node"), vec![method("pressed", 0, true)]),
            class("Button", Some("BaseButton"), vec![method("pressed", 0, true)]),
            class("Node", None, vec![]),
        ],
        builtin_classes: vec![builtin("Vector2", &[0, 2]), builtin("Callable", &[1]), builtin("Nil", &[])],
        utility_functions: vec![],
        global_enums: vec![],
        global_constants: vec![],
    }
}

#[test]
fn the_minimal_selection_has_its_classes() {
    let list = selected_classes();
    assert_eq!(list.len(), 36);
    assert_eq!(list[0], "AnimatedSprite2D");
    assert_eq!(list[17], "Node");
    assert_eq!(list[35], "Line2D");
    assert!(list.contains(&"Button".to_string()));
    assert!(!list.contains(&"Heightmap".to_string()));
}

#[test]
fn full_selection_takes_every_class_once() {
    let api = sample();
    let ctx = Context::build_from_api(&api, SelectionMode::Full);
    assert_eq!(ctx.mode, SelectionMode::Full);
    assert_eq!(ctx.selected, vec![0, 1, 2, 3, 4]);
}

#[test]
fn minimal_selection_takes_the_listed_classes_that_are_described() {
    let api = sample();
    let ctx = Context::build_from_api(&api, SelectionMode::Minimal);
    assert_eq!(ctx.selected, vec![0, 1, 3, 4]);
}

#[test]
fn context_holds_the_chains() {
    let api = sample();
    let ctx = Context::build_from_api(&api, SelectionMode::Full);
    assert_eq!(ctx.chains.len(), 6);
    assert_eq!(ctx.inheritance_chain(0), &vec![0]);
    assert_eq!(ctx.inheritance_chain(4), &vec![0, 1, 3, 4]);
    assert_eq!(ctx.inheritance_chain(2), &vec![0, 1, 2]);
    assert_eq!(ctx.inheritance_chain(5), &vec![5]);
}

#[test]
fn context_holds_the_virtual_sets() {
    let api = sample();
    let ctx = Context::build_from_api(&api, SelectionMode::Full);
    assert_eq!(
        ctx.virtual_methods(4),
        &vec![
            MethodRef { class: 0, method: 0 },
            MethodRef { class: 1, method: 0 },
            MethodRef { class: 4, method: 0 },
        ]
    );
    assert_eq!(
        ctx.virtual_methods(2),
        &vec![MethodRef { class: 0, method: 0 }, MethodRef { class: 2, method: 0 }]
    );
    assert_eq!(ctx.virtual_methods(5), &vec![]);
}

#[test]
fn an_override_stands_once_and_comes_from_the_class() {
    let api = sample();
    let ctx = Context::build_from_api(&api, SelectionMode::Full);
    let button = ctx.find_class("Button").unwrap();
    let pressed: Vec<&MethodRef> = ctx
        .virtual_methods(button)
        .iter()
        .filter(|r| api.classes[r.class].methods[r.method].name == "pressed")
        .collect();
    assert_eq!(pressed, vec![&MethodRef { class: button, method: 0 }]);
}

#[test]
fn context_knows_the_default_constructible_builtins() {
    let api = sample();
    let ctx = Context::build_from_api(&api, SelectionMode::Full);
    assert_eq!(ctx.default_constructible, vec![0]);
}

#[test]
fn find_class_gives_the_first_class_of_a_name() {
    let api = sample();
    let ctx = Context::build_from_api(&api, SelectionMode::Full);
    assert_eq!(ctx.find_class("Node"), Some(1));
    assert_eq!(ctx.find_class("Object"), Some(0));
    assert_eq!(ctx.find_class("Vector2"), None);
}

#[test]
fn resolving_a_type_twice_gives_the_same() {
    let api = sample();
    let ctx = Context::build_from_api(&api, SelectionMode::Minimal);
    let first = ctx.to_rust_type("typedarray::Button");
    let second = ctx.to_rust_type("typedarray::Button");
    assert_eq!(first, second);
    match first {
        Some(RustTy::EngineArray { tokens, elem_class }) => {
            assert_eq!(tokens.text(), "TypedArray < Gd < Button > > ");
            assert_eq!(elem_class, "Button");
        }
        other => panic!("not an array of objects: {other:?}"),
    }
    assert_eq!(ctx.to_rust_type("Missing"), None);
    assert_eq!(ctx.to_rust_type("Missing"), None);
}

#[test]
fn the_type_table_holds_each_reference_once() {
    let mut api = sample();
    api.classes[1].methods[1].return_type = Some("typedarray::Node".to_string());
    api.classes[3].methods[0].return_type = Some("Button".to_string());
    api.classes[4].methods[0].return_type = Some("typedarray::Node".to_string());
    let ctx = Context::build_from_api(&api, SelectionMode::Full);
    let names: Vec<&str> = ctx.types.iter().map(|e| e.name.as_str()).collect();
    assert_eq!(names, vec!["int", "typedarray::Node", "Button"]);
    assert_eq!(ctx.types[0].ty, RustTy::BuiltinIdent("i64".to_string()));
    assert_eq!(ctx.to_rust_type("int"), Some(RustTy::BuiltinIdent("i64".to_string())));
    assert_eq!(ctx.to_rust_type("Button"), ctx.names.classify("Button"));
    assert_eq!(ctx.to_rust_type("bool"), Some(RustTy::BuiltinIdent("bool".to_string())));
    assert_eq!(ctx.to_rust_type("typedarray::Node"), ctx.names.classify("typedarray::Node"));
}

#[test]
fn a_copy_of_a_type_is_equal_to_it() {
    let api = sample();
    let ctx = Context::build_from_api(&api, SelectionMode::Full);
    for ty in ["int", "Node", "typedarray::Node", "typedarray::int"] {
        let resolved = ctx.to_rust_type(ty).unwrap();
        assert_eq!(resolved.duplicate(), resolved);
    }
}
