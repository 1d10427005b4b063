use godot_codegen::api_parser::{
    BuildConfiguration, BuiltinClassDef, ClassDef, EnumDef, ExtensionApi, MethodDef, ParamDef,
    SizeEntry,
};
use godot_codegen::class_generator::{
    generate_class, generate_class_files, generate_classes, GeneratedClass,
};
use godot_codegen::context::{Context, SelectionMode};
use godot_codegen::inheritance::MethodRef;
use godot_codegen::special_cases::{ExceptionTable, Policy, Rule, SignatureOverride};
use godot_codegen::util::{GeneratedFile, Tokens};
use godot_codegen::wrappers::{method_wrapper, quote_text, resolves};

fn param(name: &str, ty: &str) -> ParamDef {
    ParamDef { name: name.to_string(), ty: ty.to_string(), default_value: None }
}

fn getter(name: &str, ret: &str, hash: u64) -> MethodDef {
    MethodDef {
        name: name.to_string(),
        params: vec![],
        return_type: Some(ret.to_string()),
        is_static: false,
        is_virtual: false,
        is_const: true,
        is_vararg: false,
        hash: Some(hash),
    }
}

fn virtual_method(name: &str, params: Vec<ParamDef>) -> MethodDef {
    MethodDef {
        name: name.to_string(),
        params,
        return_type: None,
        is_static: false,
        is_virtual: true,
        is_const: false,
        is_vararg: false,
        hash: None,
    }
}

fn class(name: &str, parent: Option<&str>, methods: Vec<MethodDef>) -> ClassDef {
    ClassDef {
        name: name.to_string(),
        parent: parent.map(|p| p.to_string()),
        methods,
        enums: vec![],
        constants: vec![],
        is_instantiable: true,
        is_refcounted: false,
    }
}

fn builtin(name: &str) -> BuiltinClassDef {
    BuiltinClassDef {
        name: name.to_string(),
        sizes: vec![SizeEntry { config: BuildConfiguration::Float32, size: 8 }],
        constructors: vec![],
        has_destructor: false,
        indexing_return_type: None,
    }
}

fn api(classes: Vec<ClassDef>) -> ExtensionApi {
    ExtensionApi {
        classes,
        builtin_classes: vec![builtin("String"), builtin("Vector2")],
        utility_functions: vec![],
        global_enums: vec![],
        global_constants: vec![],
    }
}

fn node_api() -> ExtensionApi {
    api(vec![
        class("Node", None, vec![getter("get_name", "String", 11)]),
        class("Node2D", Some("Node"), vec![getter("get_position", "Vector2", 22)]),
    ])
}

fn method_rule(class: &str, method: &str, policy: Policy) -> Rule {
    Rule { class: class.to_string(), method: Some(method.to_string()), policy }
}

fn class_rule(class: &str, policy: Policy) -> Rule {
    Rule { class: class.to_string(), method: None, policy }
}

fn wrapper_names(module: &GeneratedClass) -> Vec<String> {
    module.wrappers.iter().map(|w| w.name.clone()).collect()
}

const NODE_TEXT: &str = "pub struct Node { object_ptr : ObjectPtr , } \
impl GodotClass for Node { type Base = ( ) ; type Mem = ManualMemory ; } \
impl Node { pub fn new ( ) -> Gd < Node > { construct ( \"Node\" ) } } \
impl Node { pub fn get_name ( & self , ) -> String \
{ method_call ( \"Node\" , \"get_name\" , Some ( 11 ) ) } } \
pub trait NodeVirtual { } ";

const NODE2D_TEXT: &str = "pub struct Node2D { object_ptr : ObjectPtr , } \
impl GodotClass for Node2D { type Base = Node ; type Mem = ManualMemory ; } \
impl Inherits < Node > for Node2D { } \
impl Node2D { pub fn new ( ) -> Gd < Node2D > { construct ( \"Node2D\" ) } } \
impl Node2D { pub fn get_name ( & self , ) -> String \
{ method_call ( \"Node\" , \"get_name\" , Some ( 11 ) ) } \
pub fn get_position ( & self , ) -> Vector2 \
{ method_call ( \"Node2D\" , \"get_position\" , Some ( 22 ) ) } } \
pub trait Node2DVirtual { } ";

#[test]
fn node_and_node2d_give_two_modules() {
    let api = node_api();
    let ctx = Context::build_from_api(&api, SelectionMode::Full);
    let modules = generate_classes(&api, &ctx, &ExceptionTable::new());
    assert_eq!(modules.len(), 2);
    assert_eq!(modules[0].class_name, "Node");
    assert_eq!(modules[0].base, None);
    assert_eq!(wrapper_names(&modules[0]), vec!["get_name"]);
    assert_eq!(modules[0].tokens.text(), NODE_TEXT);

    let node2d = &modules[1];
    assert_eq!(node2d.class, 1);
    assert_eq!(node2d.class_name, "Node2D");
    assert_eq!(node2d.module_name, "node_2d");
    assert_eq!(node2d.base, Some("Node".to_string()));
    assert_eq!(node2d.inherits_macro_ident, "inherits_transitive_Node2D");
    assert!(node2d.has_constructor);
    assert!(!node2d.has_pub_module);
    assert_eq!(wrapper_names(node2d), vec!["get_name", "get_position"]);
    assert_eq!(node2d.wrappers[0].source, MethodRef { class: 0, method: 0 });
    assert_eq!(node2d.wrappers[1].source, MethodRef { class: 1, method: 0 });
    assert_eq!(node2d.tokens.text(), NODE2D_TEXT);
}

#[test]
fn the_minimal_selection_gives_one_module_for_each_listed_class() {
    let api = api(vec![
        class("Object", None, vec![]),
        class("Gizmo", Some("Object"), vec![]),
        class("Node", Some("Object"), vec![]),
        class("Timer", Some("Node"), vec![]),
        class("Node", Some("Object"), vec![]),
    ]);
    let ctx = Context::build_from_api(&api, SelectionMode::Minimal);
    let modules = generate_classes(&api, &ctx, &ExceptionTable::new());
    let names: Vec<&str> = modules.iter().map(|m| m.class_name.as_str()).collect();
    assert_eq!(names, vec!["Object", "Node", "Timer"]);
    for listed in ["Object", "Node", "Timer"] {
        assert_eq!(modules.iter().filter(|m| m.class_name == listed).count(), 1);
    }
    let full = Context::build_from_api(&api, SelectionMode::Full);
    let all = generate_classes(&api, &full, &ExceptionTable::new());
    let names: Vec<&str> = all.iter().map(|m| m.class_name.as_str()).collect();
    assert_eq!(names, vec!["Object", "Gizmo", "Node", "Timer"]);
}

#[test]
fn a_skipped_class_has_no_module() {
    let api = node_api();
    let ctx = Context::build_from_api(&api, SelectionMode::Full);
    let rules = ExceptionTable { rules: vec![class_rule("Node", Policy::Skip)] };
    let modules = generate_classes(&api, &ctx, &rules);
    assert_eq!(modules.len(), 1);
    assert_eq!(modules[0].class_name, "Node2D");
    assert_eq!(wrapper_names(&modules[0]), vec!["get_name", "get_position"]);
}

#[test]
fn a_skipped_method_has_no_wrapper_in_any_module() {
    let api = node_api();
    let ctx = Context::build_from_api(&api, SelectionMode::Full);
    let rules = ExceptionTable { rules: vec![method_rule("Node", "get_name", Policy::Skip)] };
    let modules = generate_classes(&api, &ctx, &rules);
    assert_eq!(modules.len(), 2);
    assert_eq!(wrapper_names(&modules[0]), Vec::<String>::new());
    assert_eq!(wrapper_names(&modules[1]), vec!["get_position"]);
    for m in &modules {
        assert!(!m.tokens.items.contains(&"get_name".to_string()));
        assert!(m.wrappers.iter().all(|w| w.source != MethodRef { class: 0, method: 0 }));
    }
}

#[test]
fn a_rule_for_what_is_not_described_changes_nothing() {
    let api = node_api();
    let ctx = Context::build_from_api(&api, SelectionMode::Full);
    let rules = ExceptionTable {
        rules: vec![
            class_rule("Gone", Policy::Skip),
            method_rule("Node", "gone", Policy::Skip),
            method_rule("Node2D", "get_name", Policy::Skip),
            class_rule("Node", Policy::ForceVirtual),
        ],
    };
    assert_eq!(
        generate_classes(&api, &ctx, &rules),
        generate_classes(&api, &ctx, &ExceptionTable::new())
    );
}

#[test]
fn the_first_rule_for_a_key_counts() {
    let rules = ExceptionTable {
        rules: vec![
            method_rule("Node", "get_name", Policy::Rename("name".to_string())),
            method_rule("Node", "get_name", Policy::Skip),
            class_rule("Node", Policy::Skip),
        ],
    };
    assert_eq!(rules.method_policy("Node", "get_name"), Some(&Policy::Rename("name".to_string())));
    assert_eq!(rules.class_policy("Node"), Some(&Policy::Skip));
    assert_eq!(rules.method_policy("Node", "other"), None);
    assert_eq!(rules.class_policy("Node2D"), None);
    assert!(rules.is_class_skipped("Node"));
    assert!(!rules.is_class_skipped("get_name"));
    assert!(!rules.is_method_skipped("Node", "get_name"));
    assert!(!ExceptionTable::new().is_method_skipped("Node", "get_name"));
}

#[test]
fn a_renamed_method_is_called_by_its_engine_name() {
    let api = node_api();
    let ctx = Context::build_from_api(&api, SelectionMode::Full);
    let rules = ExceptionTable {
        rules: vec![method_rule("Node", "get_name", Policy::Rename("name".to_string()))],
    };
    let node = generate_class(&api, &ctx, &rules, 0);
    assert_eq!(wrapper_names(&node), vec!["name"]);
    assert_eq!(
        node.wrappers[0].tokens.text(),
        "pub fn name ( & self , ) -> String \
{ method_call ( \"Node\" , \"get_name\" , Some ( 11 ) ) } "
    );
}

#[test]
fn a_forced_signature_takes_the_place_of_the_described_one() {
    let api = node_api();
    let ctx = Context::build_from_api(&api, SelectionMode::Full);
    let forced = SignatureOverride {
        params: vec![param("index", "int"), param("who", "Node2D")],
        return_type: Some("Node".to_string()),
    };
    assert!(resolves(&ctx, &forced));
    let policy = Policy::ForceSignature(forced);
    let tokens = method_wrapper(&ctx, "Node", &api.classes[0].methods[0], Some(&policy));
    assert_eq!(
        tokens.text(),
        "pub fn get_name ( & self , index : i64 , who : Gd < Node2D > , ) -> Option < Gd < Node > > \
{ method_call ( \"Node\" , \"get_name\" , Some ( 11 ) ) } "
    );
}

#[test]
fn a_forced_signature_with_an_unknown_type_is_not_used() {
    let api = node_api();
    let ctx = Context::build_from_api(&api, SelectionMode::Full);
    let unknown_param = SignatureOverride { params: vec![param("m", "Matrix")], return_type: None };
    let unknown_return = SignatureOverride { params: vec![], return_type: Some("Matrix".to_string()) };
    assert!(!resolves(&ctx, &unknown_param));
    assert!(!resolves(&ctx, &unknown_return));
    let plain = method_wrapper(&ctx, "Node", &api.classes[0].methods[0], None);
    for sig in [unknown_param, unknown_return] {
        let policy = Policy::ForceSignature(sig);
        assert_eq!(
            method_wrapper(&ctx, "Node", &api.classes[0].methods[0], Some(&policy)),
            plain
        );
    }
}

#[test]
fn virtual_methods_become_override_points() {
    let api = api(vec![class(
        "Node",
        None,
        vec![
            virtual_method("ready", vec![]),
            virtual_method("input", vec![param("event", "Node")]),
            getter("get_name", "String", 11),
        ],
    )]);
    let ctx = Context::build_from_api(&api, SelectionMode::Full);
    let node = generate_class(&api, &ctx, &ExceptionTable::new(), 0);
    let kinds: Vec<bool> = node.wrappers.iter().map(|w| w.is_virtual).collect();
    assert_eq!(kinds, vec![true, true, false]);
    assert_eq!(node.wrappers[0].tokens.text(), "fn ready ( & mut self , ) ; ");
    assert_eq!(
        node.wrappers[1].tokens.text(),
        "fn input ( & mut self , event : Gd < Node > , ) ; "
    );
    assert!(node.tokens.text().ends_with(
        "pub trait NodeVirtual { fn ready ( & mut self , ) ; \
fn input ( & mut self , event : Gd < Node > , ) ; } "
    ));
}

#[test]
fn rules_override_whether_a_method_is_virtual() {
    let api = api(vec![class(
        "Node",
        None,
        vec![virtual_method("ready", vec![]), getter("get_name", "String", 11)],
    )]);
    let ctx = Context::build_from_api(&api, SelectionMode::Full);
    let rules = ExceptionTable {
        rules: vec![
            method_rule("Node", "ready", Policy::ForceNonVirtual),
            method_rule("Node", "get_name", Policy::ForceVirtual),
        ],
    };
    let node = generate_class(&api, &ctx, &rules, 0);
    assert!(!node.wrappers[0].is_virtual);
    assert!(node.wrappers[1].is_virtual);
    assert_eq!(
        node.wrappers[0].tokens.text(),
        "pub fn ready ( & mut self , ) { method_call ( \"Node\" , \"ready\" , None ) } "
    );
    assert_eq!(node.wrappers[1].tokens.text(), "fn get_name ( & mut self , ) -> String ; ");
    assert!(api.classes[0].methods[0].is_virtual);
}

#[test]
fn static_and_variadic_methods() {
    let mut create = getter("create", "Node", 5);
    create.is_static = true;
    let mut call = getter("call", "Variant", 6);
    call.is_const = false;
    call.is_vararg = true;
    call.params = vec![param("method", "String")];
    let api = api(vec![class("Node", None, vec![create, call])]);
    let ctx = Context::build_from_api(&api, SelectionMode::Full);
    let node = generate_class(&api, &ctx, &ExceptionTable::new(), 0);
    assert_eq!(
        node.wrappers[0].tokens.text(),
        "pub fn create ( ) -> Option < Gd < Node > > \
{ method_call ( \"Node\" , \"create\" , Some ( 5 ) ) } "
    );
    assert_eq!(
        node.wrappers[1].tokens.text(),
        "pub fn call ( & mut self , method : String , varargs : & [ Variant ] , ) -> Variant \
{ method_call_varargs ( \"Node\" , \"call\" , Some ( 6 ) ) } "
    );
}

#[test]
fn a_class_that_cannot_be_instantiated_has_no_constructor() {
    let mut object = class("Object", None, vec![]);
    object.is_instantiable = false;
    object.is_refcounted = true;
    object.enums = vec![EnumDef { name: "Flags".to_string(), values: vec![] }];
    let api = api(vec![object]);
    let ctx = Context::build_from_api(&api, SelectionMode::Full);
    let module = generate_class(&api, &ctx, &ExceptionTable::new(), 0);
    assert!(!module.has_constructor);
    assert!(module.has_pub_module);
    assert_eq!(
        module.tokens.text(),
        "pub struct Object { object_ptr : ObjectPtr , } \
impl GodotClass for Object { type Base = ( ) ; type Mem = RefCounted ; } \
impl Object { } pub trait ObjectVirtual { } "
    );
}

#[test]
fn a_local_method_hides_the_inherited_one_of_its_name() {
    let api = api(vec![
        class("Base", None, vec![getter("get", "String", 1), getter("other", "String", 2)]),
        class("Derived", Some("Base"), vec![getter("get", "Vector2", 3)]),
    ]);
    let ctx = Context::build_from_api(&api, SelectionMode::Full);
    let derived = generate_class(&api, &ctx, &ExceptionTable::new(), 1);
    assert_eq!(wrapper_names(&derived), vec!["get", "other"]);
    assert_eq!(derived.wrappers[0].source, MethodRef { class: 1, method: 0 });
    assert_eq!(
        derived.wrappers[0].tokens.text(),
        "pub fn get ( & self , ) -> Vector2 { method_call ( \"Derived\" , \"get\" , Some ( 3 ) ) } "
    );
}

#[test]
fn a_class_inherits_from_all_its_ancestors() {
    let api = api(vec![
        class("Object", None, vec![]),
        class("Node", Some("Object"), vec![]),
        class("Node2D", Some("Node"), vec![]),
    ]);
    let ctx = Context::build_from_api(&api, SelectionMode::Full);
    let module = generate_class(&api, &ctx, &ExceptionTable::new(), 2);
    assert!(module.tokens.text().contains(
        "impl Inherits < Object > for Node2D { } impl Inherits < Node > for Node2D { } "
    ));
    assert!(!module.tokens.text().contains("impl Inherits < Node2D >"));
}

#[test]
fn class_files_come_in_the_order_of_the_description() {
    let mut node = class("Node", None, vec![getter("get_name", "String", 11)]);
    node.enums = vec![EnumDef { name: "ProcessMode".to_string(), values: vec![] }];
    let api = api(vec![
        class("Zebra", None, vec![]),
        node,
        class("Node2D", Some("Node"), vec![]),
    ]);
    let ctx = Context::build_from_api(&api, SelectionMode::Full);
    let mut files: Vec<GeneratedFile> = vec![];
    generate_class_files(&api, &ctx, BuildConfiguration::Float32, &ExceptionTable::new(), &mut files);
    let paths: Vec<&str> = files.iter().map(|f| f.path.as_str()).collect();
    assert_eq!(
        paths,
        vec!["classes/zebra.rs", "classes/node.rs", "classes/node_2d.rs", "classes/mod.rs"]
    );
    assert_eq!(
        files[3].tokens.text(),
        "mod zebra ; pub use zebra :: Zebra ; \
pub mod node ; pub use node :: Node ; \
mod node_2d ; pub use node_2d :: Node2D ; "
    );
    let modules = generate_classes(&api, &ctx, &ExceptionTable::new());
    assert_eq!(files[1].tokens, modules[1].tokens);
}

#[test]
fn class_files_are_appended_to_the_files_so_far() {
    let api = node_api();
    let ctx = Context::build_from_api(&api, SelectionMode::Minimal);
    let mut files: Vec<GeneratedFile> =
        vec![GeneratedFile { path: "mod.rs".to_string(), tokens: Tokens::new() }];
    generate_class_files(&api, &ctx, BuildConfiguration::Float64, &ExceptionTable::new(), &mut files);
    assert_eq!(files.len(), 4);
    assert_eq!(files[0].path, "mod.rs");
}

#[test]
fn quote_text_puts_quotes_around() {
    assert_eq!(quote_text("Node"), "\"Node\"");
    assert_eq!(quote_text(""), "\"\"");
}

#[test]
fn rules_that_name_nothing_are_found() {
    let mut api = node_api();
    api.utility_functions.push(godot_codegen::api_parser::UtilityFunctionDef {
        name: "sin".to_string(),
        params: vec![],
        return_type: None,
        is_vararg: false,
        hash: Some(1),
    });
    let rules = ExceptionTable {
        rules: vec![
            class_rule("Node", Policy::Skip),
            class_rule("Gone", Policy::Skip),
            method_rule("Node", "get_name", Policy::ForceVirtual),
            method_rule("Node", "get_position", Policy::Skip),
            method_rule("Node2D", "get_position", Policy::Skip),
            method_rule("Gone", "get_name", Policy::Skip),
            method_rule("@GlobalScope", "sin", Policy::Skip),
            method_rule("@GlobalScope", "cos", Policy::Skip),
            class_rule("@GlobalScope", Policy::Skip),
        ],
    };
    assert_eq!(rules.unmatched_rules(&api), vec![1, 3, 5, 7, 8]);
    assert_eq!(ExceptionTable::new().unmatched_rules(&api), Vec::<usize>::new());
}

#[test]
fn methods_are_well_formed_or_not() {
    let plain = getter("get_name", "String", 11);
    assert!(plain.is_well_formed());
    let mut no_hash = getter("get_name", "String", 11);
    no_hash.hash = None;
    assert!(!no_hash.is_well_formed());
    assert!(virtual_method("ready", vec![]).is_well_formed());
    let mut static_virtual = virtual_method("ready", vec![]);
    static_virtual.is_static = true;
    assert!(!static_virtual.is_well_formed());
    let mut hashed_virtual = virtual_method("ready", vec![]);
    hashed_virtual.hash = Some(3);
    assert!(hashed_virtual.is_well_formed());
}
