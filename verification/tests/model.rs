use godot_codegen::api_parser::{
    load_extension_api, ApiDescription, BuildConfiguration, BuiltinClassDef, ClassDef,
    ConstructorDef, DumpOutcome, EnumDef, ExtensionApi, GenerationError, LoadError, MethodDef,
    ParamDef, Section, SizeEntry, UtilityFunctionDef,
};
use godot_codegen::inheritance::{chain_within, flatten, parent_index, reaches_root, MethodRef};
use godot_codegen::names::NameIndex;
use godot_codegen::validation::{
    check_model, collect_type_refs, lookup_size, ModelConsistencyError,
};

fn param(name: &str, ty: &str) -> ParamDef {
    ParamDef { name: name.to_string(), ty: ty.to_string(), default_value: None }
}

fn method(name: &str, params: Vec<ParamDef>, ret: Option<&str>, is_virtual: bool) -> MethodDef {
    MethodDef {
        name: name.to_string(),
        params,
        return_type: ret.map(|r| r.to_string()),
        is_static: false,
        is_virtual,
        is_const: false,
        is_vararg: false,
        hash: if is_virtual { None } else { Some(1) },
    }
}

fn class(name: &str, parent: Option<&str>, methods: Vec<MethodDef>) -> ClassDef {
    ClassDef {
        name: name.to_string(),
        parent: parent.map(|p| p.to_string()),
        methods,
        enums: vec![],
        constants: vec![],
        is_instantiable: true,
        is_refcounted: false,
    }
}

fn builtin(name: &str, sizes: &[(BuildConfiguration, u64)]) -> BuiltinClassDef {
    BuiltinClassDef {
        name: name.to_string(),
        sizes: sizes.iter().map(|(c, s)| SizeEntry { config: *c, size: *s }).collect(),
        constructors: vec![],
        has_destructor: false,
        indexing_return_type: None,
    }
}

fn api(classes: Vec<ClassDef>, builtins: Vec<BuiltinClassDef>) -> ExtensionApi {
    ExtensionApi {
        classes,
        builtin_classes: builtins,
        utility_functions: vec![],
        global_enums: vec![],
        global_constants: vec![],
    }
}

fn description(api: ExtensionApi) -> ApiDescription {
    ApiDescription {
        classes: Some(api.classes),
        builtin_classes: Some(api.builtin_classes),
        global_enums: Some(api.global_enums),
        utility_functions: api.utility_functions,
        global_constants: api.global_constants,
    }
}

fn button_api() -> ExtensionApi {
    api(
        vec![
            class("Object", None, vec![method("notify", vec![param("what", "int")], None, true)]),
            class(
                "BaseButton",
                Some("Object"),
                vec![
                    method("pressed", vec![], None, true),
                    method("toggled", vec![param("on", "bool")], None, true),
                    method("is_pressed", vec![], Some("bool"), false),
                ],
            ),
            class(
                "Button",
                Some("BaseButton"),
                vec![
                    method("get_text", vec![], Some("String"), false),
                    method("pressed", vec![], None, true),
                ],
            ),
        ],
        vec![builtin("String", &[(BuildConfiguration::Float32, 8)])],
    )
}

#[test]
fn parent_index_finds_the_parent() {
    let api = button_api();
    let names = NameIndex::build(&api);
    assert_eq!(parent_index(&api, &names, 0), None);
    assert_eq!(parent_index(&api, &names, 1), Some(0));
    assert_eq!(parent_index(&api, &names, 2), Some(1));
}

#[test]
fn chain_runs_from_the_root_to_the_class() {
    let api = button_api();
    let names = NameIndex::build(&api);
    assert_eq!(chain_within(&api, &names, 0, 3), vec![0]);
    assert_eq!(chain_within(&api, &names, 1, 3), vec![0, 1]);
    assert_eq!(chain_within(&api, &names, 2, 3), vec![0, 1, 2]);
}

#[test]
fn chain_stops_when_the_steps_are_used_up() {
    let api = button_api();
    let names = NameIndex::build(&api);
    assert_eq!(chain_within(&api, &names, 2, 1), vec![1, 2]);
    assert_eq!(chain_within(&api, &names, 2, 0), vec![2]);
    assert!(reaches_root(&api, &names, 2, 2));
    assert!(!reaches_root(&api, &names, 2, 1));
    assert!(reaches_root(&api, &names, 0, 0));
}

#[test]
fn virtual_set_takes_the_override_from_the_derived_class() {
    let api = button_api();
    let set = flatten(&api, &vec![0, 1, 2], true);
    assert_eq!(
        set,
        vec![
            MethodRef { class: 0, method: 0 },
            MethodRef { class: 2, method: 1 },
            MethodRef { class: 1, method: 1 },
        ]
    );
    let pressed: Vec<&MethodRef> = set
        .iter()
        .filter(|r| api.classes[r.class].methods[r.method].name == "pressed")
        .collect();
    assert_eq!(pressed.len(), 1);
    assert_eq!(api.classes[pressed[0].class].name, "Button");
}

#[test]
fn virtual_set_tells_overloads_apart_by_parameter_count() {
    let api = api(
        vec![
            class("A", None, vec![method("f", vec![], None, true)]),
            class(
                "B",
                Some("A"),
                vec![
                    method("f", vec![param("x", "int")], None, true),
                    method("f", vec![], None, false),
                ],
            ),
        ],
        vec![],
    );
    assert_eq!(
        flatten(&api, &vec![0, 1], true),
        vec![MethodRef { class: 0, method: 0 }, MethodRef { class: 1, method: 0 }]
    );
}

#[test]
fn exposed_methods_take_the_local_method_of_a_name() {
    let api = api(
        vec![
            class(
                "A",
                None,
                vec![method("f", vec![], None, false), method("g", vec![], None, false)],
            ),
            class(
                "B",
                Some("A"),
                vec![
                    method("h", vec![], None, false),
                    method("f", vec![param("x", "int")], None, false),
                ],
            ),
        ],
        vec![],
    );
    assert_eq!(
        flatten(&api, &vec![0, 1], false),
        vec![
            MethodRef { class: 1, method: 1 },
            MethodRef { class: 0, method: 1 },
            MethodRef { class: 1, method: 0 },
        ]
    );
    assert_eq!(flatten(&api, &vec![], false), vec![]);
}

#[test]
fn type_refs_are_collected_in_reading_order() {
    let mut a = button_api();
    a.utility_functions.push(UtilityFunctionDef {
        name: "sin".to_string(),
        params: vec![param("x", "float")],
        return_type: Some("float".to_string()),
        is_vararg: false,
        hash: Some(2),
    });
    a.builtin_classes[0].constructors.push(ConstructorDef {
        index: 1,
        params: vec![param("from", "String")],
    });
    a.builtin_classes[0].indexing_return_type = Some("int".to_string());
    assert_eq!(
        collect_type_refs(&a),
        vec!["int", "bool", "bool", "String", "float", "float", "String", "int"]
    );
}

#[test]
fn lookup_size_takes_the_entry_of_the_configuration() {
    let b = builtin(
        "Vector2",
        &[
            (BuildConfiguration::Float32, 8),
            (BuildConfiguration::Float64, 16),
            (BuildConfiguration::Float64, 99),
        ],
    );
    assert_eq!(lookup_size(&b, BuildConfiguration::Float32), Some(8));
    assert_eq!(lookup_size(&b, BuildConfiguration::Float64), Some(16));
    assert_eq!(lookup_size(&b, BuildConfiguration::Double32), None);
    assert_eq!(lookup_size(&b, BuildConfiguration::Double64), None);
}

#[test]
fn check_model_accepts_a_consistent_description() {
    assert_eq!(check_model(&button_api(), BuildConfiguration::Float32), Ok(()));
    assert_eq!(check_model(&api(vec![], vec![]), BuildConfiguration::Double64), Ok(()));
}

#[test]
fn check_model_reports_a_missing_parent() {
    let a = api(vec![class("A", None, vec![]), class("B", Some("Nowhere"), vec![])], vec![]);
    assert_eq!(
        check_model(&a, BuildConfiguration::Float32),
        Err(ModelConsistencyError::UnresolvedType("Nowhere".to_string()))
    );
}

#[test]
fn check_model_reports_cyclic_inheritance() {
    let a = api(
        vec![
            class("Root", None, vec![]),
            class("A", Some("B"), vec![]),
            class("B", Some("A"), vec![]),
        ],
        vec![],
    );
    assert_eq!(
        check_model(&a, BuildConfiguration::Float32),
        Err(ModelConsistencyError::CyclicInheritance("A".to_string()))
    );
    let own = api(vec![class("Me", Some("Me"), vec![])], vec![]);
    assert_eq!(
        check_model(&own, BuildConfiguration::Float32),
        Err(ModelConsistencyError::CyclicInheritance("Me".to_string()))
    );
}

#[test]
fn check_model_reports_an_unresolved_type() {
    let a = api(
        vec![class(
            "A",
            None,
            vec![method("f", vec![param("x", "int"), param("y", "Matrix")], Some("Tensor"), false)],
        )],
        vec![],
    );
    assert_eq!(
        check_model(&a, BuildConfiguration::Float32),
        Err(ModelConsistencyError::UnresolvedType("Matrix".to_string()))
    );
}

#[test]
fn check_model_reports_a_missing_size() {
    let a = api(
        vec![],
        vec![
            builtin("Vector2", &[(BuildConfiguration::Float32, 8), (BuildConfiguration::Float64, 16)]),
            builtin("Vector3", &[(BuildConfiguration::Float32, 12)]),
        ],
    );
    assert_eq!(check_model(&a, BuildConfiguration::Float32), Ok(()));
    assert_eq!(
        check_model(&a, BuildConfiguration::Float64),
        Err(ModelConsistencyError::MissingSize("Vector3".to_string()))
    );
    assert_eq!(
        check_model(&a, BuildConfiguration::Double32),
        Err(ModelConsistencyError::MissingSize("Vector2".to_string()))
    );
}

#[test]
fn check_model_reports_the_first_kind_of_violation() {
    let a = api(
        vec![
            class("A", Some("A"), vec![method("f", vec![], Some("Tensor"), false)]),
            class("B", Some("Nowhere"), vec![]),
        ],
        vec![builtin("Vector2", &[])],
    );
    assert_eq!(
        check_model(&a, BuildConfiguration::Float32),
        Err(ModelConsistencyError::UnresolvedType("Nowhere".to_string()))
    );
}

#[test]
fn load_gives_the_model_and_the_configuration() {
    let loaded =
        load_extension_api(DumpOutcome::Parsed(description(button_api())), BuildConfiguration::Float32);
    assert_eq!(loaded, Ok((button_api(), BuildConfiguration::Float32)));
}

#[test]
fn load_fails_without_the_classes_section() {
    let mut d = description(button_api());
    d.classes = None;
    assert_eq!(
        load_extension_api(DumpOutcome::Parsed(d), BuildConfiguration::Float32),
        Err(GenerationError::Load(LoadError::MissingSection(Section::Classes)))
    );
}

#[test]
fn load_fails_without_the_builtins_section() {
    let mut d = description(button_api());
    d.builtin_classes = None;
    assert_eq!(
        load_extension_api(DumpOutcome::Parsed(d), BuildConfiguration::Float32),
        Err(GenerationError::Load(LoadError::MissingSection(Section::BuiltinClasses)))
    );
}

#[test]
fn load_fails_without_the_enums_section() {
    let mut d = description(button_api());
    d.global_enums = None;
    assert_eq!(
        load_extension_api(DumpOutcome::Parsed(d), BuildConfiguration::Float32),
        Err(GenerationError::Load(LoadError::MissingSection(Section::GlobalEnums)))
    );
    let mut all = description(button_api());
    all.classes = None;
    all.builtin_classes = None;
    all.global_enums = None;
    assert_eq!(
        load_extension_api(DumpOutcome::Parsed(all), BuildConfiguration::Float32),
        Err(GenerationError::Load(LoadError::MissingSection(Section::Classes)))
    );
}

#[test]
fn load_fails_when_the_engine_gave_nothing_usable() {
    assert_eq!(
        load_extension_api(DumpOutcome::Unavailable, BuildConfiguration::Float32),
        Err(GenerationError::Load(LoadError::BinaryUnavailable))
    );
    assert_eq!(
        load_extension_api(DumpOutcome::Unparseable, BuildConfiguration::Float32),
        Err(GenerationError::Load(LoadError::Unparseable))
    );
}

#[test]
fn load_fails_on_an_inconsistent_model() {
    let a = api(vec![class("A", Some("B"), vec![]), class("B", Some("A"), vec![])], vec![]);
    assert_eq!(
        load_extension_api(DumpOutcome::Parsed(description(a)), BuildConfiguration::Float32),
        Err(GenerationError::Model(ModelConsistencyError::CyclicInheritance("A".to_string())))
    );
    let global_enum_only = ApiDescription {
        classes: Some(vec![class(
            "A",
            None,
            vec![method("f", vec![], Some("enum::Error"), false)],
        )]),
        builtin_classes: Some(vec![]),
        global_enums: Some(vec![EnumDef { name: "Error".to_string(), values: vec![] }]),
        utility_functions: vec![],
        global_constants: vec![],
    };
    assert!(load_extension_api(DumpOutcome::Parsed(global_enum_only), BuildConfiguration::Float32)
        .is_ok());
}
