use godot_codegen::api_parser::{
    ApiDescription, BuildConfiguration, BuiltinClassDef, ClassDef, DumpOutcome, GenerationError,
    LoadError, MethodDef, Section, SizeEntry,
};
use godot_codegen::context::SelectionMode;
use godot_codegen::special_cases::{ExceptionTable, Policy, Rule};
use godot_codegen::validation::ModelConsistencyError;
use godot_codegen::{generate_core_files, generate_sys_files, rustfmt_if_needed};

fn getter(name: &str, ret: &str, hash: u64) -> MethodDef {
    MethodDef {
        name: name.to_string(),
        params: vec![],
        return_type: Some(ret.to_string()),
        is_static: false,
        is_virtual: false,
        is_const: true,
        is_vararg: false,
        hash: Some(hash),
    }
}

fn class(name: &str, parent: Option<&str>, methods: Vec<MethodDef>) -> ClassDef {
    ClassDef {
        name: name.to_string(),
        parent: parent.map(|p| p.to_string()),
        methods,
        enums: vec![],
        constants: vec![],
        is_instantiable: true,
        is_refcounted: false,
    }
}

fn builtin(name: &str, narrow: u64, wide: u64) -> BuiltinClassDef {
    BuiltinClassDef {
        name: name.to_string(),
        sizes: vec![
            SizeEntry { config: BuildConfiguration::Float32, size: narrow },
            SizeEntry { config: BuildConfiguration::Float64, size: wide },
        ],
        constructors: vec![],
        has_destructor: false,
        indexing_return_type: None,
    }
}

fn description() -> ApiDescription {
    ApiDescription {
        classes: Some(vec![
            class("Node", None, vec![getter("get_name", "String", 11)]),
            class("Node2D", Some("Node"), vec![getter("get_position", "Vector2", 22)]),
            class("Gizmo", Some("Node"), vec![]),
        ]),
        builtin_classes: Some(vec![builtin("String", 8, 8), builtin("Vector2", 8, 16)]),
        global_enums: Some(vec![]),
        utility_functions: vec![],
        global_constants: vec![],
    }
}

fn paths(files: &[godot_codegen::util::GeneratedFile]) -> Vec<&str> {
    files.iter().map(|f| f.path.as_str()).collect()
}

#[test]
fn stubs_only_gives_the_index_file_alone() {
    let sys = generate_sys_files(DumpOutcome::Unavailable, BuildConfiguration::Float32, true).unwrap();
    assert_eq!(paths(&sys), vec!["mod.rs"]);
    assert_eq!(sys[0].tokens.text(), "pub mod central_stubs ; ");
    let core = generate_core_files(
        DumpOutcome::Unparseable,
        BuildConfiguration::Float32,
        SelectionMode::Full,
        &ExceptionTable::new(),
        true,
    )
    .unwrap()
    .files;
    assert_eq!(paths(&core), vec!["mod.rs"]);
    assert_eq!(
        core[0].tokens.text(),
        "pub mod central_stubs ; pub mod classes_stubs ; pub mod utilities_stubs ; "
    );
}

#[test]
fn sys_files_are_the_index_and_the_central_file() {
    let files =
        generate_sys_files(DumpOutcome::Parsed(description()), BuildConfiguration::Float64, false)
            .unwrap();
    assert_eq!(paths(&files), vec!["mod.rs", "central.rs"]);
    assert_eq!(files[0].tokens.text(), "pub mod central ; ");
    assert!(files[1].tokens.text().contains("name : \"Vector2\" , size : 16 ,"));
}

#[test]
fn core_files_in_full_mode() {
    let files = generate_core_files(
        DumpOutcome::Parsed(description()),
        BuildConfiguration::Float32,
        SelectionMode::Full,
        &ExceptionTable::new(),
        false,
    )
    .unwrap()
    .files;
    assert_eq!(
        paths(&files),
        vec![
            "mod.rs",
            "central.rs",
            "utilities.rs",
            "classes/node.rs",
            "classes/node_2d.rs",
            "classes/gizmo.rs",
            "classes/mod.rs",
        ]
    );
    assert_eq!(files[1].tokens.text(), "pub enum VariantType { String , Vector2 , } ");
    assert_eq!(files[2].tokens.text(), "");
}

#[test]
fn core_files_in_minimal_mode_with_rules() {
    let rules = ExceptionTable {
        rules: vec![
            Rule { class: "Gone".to_string(), method: None, policy: Policy::Skip },
            Rule { class: "Node".to_string(), method: None, policy: Policy::Skip },
            Rule {
                class: "Node".to_string(),
                method: Some("gone".to_string()),
                policy: Policy::Skip,
            },
        ],
    };
    let output = generate_core_files(
        DumpOutcome::Parsed(description()),
        BuildConfiguration::Float32,
        SelectionMode::Minimal,
        &rules,
        false,
    )
    .unwrap();
    assert_eq!(output.unmatched_rules, vec![0, 2]);
    let files = output.files;
    assert_eq!(
        paths(&files),
        vec!["mod.rs", "central.rs", "utilities.rs", "classes/node_2d.rs", "classes/mod.rs"]
    );
    assert_eq!(files[4].tokens.text(), "mod node_2d ; pub use node_2d :: Node2D ; ");
}

#[test]
fn a_description_without_classes_gives_no_file() {
    let mut d = description();
    d.classes = None;
    let sys = generate_sys_files(DumpOutcome::Parsed(d.clone()), BuildConfiguration::Float32, false);
    assert_eq!(sys, Err(GenerationError::Load(LoadError::MissingSection(Section::Classes))));
    let core = generate_core_files(
        DumpOutcome::Parsed(d),
        BuildConfiguration::Float32,
        SelectionMode::Full,
        &ExceptionTable::new(),
        false,
    );
    assert_eq!(core, Err(GenerationError::Load(LoadError::MissingSection(Section::Classes))));
}

#[test]
fn load_errors_abort_the_run() {
    assert_eq!(
        generate_sys_files(DumpOutcome::Unavailable, BuildConfiguration::Float32, false),
        Err(GenerationError::Load(LoadError::BinaryUnavailable))
    );
    assert_eq!(
        generate_core_files(
            DumpOutcome::Unparseable,
            BuildConfiguration::Float32,
            SelectionMode::Minimal,
            &ExceptionTable::new(),
            false
        ),
        Err(GenerationError::Load(LoadError::Unparseable))
    );
}

#[test]
fn a_missing_size_aborts_the_run() {
    assert_eq!(
        generate_sys_files(DumpOutcome::Parsed(description()), BuildConfiguration::Double64, false),
        Err(GenerationError::Model(ModelConsistencyError::MissingSize("String".to_string())))
    );
}

#[test]
fn generating_twice_gives_the_same_text() {
    let rules = ExceptionTable {
        rules: vec![Rule {
            class: "Node".to_string(),
            method: Some("get_name".to_string()),
            policy: Policy::Rename("name".to_string()),
        }],
    };
    let run = || {
        generate_core_files(
            DumpOutcome::Parsed(description()),
            BuildConfiguration::Float64,
            SelectionMode::Full,
            &rules,
            false,
        )
        .unwrap()
    };
    let first = run();
    let second = run();
    assert_eq!(first, second);
    assert_eq!(first.files.len(), second.files.len());
    for (a, b) in first.files.iter().zip(second.files.iter()) {
        assert_eq!(a.path, b.path);
        assert_eq!(a.tokens.text().as_bytes(), b.tokens.text().as_bytes());
    }
    let sys_first =
        generate_sys_files(DumpOutcome::Parsed(description()), BuildConfiguration::Float64, false);
    let sys_second =
        generate_sys_files(DumpOutcome::Parsed(description()), BuildConfiguration::Float64, false);
    assert_eq!(sys_first, sys_second);
}

fn names(n: usize) -> Vec<String> {
    (0..n).map(|i| format!("gen/file{i}.rs")).collect()
}

#[test]
fn formatting_runs_on_twenty_files_at_a_time() {
    let commands = rustfmt_if_needed(&names(45), true);
    assert_eq!(commands.len(), 3);
    for c in &commands {
        assert_eq!(c.program, "rustup");
        assert_eq!(&c.args[..4], ["run", "stable", "rustfmt", "--edition=2021"]);
    }
    assert_eq!(commands[0].args.len(), 24);
    assert_eq!(commands[1].args.len(), 24);
    assert_eq!(commands[2].args.len(), 9);
    assert_eq!(commands[0].args[4], "gen/file0.rs");
    assert_eq!(commands[1].args[4], "gen/file20.rs");
    assert_eq!(commands[2].args[8], "gen/file44.rs");
}

#[test]
fn formatting_batches_at_the_edges() {
    assert_eq!(rustfmt_if_needed(&names(0), true).len(), 0);
    assert_eq!(rustfmt_if_needed(&names(1), true).len(), 1);
    let twenty = rustfmt_if_needed(&names(20), true);
    assert_eq!(twenty.len(), 1);
    assert_eq!(twenty[0].args.len(), 24);
    let more = rustfmt_if_needed(&names(21), true);
    assert_eq!(more.len(), 2);
    assert_eq!(more[1].args, vec!["run", "stable", "rustfmt", "--edition=2021", "gen/file20.rs"]);
}

#[test]
fn formatting_switched_off_runs_nothing() {
    assert_eq!(rustfmt_if_needed(&names(45), false), vec![]);
}
