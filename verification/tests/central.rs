use godot_codegen::api_parser::{
    BuildConfiguration, BuiltinClassDef, ConstructorDef, ExtensionApi, ParamDef, SizeEntry,
    UtilityFunctionDef,
};
use godot_codegen::central_generator::{
    builtin_records, builtins_without_size, generate_core_central_file, generate_core_mod_file,
    generate_sys_central_file, generate_sys_mod_file, BuiltinRecord,
};
use godot_codegen::context::{Context, SelectionMode};
use godot_codegen::special_cases::{ExceptionTable, Policy, Rule};
use godot_codegen::util::GeneratedFile;
use godot_codegen::utilities_generator::generate_utilities_file;

fn param(name: &str, ty: &str) -> ParamDef {
    ParamDef { name: name.to_string(), ty: ty.to_string(), default_value: None }
}

fn vector2() -> BuiltinClassDef {
    BuiltinClassDef {
        name: "Vector2".to_string(),
        sizes: vec![
            SizeEntry { config: BuildConfiguration::Float32, size: 8 },
            SizeEntry { config: BuildConfiguration::Float64, size: 16 },
        ],
        constructors: vec![
            ConstructorDef { index: 0, params: vec![] },
            ConstructorDef { index: 1, params: vec![param("x", "float"), param("y", "float")] },
        ],
        has_destructor: false,
        indexing_return_type: Some("float".to_string()),
    }
}

fn string() -> BuiltinClassDef {
    BuiltinClassDef {
        name: "String".to_string(),
        sizes: vec![
            SizeEntry { config: BuildConfiguration::Float32, size: 8 },
            SizeEntry { config: BuildConfiguration::Float64, size: 8 },
            SizeEntry { config: BuildConfiguration::Double32, size: 4 },
        ],
        constructors: vec![ConstructorDef { index: 0, params: vec![] }],
        has_destructor: true,
        indexing_return_type: None,
    }
}

fn utility(name: &str, params: Vec<ParamDef>, ret: Option<&str>, vararg: bool, hash: Option<u64>) -> UtilityFunctionDef {
    UtilityFunctionDef {
        name: name.to_string(),
        params,
        return_type: ret.map(|r| r.to_string()),
        is_vararg: vararg,
        hash,
    }
}

fn api() -> ExtensionApi {
    ExtensionApi {
        classes: vec![],
        builtin_classes: vec![vector2(), string()],
        utility_functions: vec![
            utility("sin", vec![param("x", "float")], Some("float"), false, Some(5)),
            utility("print", vec![], None, true, None),
        ],
        global_enums: vec![],
        global_constants: vec![],
    }
}

#[test]
fn the_record_of_vector2_has_the_size_of_the_configuration() {
    let records = builtin_records(&api(), BuildConfiguration::Float64);
    assert_eq!(
        records[0],
        BuiltinRecord {
            builtin: 0,
            name: "Vector2".to_string(),
            size: 16,
            constructors: 2,
            has_destructor: false,
        }
    );
    assert!(records.iter().all(|r| r.name != "Vector2" || r.size != 8));
    let single = builtin_records(&api(), BuildConfiguration::Float32);
    assert_eq!(single[0].size, 8);
}

#[test]
fn the_layout_table_records_size_16_for_vector2_under_float64() {
    let mut files: Vec<GeneratedFile> = vec![];
    generate_sys_central_file(&api(), BuildConfiguration::Float64, &mut files);
    assert_eq!(files.len(), 1);
    assert_eq!(files[0].path, "central.rs");
    let text = files[0].tokens.text();
    assert!(text.contains("BuiltinLayout { name : \"Vector2\" , size : 16 , "));
    assert!(!text.contains("size : 8 , constructors : 2"));
}

#[test]
fn the_sys_central_file_has_the_table_and_the_layouts() {
    let mut files: Vec<GeneratedFile> = vec![];
    generate_sys_central_file(&api(), BuildConfiguration::Float64, &mut files);
    assert_eq!(
        files[0].tokens.text(),
        "pub struct GlobalMethodTable { \
vector_2_construct_0 : BuiltinConstructor , \
vector_2_construct_1 : BuiltinConstructor , \
string_construct_0 : BuiltinConstructor , \
string_destroy : BuiltinDestructor , \
utility_sin : UtilityFunction , \
utility_print : UtilityFunction , } \
pub const BUILTIN_LAYOUTS : & [ BuiltinLayout ] = & [ \
BuiltinLayout { name : \"Vector2\" , size : 16 , constructors : 2 , has_destructor : false , } , \
BuiltinLayout { name : \"String\" , size : 8 , constructors : 1 , has_destructor : true , } , \
] ; "
    );
}

#[test]
fn a_builtin_without_size_is_left_out_and_named() {
    let a = api();
    assert_eq!(builtins_without_size(&a, BuildConfiguration::Float64), Vec::<String>::new());
    assert_eq!(builtins_without_size(&a, BuildConfiguration::Double32), vec!["Vector2"]);
    assert_eq!(
        builtins_without_size(&a, BuildConfiguration::Double64),
        vec!["Vector2", "String"]
    );
    let records = builtin_records(&a, BuildConfiguration::Double32);
    assert_eq!(records.len(), 1);
    assert_eq!(records[0].builtin, 1);
    assert_eq!(records[0].size, 4);
    let mut files: Vec<GeneratedFile> = vec![];
    generate_sys_central_file(&a, BuildConfiguration::Double32, &mut files);
    assert_eq!(
        files[0].tokens.text(),
        "pub struct GlobalMethodTable { \
string_construct_0 : BuiltinConstructor , \
string_destroy : BuiltinDestructor , \
utility_sin : UtilityFunction , \
utility_print : UtilityFunction , } \
pub const BUILTIN_LAYOUTS : & [ BuiltinLayout ] = & [ \
BuiltinLayout { name : \"String\" , size : 4 , constructors : 1 , has_destructor : true , } , \
] ; "
    );
}

#[test]
fn the_core_central_file_lists_the_builtin_types() {
    let a = api();
    let ctx = Context::build_from_api(&a, SelectionMode::Full);
    let mut files: Vec<GeneratedFile> = vec![];
    generate_core_central_file(&a, &ctx, BuildConfiguration::Float32, &mut files);
    assert_eq!(files[0].path, "central.rs");
    assert_eq!(
        files[0].tokens.text(),
        "pub enum VariantType { Vector2 , String , } \
impl_builtin_default ! ( Vector2 ) ; impl_builtin_default ! ( String ) ; "
    );
    let mut narrow: Vec<GeneratedFile> = vec![];
    generate_core_central_file(&a, &ctx, BuildConfiguration::Double32, &mut narrow);
    assert_eq!(
        narrow[0].tokens.text(),
        "pub enum VariantType { String , } impl_builtin_default ! ( String ) ; "
    );
}

#[test]
fn the_index_files_list_the_modules() {
    let mut files: Vec<GeneratedFile> = vec![];
    generate_sys_mod_file(&mut files, false);
    generate_sys_mod_file(&mut files, true);
    generate_core_mod_file(&mut files, false);
    generate_core_mod_file(&mut files, true);
    let texts: Vec<String> = files.iter().map(|f| f.tokens.text()).collect();
    assert_eq!(
        texts,
        vec![
            "pub mod central ; ",
            "pub mod central_stubs ; ",
            "pub mod central ; pub mod classes ; pub mod utilities ; ",
            "pub mod central_stubs ; pub mod classes_stubs ; pub mod utilities_stubs ; ",
        ]
    );
    assert!(files.iter().all(|f| f.path == "mod.rs"));
}

#[test]
fn the_utilities_file_has_one_function_for_each_utility() {
    let a = api();
    let ctx = Context::build_from_api(&a, SelectionMode::Full);
    let mut files: Vec<GeneratedFile> = vec![];
    generate_utilities_file(&a, &ctx, &ExceptionTable::new(), &mut files);
    assert_eq!(files[0].path, "utilities.rs");
    assert_eq!(
        files[0].tokens.text(),
        "pub fn sin ( x : f64 , ) -> f64 { utility_call ( \"sin\" , Some ( 5 ) ) } \
pub fn print ( varargs : & [ Variant ] , ) { utility_call_varargs ( \"print\" , None ) } "
    );
}

#[test]
fn an_excluded_utility_has_no_function() {
    let a = api();
    let ctx = Context::build_from_api(&a, SelectionMode::Full);
    let rules = ExceptionTable {
        rules: vec![
            Rule {
                class: "@GlobalScope".to_string(),
                method: Some("sin".to_string()),
                policy: Policy::Skip,
            },
            Rule {
                class: "@GlobalScope".to_string(),
                method: Some("print".to_string()),
                policy: Policy::Rename("print_all".to_string()),
            },
        ],
    };
    let mut files: Vec<GeneratedFile> = vec![];
    generate_utilities_file(&a, &ctx, &rules, &mut files);
    assert_eq!(
        files[0].tokens.text(),
        "pub fn print_all ( varargs : & [ Variant ] , ) { utility_call_varargs ( \"print\" , None ) } "
    );
}
