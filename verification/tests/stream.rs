use godot_codegen::api_parser::{
    BuildConfiguration, BuiltinClassDef, ClassDef, ExtensionApi, MethodDef, SizeEntry,
};
use godot_codegen::class_generator::generate_class;
use godot_codegen::context::{Context, SelectionMode};
use godot_codegen::special_cases::ExceptionTable;
use godot_codegen::stream::assemble;
use godot_codegen::util::Tokens;
use proc_macro2::{Delimiter, Spacing, TokenStream, TokenTree};

fn toks(items: &[&str]) -> Tokens {
    Tokens { items: items.iter().map(|s| s.to_string()).collect() }
}

fn text(items: &[&str]) -> Option<String> {
    assemble(&toks(items)).map(|s| s.to_string())
}

fn trees(stream: TokenStream) -> Vec<TokenTree> {
    stream.into_iter().collect()
}

#[test]
fn no_tokens_give_the_empty_stream() {
    let stream = assemble(&Tokens::new()).unwrap();
    assert!(stream.is_empty());
}

#[test]
fn identifiers_are_appended_as_identifiers() {
    let stream = assemble(&toks(&["pub", "struct", "Node2D", "_x", "a_1"])).unwrap();
    let names: Vec<String> = trees(stream)
        .into_iter()
        .map(|t| match t {
            TokenTree::Ident(i) => i.to_string(),
            other => panic!("no identifier: {other}"),
        })
        .collect();
    assert_eq!(names, vec!["pub", "struct", "Node2D", "_x", "a_1"]);
}

#[test]
fn punctuation_is_appended_character_by_character() {
    let stream = assemble(&toks(&["->", ",", "::"])).unwrap();
    let puncts: Vec<(char, Spacing)> = trees(stream)
        .into_iter()
        .map(|t| match t {
            TokenTree::Punct(p) => (p.as_char(), p.spacing()),
            other => panic!("no punctuation: {other}"),
        })
        .collect();
    assert_eq!(
        puncts,
        vec![
            ('-', Spacing::Joint),
            ('>', Spacing::Alone),
            (',', Spacing::Alone),
            (':', Spacing::Joint),
            (':', Spacing::Alone),
        ]
    );
    assert_eq!(text(&["a", "->", "b", "::", "c"]), Some("a -> b :: c".to_string()));
}

#[test]
fn numerals_are_appended_as_literals() {
    let stream = assemble(&toks(&["0", "4188891560", "18446744073709551615"])).unwrap();
    let numbers: Vec<String> = trees(stream)
        .into_iter()
        .map(|t| match t {
            TokenTree::Literal(l) => l.to_string(),
            other => panic!("no literal: {other}"),
        })
        .collect();
    assert_eq!(numbers, vec!["0", "4188891560", "18446744073709551615"]);
}

#[test]
fn strings_are_appended_as_literals() {
    let stream = assemble(&toks(&["\"Node\"", "\"\"", "\"it's a b\""])).unwrap();
    let strings: Vec<String> = trees(stream)
        .into_iter()
        .map(|t| match t {
            TokenTree::Literal(l) => l.to_string(),
            other => panic!("no literal: {other}"),
        })
        .collect();
    assert_eq!(strings, vec!["\"Node\"", "\"\"", "\"it's a b\""]);
}

#[test]
fn brackets_become_groups() {
    let stream = assemble(&toks(&["f", "(", "a", "[", "1", "]", ")", "{", "}"])).unwrap();
    let all = trees(stream);
    assert_eq!(all.len(), 3);
    match &all[1] {
        TokenTree::Group(g) => {
            assert_eq!(g.delimiter(), Delimiter::Parenthesis);
            let inner = trees(g.stream());
            assert_eq!(inner.len(), 2);
            match &inner[1] {
                TokenTree::Group(h) => {
                    assert_eq!(h.delimiter(), Delimiter::Bracket);
                    assert_eq!(h.stream().to_string(), "1");
                }
                other => panic!("no group: {other}"),
            }
        }
        other => panic!("no group: {other}"),
    }
    match &all[2] {
        TokenTree::Group(g) => {
            assert_eq!(g.delimiter(), Delimiter::Brace);
            assert!(g.stream().is_empty());
        }
        other => panic!("no group: {other}"),
    }
}

#[test]
fn brackets_that_do_not_match_give_no_stream() {
    assert_eq!(text(&["("]), None);
    assert_eq!(text(&[")"]), None);
    assert_eq!(text(&["(", "]"]), None);
    assert_eq!(text(&["(", "{", ")", "}"]), None);
    assert_eq!(text(&["(", ")", ")"]), None);
    assert_eq!(text(&["{", "(", ")"]), None);
}

#[test]
fn what_is_no_token_gives_no_stream() {
    assert_eq!(text(&[""]), None);
    assert_eq!(text(&["Node 2D"]), None);
    assert_eq!(text(&["2D"]), None);
    assert_eq!(text(&["007"]), None);
    assert_eq!(text(&["18446744073709551616"]), None);
    assert_eq!(text(&["_"]), None);
    assert_eq!(text(&["größe"]), None);
    assert_eq!(text(&["a-b"]), None);
    assert_eq!(text(&["enum::Error"]), None);
    assert_eq!(text(&["\"a\"b\""]), None);
    assert_eq!(text(&["\"a\\\""]), None);
    assert_eq!(text(&["\""]), None);
    assert_eq!(text(&["\"line\nbreak\""]), None);
    assert_eq!(text(&["(a)"]), None);
    assert_eq!(text(&["ok", "not ok"]), None);
}

#[test]
fn a_generated_module_is_assembled() {
    let api = ExtensionApi {
        classes: vec![ClassDef {
            name: "Node".to_string(),
            parent: None,
            methods: vec![MethodDef {
                name: "get_name".to_string(),
                params: vec![],
                return_type: Some("String".to_string()),
                is_static: false,
                is_virtual: false,
                is_const: true,
                is_vararg: false,
                hash: Some(11),
            }],
            enums: vec![],
            constants: vec![],
            is_instantiable: true,
            is_refcounted: false,
        }],
        builtin_classes: vec![BuiltinClassDef {
            name: "String".to_string(),
            sizes: vec![SizeEntry { config: BuildConfiguration::Float32, size: 8 }],
            constructors: vec![],
            has_destructor: false,
            indexing_return_type: None,
        }],
        utility_functions: vec![],
        global_enums: vec![],
        global_constants: vec![],
    };
    let ctx = Context::build_from_api(&api, SelectionMode::Full);
    let module = generate_class(&api, &ctx, &ExceptionTable::new(), 0);
    let stream = assemble(&module.tokens).unwrap();
    assert_eq!(
        stream.to_string(),
        "pub struct Node { object_ptr : ObjectPtr , } \
impl GodotClass for Node { type Base = () ; type Mem = ManualMemory ; } \
impl Node { pub fn new () -> Gd < Node > { construct (\"Node\") } } \
impl Node { pub fn get_name (& self ,) -> String \
{ method_call (\"Node\" , \"get_name\" , Some (11)) } } \
pub trait NodeVirtual { }"
    );
}
