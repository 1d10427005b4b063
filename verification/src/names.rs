//! The names that an API description declares, and the classification of a
//! type reference against them.

use vstd::prelude::*;
use crate::api_parser::{ApiModel, ExtensionApi};
use crate::rust_ty::{RustTy, RustTyModel};
use crate::util::{
    snake_case, split_at_char, split_once, str_eq, strip_prefix, to_snake_case, without_prefix,
    Tokens,
};

verus! {

/// The first position at or behind `from` at which `names` holds `name`.
pub open spec fn position_from(names: Seq<Seq<char>>, name: Seq<char>, from: int) -> Option<int>
    decreases names.len() - from,
{
    if from < 0 || from >= names.len() {
        None
    } else if names[from] == name {
        Some(from)
    } else {
        position_from(names, name, from + 1)
    }
}

/// The first position at which `names` holds `name`.
pub open spec fn position(names: Seq<Seq<char>>, name: Seq<char>) -> Option<int> {
    position_from(names, name, 0)
}

/// `position_from` answers with the least position that holds `name`, and
/// with `None` only where no position does.
pub proof fn lemma_position_from(names: Seq<Seq<char>>, name: Seq<char>, from: int)
    requires
        0 <= from,
    ensures
        match position_from(names, name, from) {
            Some(i) => from <= i < names.len() && names[i] == name && forall|j: int|
                from <= j < i ==> names[j] != name,
            None => forall|j: int| from <= j < names.len() ==> names[j] != name,
        },
    decreases names.len() - from,
{
    if from < names.len() && names[from] != name {
        lemma_position_from(names, name, from + 1);
    }
}

/// `position` answers with the least position that holds `name`.
pub proof fn lemma_position(names: Seq<Seq<char>>, name: Seq<char>)
    ensures
        match position(names, name) {
            Some(i) => 0 <= i < names.len() && names[i] == name && forall|j: int|
                0 <= j < i ==> names[j] != name,
            None => forall|j: int| 0 <= j < names.len() ==> names[j] != name,
        },
{
    lemma_position_from(names, name, 0);
}

/// Searches `names` for `name`.
pub fn find_name(names: &Vec<String>, name: &str) -> (r: Option<usize>)
    ensures
        match r {
            Some(i) => position(names.deep_view(), name@) == Some(i as int),
            None => position(names.deep_view(), name@) is None,
        },
{
    let n: usize = names.len();
    let mut i: usize = 0;
    while i < n
        invariant
            i <= n,
            n == names.len(),
            position(names.deep_view(), name@) == position_from(
                names.deep_view(),
                name@,
                i as int,
            ),
        decreases n - i,
    {
        assert(names.deep_view()[i as int] == names[i as int]@);
        if str_eq(names[i].as_str(), name) {
            return Some(i);
        }
        i = i + 1;
    }
    None
}

/// The names declared by an API description.
pub struct NameTables {
    pub classes: Seq<Seq<char>>,
    pub builtins: Seq<Seq<char>>,
    pub global_enums: Seq<Seq<char>>,
    /// For each class, the names of the enumerations nested in it.
    pub class_enums: Seq<Seq<Seq<char>>>,
}

/// The names of the classes, in the order of the description.
pub open spec fn class_names(api: ApiModel) -> Seq<Seq<char>> {
    Seq::new(api.classes.len(), |i: int| api.classes[i].name)
}

/// The names of the builtin types, in the order of the description.
pub open spec fn builtin_names(api: ApiModel) -> Seq<Seq<char>> {
    Seq::new(api.builtin_classes.len(), |i: int| api.builtin_classes[i].name)
}

/// The names of the global enumerations, in the order of the description.
pub open spec fn global_enum_names(api: ApiModel) -> Seq<Seq<char>> {
    Seq::new(api.global_enums.len(), |i: int| api.global_enums[i].name)
}

/// The names of the enumerations nested in class `c`.
pub open spec fn nested_enum_names(api: ApiModel, c: int) -> Seq<Seq<char>> {
    Seq::new(api.classes[c].enums.len(), |i: int| api.classes[c].enums[i].name)
}

/// The names that `api` declares.
pub open spec fn name_tables(api: ApiModel) -> NameTables {
    NameTables {
        classes: class_names(api),
        builtins: builtin_names(api),
        global_enums: global_enum_names(api),
        class_enums: Seq::new(api.classes.len(), |c: int| nested_enum_names(api, c)),
    }
}

/// The name by which a primitive or a builtin value type is written;
/// `None` where `ty` is neither.
pub open spec fn value_ident(t: NameTables, ty: Seq<char>) -> Option<Seq<char>> {
    if ty == "bool"@ {
        Some("bool"@)
    } else if ty == "int"@ {
        Some("i64"@)
    } else if ty == "float"@ {
        Some("f64"@)
    } else if ty == "Variant"@ {
        Some("Variant"@)
    } else if position(t.builtins, ty) is Some {
        Some(ty)
    } else {
        None
    }
}

/// The representation of an array type with elements `elem`.
pub open spec fn classify_array(t: NameTables, elem: Seq<char>) -> Option<RustTyModel> {
    match value_ident(t, elem) {
        Some(ident) => Some(
            RustTyModel::BuiltinArray(seq!["TypedArray"@, "<"@, ident, ">"@]),
        ),
        None => if position(t.classes, elem) is Some {
            Some(
                RustTyModel::EngineArray {
                    tokens: seq!["TypedArray"@, "<"@, "Gd"@, "<"@, elem, ">"@, ">"@],
                    elem_class: elem,
                },
            )
        } else {
            None
        },
    }
}

/// The representation of the enumeration `path`: `Class.Enum` for one nested
/// in a class, a bare name for a global one.
pub open spec fn classify_enum(t: NameTables, path: Seq<char>) -> Option<RustTyModel> {
    match split_at_char(path, '.') {
        Some((class, name)) => match position(t.classes, class) {
            Some(c) => if c < t.class_enums.len() && position(t.class_enums[c], name) is Some {
                Some(
                    RustTyModel::EngineEnum {
                        tokens: seq![snake_case(class), "::"@, name],
                        surrounding_class: Some(class),
                    },
                )
            } else {
                None
            },
            None => None,
        },
        None => if position(t.global_enums, path) is Some {
            Some(
                RustTyModel::EngineEnum {
                    tokens: seq!["global"@, "::"@, path],
                    surrounding_class: None,
                },
            )
        } else {
            None
        },
    }
}

/// The representation of the type reference `ty`; `None` where it names
/// nothing that the description declares. A reference is an array
/// (`typedarray::` and the element type), an enumeration (`enum::` and its
/// path), a primitive, a builtin value type, or an engine class, tried in
/// this order.
pub open spec fn classify(t: NameTables, ty: Seq<char>) -> Option<RustTyModel> {
    match without_prefix(ty, "typedarray::"@) {
        Some(elem) => classify_array(t, elem),
        None => match without_prefix(ty, "enum::"@) {
            Some(path) => classify_enum(t, path),
            None => match value_ident(t, ty) {
                Some(ident) => Some(RustTyModel::BuiltinIdent(ident)),
                None => if position(t.classes, ty) is Some {
                    Some(RustTyModel::EngineClass(seq!["Gd"@, "<"@, ty, ">"@]))
                } else {
                    None
                },
            },
        },
    }
}

/// The name tables of a description, for searching.
#[derive(Clone, Debug, PartialEq, Eq)]
pub struct NameIndex {
    pub classes: Vec<String>,
    pub builtins: Vec<String>,
    pub global_enums: Vec<String>,
    pub class_enums: Vec<Vec<String>>,
}

impl DeepView for NameIndex {
    type V = NameTables;

    open spec fn deep_view(&self) -> NameTables {
        NameTables {
            classes: self.classes.deep_view(),
            builtins: self.builtins.deep_view(),
            global_enums: self.global_enums.deep_view(),
            class_enums: self.class_enums.deep_view(),
        }
    }
}

impl View for NameIndex {
    type V = NameTables;

    open spec fn view(&self) -> NameTables {
        self.deep_view()
    }
}

fn nested_enums_of(api: &ExtensionApi, c: usize) -> (r: Vec<String>)
    requires
        c < api.classes.len(),
    ensures
        r.deep_view() == nested_enum_names(api@, c as int),
{
    let class = &api.classes[c];
    assert(api@.classes[c as int] == class.deep_view());
    let n: usize = class.enums.len();
    let mut out: Vec<String> = Vec::new();
    let mut i: usize = 0;
    while i < n
        invariant
            i <= n,
            n == class.enums.len(),
            out.len() == i,
            forall|k: int| 0 <= k < i ==> out[k]@ == class.enums[k].name@,
        decreases n - i,
    {
        out.push(class.enums[i].name.clone());
        i = i + 1;
    }
    assert(out.deep_view() =~= nested_enum_names(api@, c as int));
    out
}

impl NameIndex {
    /// Collects the names that `api` declares.
    pub fn build(api: &ExtensionApi) -> (r: NameIndex)
        ensures
            r@ == name_tables(api@),
    {
        let mut classes: Vec<String> = Vec::new();
        let mut class_enums: Vec<Vec<String>> = Vec::new();
        let n: usize = api.classes.len();
        let mut i: usize = 0;
        while i < n
            invariant
                i <= n,
                n == api.classes.len(),
                classes.len() == i,
                class_enums.len() == i,
                forall|k: int| 0 <= k < i ==> classes[k]@ == api.classes[k].name@,
                forall|k: int|
                    0 <= k < i ==> class_enums[k].deep_view() == nested_enum_names(api@, k),
            decreases n - i,
        {
            classes.push(api.classes[i].name.clone());
            class_enums.push(nested_enums_of(api, i));
            i = i + 1;
        }
        let mut builtins: Vec<String> = Vec::new();
        let nb: usize = api.builtin_classes.len();
        let mut b: usize = 0;
        while b < nb
            invariant
                b <= nb,
                nb == api.builtin_classes.len(),
                builtins.len() == b,
                forall|k: int| 0 <= k < b ==> builtins[k]@ == api.builtin_classes[k].name@,
            decreases nb - b,
        {
            builtins.push(api.builtin_classes[b].name.clone());
            b = b + 1;
        }
        let mut global_enums: Vec<String> = Vec::new();
        let ne: usize = api.global_enums.len();
        let mut e: usize = 0;
        while e < ne
            invariant
                e <= ne,
                ne == api.global_enums.len(),
                global_enums.len() == e,
                forall|k: int| 0 <= k < e ==> global_enums[k]@ == api.global_enums[k].name@,
            decreases ne - e,
        {
            global_enums.push(api.global_enums[e].name.clone());
            e = e + 1;
        }
        let r = NameIndex { classes, builtins, global_enums, class_enums };
        assert(r@.classes =~= class_names(api@));
        assert(r@.builtins =~= builtin_names(api@));
        assert(r@.global_enums =~= global_enum_names(api@));
        assert(r@.class_enums =~= name_tables(api@).class_enums);
        r
    }

    /// The position of the class `name`.
    pub fn find_class(&self, name: &str) -> (r: Option<usize>)
        ensures
            match r {
                Some(i) => position(self@.classes, name@) == Some(i as int) && i
                    < self.classes.len(),
                None => position(self@.classes, name@) is None,
            },
    {
        proof {
            lemma_position(self@.classes, name@);
        }
        find_name(&self.classes, name)
    }

    fn value_ident(&self, ty: &str) -> (r: Option<String>)
        ensures
            r.deep_view() == value_ident(self@, ty@),
    {
        if str_eq(ty, "bool") {
            Some("bool".to_owned())
        } else if str_eq(ty, "int") {
            Some("i64".to_owned())
        } else if str_eq(ty, "float") {
            Some("f64".to_owned())
        } else if str_eq(ty, "Variant") {
            Some("Variant".to_owned())
        } else if find_name(&self.builtins, ty).is_some() {
            Some(ty.to_owned())
        } else {
            None
        }
    }

    fn classify_array(&self, elem: &str) -> (r: Option<RustTy>)
        ensures
            r.deep_view() == classify_array(self@, elem@),
    {
        match self.value_ident(elem) {
            Some(ident) => {
                let mut tokens = Tokens::new();
                tokens.push("TypedArray");
                tokens.push("<");
                tokens.push(ident.as_str());
                tokens.push(">");
                assert(tokens@ =~= seq!["TypedArray"@, "<"@, ident@, ">"@]);
                Some(RustTy::BuiltinArray(tokens))
            },
            None => {
                if find_name(&self.classes, elem).is_some() {
                    let mut tokens = Tokens::new();
                    tokens.push("TypedArray");
                    tokens.push("<");
                    tokens.push("Gd");
                    tokens.push("<");
                    tokens.push(elem);
                    tokens.push(">");
                    tokens.push(">");
                    assert(tokens@ =~= seq![
                        "TypedArray"@,
                        "<"@,
                        "Gd"@,
                        "<"@,
                        elem@,
                        ">"@,
                        ">"@,
                    ]);
                    Some(RustTy::EngineArray { tokens, elem_class: elem.to_owned() })
                } else {
                    None
                }
            },
        }
    }

    fn classify_enum(&self, path: &str) -> (r: Option<RustTy>)
        ensures
            r.deep_view() == classify_enum(self@, path@),
    {
        match split_once(path, '.') {
            Some((class, name)) => {
                match self.find_class(class.as_str()) {
                    Some(c) => {
                        if c < self.class_enums.len() && find_name(
                            &self.class_enums[c],
                            name.as_str(),
                        ).is_some() {
                            let mut tokens = Tokens::new();
                            let module = to_snake_case(class.as_str());
                            tokens.push(module.as_str());
                            tokens.push("::");
                            tokens.push(name.as_str());
                            assert(tokens@ =~= seq![snake_case(class@), "::"@, name@]);
                            Some(RustTy::EngineEnum { tokens, surrounding_class: Some(class) })
                        } else {
                            None
                        }
                    },
                    None => None,
                }
            },
            None => {
                if find_name(&self.global_enums, path).is_some() {
                    let mut tokens = Tokens::new();
                    tokens.push("global");
                    tokens.push("::");
                    tokens.push(path);
                    assert(tokens@ =~= seq!["global"@, "::"@, path@]);
                    Some(RustTy::EngineEnum { tokens, surrounding_class: None })
                } else {
                    None
                }
            },
        }
    }

    /// Classifies the type reference `ty`.
    pub fn classify(&self, ty: &str) -> (r: Option<RustTy>)
        ensures
            r.deep_view() == classify(self@, ty@),
    {
        match strip_prefix(ty, "typedarray::") {
            Some(elem) => self.classify_array(elem.as_str()),
            None => match strip_prefix(ty, "enum::") {
                Some(path) => self.classify_enum(path.as_str()),
                None => match self.value_ident(ty) {
                    Some(ident) => Some(RustTy::BuiltinIdent(ident)),
                    None => {
                        if find_name(&self.classes, ty).is_some() {
                            let mut tokens = Tokens::new();
                            tokens.push("Gd");
                            tokens.push("<");
                            tokens.push(ty);
                            tokens.push(">");
                            assert(tokens@ =~= seq!["Gd"@, "<"@, ty@, ">"@]);
                            Some(RustTy::EngineClass(tokens))
                        } else {
                            None
                        }
                    },
                },
            },
        }
    }
}

} // verus!
