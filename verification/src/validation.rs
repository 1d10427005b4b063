//! What a description must fulfil before anything is generated from it:
//! every name it refers to is declared, no class is its own ancestor, and
//! every builtin type has a size for the build configuration.

use vstd::prelude::*;
use crate::api_parser::{
    ApiModel, BuildConfiguration, BuiltinClassDef, BuiltinModel, ClassModel, ConstructorModel,
    ExtensionApi, MethodModel, ParamDef, ParamModel, SizeModel, UtilityModel,
};
use crate::inheritance::{acyclic, climbs_to_root, reaches_root};
use crate::names::{class_names, classify, find_name, name_tables, position, NameIndex, NameTables};

verus! {

/// The least `i` with `from <= i < n` for which `p` holds.
pub open spec fn first_from(n: int, p: spec_fn(int) -> bool, from: int) -> Option<int>
    decreases n - from,
{
    if from < 0 || from >= n {
        None
    } else if p(from) {
        Some(from)
    } else {
        first_from(n, p, from + 1)
    }
}

/// The type references of one signature: the parameter types in order,
/// then the return type.
pub open spec fn signature_refs(params: Seq<ParamModel>, ret: Option<Seq<char>>) -> Seq<
    Seq<char>,
> {
    Seq::new(params.len(), |k: int| params[k].ty) + match ret {
        Some(r) => seq![r],
        None => Seq::empty(),
    }
}

/// The type references of the first `upto` methods.
pub open spec fn methods_refs(methods: Seq<MethodModel>, upto: nat) -> Seq<Seq<char>>
    decreases upto,
{
    if upto == 0 {
        Seq::empty()
    } else {
        methods_refs(methods, (upto - 1) as nat) + signature_refs(
            methods[upto - 1].params,
            methods[upto - 1].return_type,
        )
    }
}

/// The type references of the methods of the first `upto` classes.
pub open spec fn classes_refs(classes: Seq<ClassModel>, upto: nat) -> Seq<Seq<char>>
    decreases upto,
{
    if upto == 0 {
        Seq::empty()
    } else {
        classes_refs(classes, (upto - 1) as nat) + methods_refs(
            classes[upto - 1].methods,
            classes[upto - 1].methods.len(),
        )
    }
}

/// The type references of the first `upto` utility functions.
pub open spec fn utilities_refs(utilities: Seq<UtilityModel>, upto: nat) -> Seq<Seq<char>>
    decreases upto,
{
    if upto == 0 {
        Seq::empty()
    } else {
        utilities_refs(utilities, (upto - 1) as nat) + signature_refs(
            utilities[upto - 1].params,
            utilities[upto - 1].return_type,
        )
    }
}

/// The type references of the first `upto` constructors.
pub open spec fn constructors_refs(constructors: Seq<ConstructorModel>, upto: nat) -> Seq<
    Seq<char>,
>
    decreases upto,
{
    if upto == 0 {
        Seq::empty()
    } else {
        constructors_refs(constructors, (upto - 1) as nat) + signature_refs(
            constructors[upto - 1].params,
            None,
        )
    }
}

/// The type references of one builtin type: those of its constructors, then
/// the type that indexing returns.
pub open spec fn builtin_refs(b: BuiltinModel) -> Seq<Seq<char>> {
    constructors_refs(b.constructors, b.constructors.len()) + match b.indexing_return_type {
        Some(r) => seq![r],
        None => Seq::empty(),
    }
}

/// The type references of the first `upto` builtin types.
pub open spec fn builtins_refs(builtins: Seq<BuiltinModel>, upto: nat) -> Seq<Seq<char>>
    decreases upto,
{
    if upto == 0 {
        Seq::empty()
    } else {
        builtins_refs(builtins, (upto - 1) as nat) + builtin_refs(builtins[upto - 1])
    }
}

/// Every type reference of the description, in the order in which it is
/// read: the methods of the classes, the utility functions, the builtin
/// types.
pub open spec fn type_refs(api: ApiModel) -> Seq<Seq<char>> {
    classes_refs(api.classes, api.classes.len()) + utilities_refs(
        api.utility_functions,
        api.utility_functions.len(),
    ) + builtins_refs(api.builtin_classes, api.builtin_classes.len())
}

/// Holds of the classes whose parent is named but not declared.
pub open spec fn parent_missing(api: ApiModel) -> spec_fn(int) -> bool {
    |c: int|
        api.classes[c].parent is Some && position(
            class_names(api),
            api.classes[c].parent->Some_0,
        ) is None
}

/// Holds of the classes from which no root is reached.
pub open spec fn on_cycle(api: ApiModel) -> spec_fn(int) -> bool {
    |c: int| !climbs_to_root(api, c, api.classes.len())
}

/// Holds of the positions of `refs` whose reference names nothing.
pub open spec fn names_nothing(t: NameTables, refs: Seq<Seq<char>>) -> spec_fn(int) -> bool {
    |i: int| classify(t, refs[i]) is None
}

/// The size of a builtin type under `config`: that of the first entry for
/// it, starting at `from`.
pub open spec fn size_from(sizes: Seq<SizeModel>, config: BuildConfiguration, from: int) -> Option<
    u64,
>
    decreases sizes.len() - from,
{
    if from < 0 || from >= sizes.len() {
        None
    } else if sizes[from].config == config {
        Some(sizes[from].size)
    } else {
        size_from(sizes, config, from + 1)
    }
}

/// The size of the builtin type `b` under `config`.
pub open spec fn size_for(b: BuiltinModel, config: BuildConfiguration) -> Option<u64> {
    size_from(b.sizes, config, 0)
}

/// Holds of the builtin types without a size for `config`.
pub open spec fn size_missing(api: ApiModel, config: BuildConfiguration) -> spec_fn(int) -> bool {
    |b: int| size_for(api.builtin_classes[b], config) is None
}

/// Whether every class that names a parent names a declared class.
pub open spec fn parents_declared(api: ApiModel) -> bool {
    forall|c: int|
        0 <= c < api.classes.len() && (#[trigger] api.classes[c]).parent is Some ==> position(
            class_names(api),
            api.classes[c].parent->Some_0,
        ) is Some
}

/// Whether every type reference of the description names something.
pub open spec fn types_declared(api: ApiModel) -> bool {
    forall|i: int|
        0 <= i < type_refs(api).len() ==> classify(name_tables(api), #[trigger] type_refs(api)[i])
            is Some
}

/// Whether every reference of the description is declared in it and no
/// class is its own ancestor.
pub open spec fn consistent(api: ApiModel) -> bool {
    &&& parents_declared(api)
    &&& acyclic(api)
    &&& types_declared(api)
}

/// Whether every builtin type has a size for `config`.
pub open spec fn sizes_declared(api: ApiModel, config: BuildConfiguration) -> bool {
    forall|b: int|
        0 <= b < api.builtin_classes.len() ==> size_for(#[trigger] api.builtin_classes[b], config)
            is Some
}

proof fn lemma_parent_missing(api: ApiModel, from: int)
    requires
        0 <= from,
    ensures
        first_from(api.classes.len() as int, parent_missing(api), from) is None <==> forall|
            c: int,
        |
            from <= c < api.classes.len() && (#[trigger] api.classes[c]).parent is Some
                ==> position(class_names(api), api.classes[c].parent->Some_0) is Some,
    decreases api.classes.len() - from,
{
    if from < api.classes.len() {
        lemma_parent_missing(api, from + 1);
        if parent_missing(api)(from) {
            assert(api.classes[from].parent is Some);
        }
    }
}

proof fn lemma_on_cycle(api: ApiModel, from: int)
    requires
        0 <= from,
    ensures
        first_from(api.classes.len() as int, on_cycle(api), from) is None <==> forall|c: int|
            from <= c < api.classes.len() ==> climbs_to_root(api, c, api.classes.len()),
    decreases api.classes.len() - from,
{
    if from < api.classes.len() {
        lemma_on_cycle(api, from + 1);
    }
}

proof fn lemma_names_nothing(t: NameTables, refs: Seq<Seq<char>>, from: int)
    requires
        0 <= from,
    ensures
        first_from(refs.len() as int, names_nothing(t, refs), from) is None <==> forall|i: int|
            from <= i < refs.len() ==> classify(t, #[trigger] refs[i]) is Some,
    decreases refs.len() - from,
{
    if from < refs.len() {
        lemma_names_nothing(t, refs, from + 1);
        if names_nothing(t, refs)(from) {
            assert(classify(t, refs[from]) is None);
        }
    }
}

proof fn lemma_size_missing(api: ApiModel, config: BuildConfiguration, from: int)
    requires
        0 <= from,
    ensures
        first_from(api.builtin_classes.len() as int, size_missing(api, config), from) is None
            <==> forall|b: int|
            from <= b < api.builtin_classes.len() ==> size_for(
                #[trigger] api.builtin_classes[b],
                config,
            ) is Some,
    decreases api.builtin_classes.len() - from,
{
    if from < api.builtin_classes.len() {
        lemma_size_missing(api, config, from + 1);
        if size_missing(api, config)(from) {
            assert(size_for(api.builtin_classes[from], config) is None);
        }
    }
}

/// A description has no violation just where it is consistent and every
/// builtin type has a size for `config`.
pub proof fn lemma_model_fault(api: ApiModel, config: BuildConfiguration)
    ensures
        model_fault(api, config) is None <==> consistent(api) && sizes_declared(api, config),
{
    lemma_parent_missing(api, 0);
    lemma_on_cycle(api, 0);
    lemma_names_nothing(name_tables(api), type_refs(api), 0);
    lemma_size_missing(api, config, 0);
}

/// A violated condition, with the name that violates it.
pub enum ModelFault {
    CyclicInheritance(Seq<char>),
    UnresolvedType(Seq<char>),
    MissingSize(Seq<char>),
}

/// The first violation of a description, if it has one. The conditions
/// are tried in this order: a parent that is not declared, a class that is its
/// own ancestor, a type reference that names nothing, a builtin type without
/// a size for `config`; each in the order of the description.
pub open spec fn model_fault(api: ApiModel, config: BuildConfiguration) -> Option<ModelFault> {
    let refs = type_refs(api);
    match first_from(api.classes.len() as int, parent_missing(api), 0) {
        Some(c) => Some(ModelFault::UnresolvedType(api.classes[c].parent->Some_0)),
        None => match first_from(api.classes.len() as int, on_cycle(api), 0) {
            Some(c) => Some(ModelFault::CyclicInheritance(api.classes[c].name)),
            None => match first_from(
                refs.len() as int,
                names_nothing(name_tables(api), refs),
                0,
            ) {
                Some(i) => Some(ModelFault::UnresolvedType(refs[i])),
                None => match first_from(
                    api.builtin_classes.len() as int,
                    size_missing(api, config),
                    0,
                ) {
                    Some(b) => Some(ModelFault::MissingSize(api.builtin_classes[b].name)),
                    None => None,
                },
            },
        },
    }
}

/// A violation of the model: fatal, reported with the offending name.
#[derive(Clone, Debug, PartialEq, Eq)]
pub enum ModelConsistencyError {
    CyclicInheritance(String),
    UnresolvedType(String),
    MissingSize(String),
}

impl DeepView for ModelConsistencyError {
    type V = ModelFault;

    open spec fn deep_view(&self) -> ModelFault {
        match *self {
            ModelConsistencyError::CyclicInheritance(name) => ModelFault::CyclicInheritance(name@),
            ModelConsistencyError::UnresolvedType(name) => ModelFault::UnresolvedType(name@),
            ModelConsistencyError::MissingSize(name) => ModelFault::MissingSize(name@),
        }
    }
}

fn append_signature_refs(out: &mut Vec<String>, params: &Vec<ParamDef>, ret: &Option<String>)
    ensures
        final(out).deep_view() == old(out).deep_view() + signature_refs(
            params.deep_view(),
            ret.deep_view(),
        ),
{
    let n: usize = params.len();
    let mut k: usize = 0;
    let ghost types = Seq::new(params.deep_view().len(), |k: int| params.deep_view()[k].ty);
    while k < n
        invariant
            k <= n,
            n == params.len(),
            types == Seq::new(params.deep_view().len(), |k: int| params.deep_view()[k].ty),
            out.deep_view() == old(out).deep_view() + types.subrange(0, k as int),
        decreases n - k,
    {
        let ghost before = out.deep_view();
        out.push(params[k].ty.clone());
        assert(types[k as int] == params[k as int].ty@);
        assert(out.deep_view() =~= before.push(types[k as int]));
        assert(types.subrange(0, k as int + 1) =~= types.subrange(0, k as int).push(
            types[k as int],
        ));
        k = k + 1;
    }
    assert(types.subrange(0, n as int) =~= types);
    match ret {
        Some(r) => {
            let ghost before = out.deep_view();
            out.push(r.clone());
            assert(out.deep_view() =~= before.push(r@));
            assert(out.deep_view() =~= old(out).deep_view() + signature_refs(
                params.deep_view(),
                ret.deep_view(),
            ));
        },
        None => {
            assert(out.deep_view() =~= old(out).deep_view() + signature_refs(
                params.deep_view(),
                ret.deep_view(),
            ));
        },
    }
}

fn append_builtin_refs(out: &mut Vec<String>, b: &BuiltinClassDef)
    ensures
        final(out).deep_view() == old(out).deep_view() + builtin_refs(b.deep_view()),
{
    let n: usize = b.constructors.len();
    let mut k: usize = 0;
    assert(out.deep_view() =~= old(out).deep_view() + constructors_refs(
        b.deep_view().constructors,
        0,
    ));
    while k < n
        invariant
            k <= n,
            n == b.constructors.len(),
            out.deep_view() == old(out).deep_view() + constructors_refs(
                b.deep_view().constructors,
                k as nat,
            ),
        decreases n - k,
    {
        let ghost before = out.deep_view();
        let none: Option<String> = None;
        assert(b.deep_view().constructors[k as int] == b.constructors[k as int].deep_view());
        append_signature_refs(out, &b.constructors[k].params, &none);
        assert(out.deep_view() =~= old(out).deep_view() + constructors_refs(
            b.deep_view().constructors,
            (k + 1) as nat,
        ));
        k = k + 1;
    }
    match &b.indexing_return_type {
        Some(r) => {
            let ghost before = out.deep_view();
            out.push(r.clone());
            assert(out.deep_view() =~= before.push(r@));
            assert(out.deep_view() =~= old(out).deep_view() + builtin_refs(b.deep_view()));
        },
        None => {
            assert(out.deep_view() =~= old(out).deep_view() + builtin_refs(b.deep_view()));
        },
    }
}

/// Collects every type reference of the description.
pub fn collect_type_refs(api: &ExtensionApi) -> (r: Vec<String>)
    ensures
        r.deep_view() == type_refs(api@),
{
    let mut out: Vec<String> = Vec::new();
    let nc: usize = api.classes.len();
    let mut c: usize = 0;
    assert(out.deep_view() =~= classes_refs(api@.classes, 0));
    while c < nc
        invariant
            c <= nc,
            nc == api.classes.len(),
            out.deep_view() == classes_refs(api@.classes, c as nat),
        decreases nc - c,
    {
        let class = &api.classes[c];
        assert(api@.classes[c as int] == class.deep_view());
        let nm: usize = class.methods.len();
        let mut j: usize = 0;
        let ghost start = out.deep_view();
        assert(out.deep_view() =~= start + methods_refs(class.deep_view().methods, 0));
        while j < nm
            invariant
                j <= nm,
                nm == class.methods.len(),
                out.deep_view() == start + methods_refs(class.deep_view().methods, j as nat),
            decreases nm - j,
        {
            let m = &class.methods[j];
            assert(class.deep_view().methods[j as int] == m.deep_view());
            append_signature_refs(&mut out, &m.params, &m.return_type);
            assert(out.deep_view() =~= start + methods_refs(
                class.deep_view().methods,
                (j + 1) as nat,
            ));
            j = j + 1;
        }
        c = c + 1;
    }
    let ghost from_classes = out.deep_view();
    let nu: usize = api.utility_functions.len();
    let mut u: usize = 0;
    assert(out.deep_view() =~= from_classes + utilities_refs(api@.utility_functions, 0));
    while u < nu
        invariant
            u <= nu,
            nu == api.utility_functions.len(),
            out.deep_view() == from_classes + utilities_refs(api@.utility_functions, u as nat),
        decreases nu - u,
    {
        let f = &api.utility_functions[u];
        assert(api@.utility_functions[u as int] == f.deep_view());
        append_signature_refs(&mut out, &f.params, &f.return_type);
        assert(out.deep_view() =~= from_classes + utilities_refs(
            api@.utility_functions,
            (u + 1) as nat,
        ));
        u = u + 1;
    }
    let ghost from_utilities = out.deep_view();
    let nb: usize = api.builtin_classes.len();
    let mut b: usize = 0;
    assert(out.deep_view() =~= from_utilities + builtins_refs(api@.builtin_classes, 0));
    while b < nb
        invariant
            b <= nb,
            nb == api.builtin_classes.len(),
            out.deep_view() == from_utilities + builtins_refs(api@.builtin_classes, b as nat),
        decreases nb - b,
    {
        assert(api@.builtin_classes[b as int] == api.builtin_classes[b as int].deep_view());
        append_builtin_refs(&mut out, &api.builtin_classes[b]);
        assert(out.deep_view() =~= from_utilities + builtins_refs(
            api@.builtin_classes,
            (b + 1) as nat,
        ));
        b = b + 1;
    }
    out
}

/// Looks up the size of a builtin type under `config`.
pub fn lookup_size(b: &BuiltinClassDef, config: BuildConfiguration) -> (r: Option<u64>)
    ensures
        r == size_for(b.deep_view(), config),
{
    let n: usize = b.sizes.len();
    let mut i: usize = 0;
    while i < n
        invariant
            i <= n,
            n == b.sizes.len(),
            size_for(b.deep_view(), config) == size_from(b.deep_view().sizes, config, i as int),
        decreases n - i,
    {
        assert(b.deep_view().sizes[i as int] == b.sizes[i as int].deep_view());
        if b.sizes[i].config == config {
            return Some(b.sizes[i].size);
        }
        i = i + 1;
    }
    None
}

fn find_missing_parent<'a>(api: &'a ExtensionApi, names: &NameIndex) -> (r: Option<&'a String>)
    requires
        names@ == name_tables(api@),
    ensures
        match r {
            Some(p) => first_from(
                api@.classes.len() as int,
                parent_missing(api@),
                0,
            ) matches Some(c) && api@.classes[c].parent == Some(p@),
            None => first_from(api@.classes.len() as int, parent_missing(api@), 0) is None,
        },
{
    let n: usize = api.classes.len();
    let mut c: usize = 0;
    while c < n
        invariant
            c <= n,
            n == api.classes.len(),
            names@ == name_tables(api@),
            first_from(n as int, parent_missing(api@), 0) == first_from(
                n as int,
                parent_missing(api@),
                c as int,
            ),
        decreases n - c,
    {
        assert(api@.classes[c as int] == api.classes[c as int].deep_view());
        match &api.classes[c].parent {
            Some(p) => {
                if find_name(&names.classes, p.as_str()).is_none() {
                    return Some(p);
                }
            },
            None => {},
        }
        c = c + 1;
    }
    None
}

fn find_cycle(api: &ExtensionApi, names: &NameIndex) -> (r: Option<usize>)
    requires
        names@ == name_tables(api@),
    ensures
        match r {
            Some(c) => first_from(api@.classes.len() as int, on_cycle(api@), 0) == Some(c as int)
                && c < api.classes.len(),
            None => first_from(api@.classes.len() as int, on_cycle(api@), 0) is None,
        },
{
    let n: usize = api.classes.len();
    let mut c: usize = 0;
    while c < n
        invariant
            c <= n,
            n == api.classes.len(),
            names@ == name_tables(api@),
            first_from(n as int, on_cycle(api@), 0) == first_from(
                n as int,
                on_cycle(api@),
                c as int,
            ),
        decreases n - c,
    {
        if !reaches_root(api, names, c, n) {
            return Some(c);
        }
        c = c + 1;
    }
    None
}

fn find_unresolved(names: &NameIndex, refs: &Vec<String>) -> (r: Option<usize>)
    ensures
        match r {
            Some(i) => first_from(
                refs.deep_view().len() as int,
                names_nothing(names@, refs.deep_view()),
                0,
            ) == Some(i as int) && i < refs.len(),
            None => first_from(
                refs.deep_view().len() as int,
                names_nothing(names@, refs.deep_view()),
                0,
            ) is None,
        },
{
    let n: usize = refs.len();
    let mut i: usize = 0;
    while i < n
        invariant
            i <= n,
            n == refs.len(),
            first_from(n as int, names_nothing(names@, refs.deep_view()), 0) == first_from(
                n as int,
                names_nothing(names@, refs.deep_view()),
                i as int,
            ),
        decreases n - i,
    {
        assert(refs.deep_view()[i as int] == refs[i as int]@);
        if names.classify(refs[i].as_str()).is_none() {
            return Some(i);
        }
        i = i + 1;
    }
    None
}

fn find_missing_size(api: &ExtensionApi, config: BuildConfiguration) -> (r: Option<usize>)
    ensures
        match r {
            Some(b) => first_from(
                api@.builtin_classes.len() as int,
                size_missing(api@, config),
                0,
            ) == Some(b as int) && b < api.builtin_classes.len(),
            None => first_from(
                api@.builtin_classes.len() as int,
                size_missing(api@, config),
                0,
            ) is None,
        },
{
    let n: usize = api.builtin_classes.len();
    let mut b: usize = 0;
    while b < n
        invariant
            b <= n,
            n == api.builtin_classes.len(),
            first_from(n as int, size_missing(api@, config), 0) == first_from(
                n as int,
                size_missing(api@, config),
                b as int,
            ),
        decreases n - b,
    {
        assert(api@.builtin_classes[b as int] == api.builtin_classes[b as int].deep_view());
        if lookup_size(&api.builtin_classes[b], config).is_none() {
            return Some(b);
        }
        b = b + 1;
    }
    None
}

/// Checks a description, and reports its first violation.
pub fn check_model(api: &ExtensionApi, config: BuildConfiguration) -> (r: Result<
    (),
    ModelConsistencyError,
>)
    ensures
        match r {
            Ok(_) => model_fault(api@, config) is None,
            Err(e) => model_fault(api@, config) == Some(e.deep_view()),
        },
        r is Ok <==> consistent(api@) && sizes_declared(api@, config),
{
    proof {
        lemma_model_fault(api@, config);
    }
    let names = NameIndex::build(api);
    match find_missing_parent(api, &names) {
        Some(p) => {
            return Err(ModelConsistencyError::UnresolvedType(p.clone()));
        },
        None => {},
    }
    match find_cycle(api, &names) {
        Some(c) => {
            assert(api@.classes[c as int] == api.classes[c as int].deep_view());
            return Err(ModelConsistencyError::CyclicInheritance(api.classes[c].name.clone()));
        },
        None => {},
    }
    let refs = collect_type_refs(api);
    match find_unresolved(&names, &refs) {
        Some(i) => {
            assert(refs.deep_view()[i as int] == refs[i as int]@);
            return Err(ModelConsistencyError::UnresolvedType(refs[i].clone()));
        },
        None => {},
    }
    match find_missing_size(api, config) {
        Some(b) => {
            assert(api@.builtin_classes[b as int] == api.builtin_classes[b as int].deep_view());
            Err(ModelConsistencyError::MissingSize(api.builtin_classes[b].name.clone()))
        },
        None => Ok(()),
    }
}

} // verus!
