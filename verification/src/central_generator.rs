//! The central generator: the table of the engine's entry points, the
//! layout records of the builtin types, and the index files.

use vstd::prelude::*;
use crate::api_parser::{
    ApiModel, BuildConfiguration, BuiltinClassDef, BuiltinModel, ExtensionApi,
};
use crate::context::{default_constructible, lemma_default_constructible, Context};
use crate::inheritance::ints;
use crate::util::{
    decimal, decimal_string, emit, snake_case, to_snake_case, FileModel, GeneratedFile, Tokens,
};
use crate::validation::{lookup_size, size_for, sizes_declared};
use crate::wrappers::{quote_text, quoted};

verus! {

/// The layout of one builtin type under the build configuration.
#[derive(Clone, Debug, PartialEq, Eq)]
pub struct BuiltinRecord {
    /// The position of the type in the description.
    pub builtin: usize,
    pub name: String,
    /// The byte size under the build configuration.
    pub size: u64,
    pub constructors: usize,
    pub has_destructor: bool,
}

/// What a [`BuiltinRecord`] holds, as a mathematical value.
pub struct RecordModel {
    pub builtin: int,
    pub name: Seq<char>,
    pub size: u64,
    pub constructors: nat,
    pub has_destructor: bool,
}

impl DeepView for BuiltinRecord {
    type V = RecordModel;

    open spec fn deep_view(&self) -> RecordModel {
        RecordModel {
            builtin: self.builtin as int,
            name: self.name@,
            size: self.size,
            constructors: self.constructors as nat,
            has_destructor: self.has_destructor,
        }
    }
}

/// The record of the builtin type `b`: its size is the one that the
/// description gives for `config`. A type without such a size has no record.
pub open spec fn record_of(api: ApiModel, config: BuildConfiguration, b: int) -> Option<
    RecordModel,
> {
    let def = api.builtin_classes[b];
    match size_for(def, config) {
        Some(size) => Some(
            RecordModel {
                builtin: b,
                name: def.name,
                size,
                constructors: def.constructors.len(),
                has_destructor: def.has_destructor,
            },
        ),
        None => None,
    }
}

/// The records of the first `upto` builtin types.
pub open spec fn records(api: ApiModel, config: BuildConfiguration, upto: nat) -> Seq<RecordModel>
    decreases upto,
{
    if upto == 0 {
        Seq::empty()
    } else {
        match record_of(api, config, upto - 1) {
            Some(r) => records(api, config, (upto - 1) as nat).push(r),
            None => records(api, config, (upto - 1) as nat),
        }
    }
}

/// The names of those among the first `upto` builtin types that have no
/// size for `config`, and for which nothing is generated.
pub open spec fn unsized_builtins(api: ApiModel, config: BuildConfiguration, upto: nat) -> Seq<
    Seq<char>,
>
    decreases upto,
{
    if upto == 0 {
        Seq::empty()
    } else if size_for(api.builtin_classes[upto - 1], config) is None {
        unsized_builtins(api, config, (upto - 1) as nat).push(api.builtin_classes[upto - 1].name)
    } else {
        unsized_builtins(api, config, (upto - 1) as nat)
    }
}

/// Every record is the record of a builtin type of the description, and
/// its size is the one that the description gives for `config`, whatever
/// sizes it gives for other configurations. The records come in the order of
/// the description.
pub proof fn law_records_hold_the_configured_size(
    api: ApiModel,
    config: BuildConfiguration,
    upto: nat,
)
    ensures
        forall|i: int|
            0 <= i < records(api, config, upto).len() ==> {
                let r = #[trigger] records(api, config, upto)[i];
                &&& 0 <= r.builtin < upto
                &&& r.name == api.builtin_classes[r.builtin].name
                &&& size_for(api.builtin_classes[r.builtin], config) == Some(r.size)
            },
        forall|i: int, j: int|
            0 <= i < j < records(api, config, upto).len() ==> records(api, config, upto)[i].builtin
                < records(api, config, upto)[j].builtin,
    decreases upto,
{
    if upto > 0 {
        law_records_hold_the_configured_size(api, config, (upto - 1) as nat);
    }
}

/// Where every builtin type has a size for `config`, every builtin type
/// has its record, at its own position.
pub proof fn law_every_sized_builtin_has_a_record(
    api: ApiModel,
    config: BuildConfiguration,
    upto: nat,
)
    requires
        upto <= api.builtin_classes.len(),
        sizes_declared(api, config),
    ensures
        records(api, config, upto).len() == upto,
        forall|b: int| 0 <= b < upto ==> (#[trigger] records(api, config, upto)[b]).builtin == b,
        unsized_builtins(api, config, upto).len() == 0,
    decreases upto,
{
    if upto > 0 {
        law_every_sized_builtin_has_a_record(api, config, (upto - 1) as nat);
        assert(size_for(api.builtin_classes[upto - 1], config) is Some);
    }
}

/// How a truth value is written.
pub open spec fn bool_text(b: bool) -> Seq<char> {
    if b {
        "true"@
    } else {
        "false"@
    }
}

/// The layout record of one builtin type, as an element of the table.
pub open spec fn layout_tokens(r: RecordModel) -> Seq<Seq<char>> {
    seq![
        "BuiltinLayout"@,
        "{"@,
        "name"@,
        ":"@,
        quoted(r.name),
        ","@,
        "size"@,
        ":"@,
        decimal(r.size as nat),
        ","@,
        "constructors"@,
        ":"@,
        decimal(r.constructors),
        ","@,
        "has_destructor"@,
        ":"@,
        bool_text(r.has_destructor),
        ","@,
        "}"@,
        ","@,
    ]
}

/// The layout records of the first `upto` records, as elements of the table.
pub open spec fn layouts_tokens(rs: Seq<RecordModel>, upto: nat) -> Seq<Seq<char>>
    decreases upto,
{
    if upto == 0 {
        Seq::empty()
    } else {
        layouts_tokens(rs, (upto - 1) as nat) + layout_tokens(rs[upto - 1])
    }
}

/// The table fields for the first `upto` constructors of `b`.
pub open spec fn constructor_fields(b: BuiltinModel, upto: nat) -> Seq<Seq<char>>
    decreases upto,
{
    if upto == 0 {
        Seq::empty()
    } else {
        constructor_fields(b, (upto - 1) as nat) + seq![
            snake_case(b.name) + "_construct_"@ + decimal(b.constructors[upto - 1].index as nat),
            ":"@,
            "BuiltinConstructor"@,
            ","@,
        ]
    }
}

/// The table fields for the entry points of one builtin type: its
/// constructors and, where it has one, its destructor.
pub open spec fn builtin_fields(b: BuiltinModel) -> Seq<Seq<char>> {
    constructor_fields(b, b.constructors.len()) + if b.has_destructor {
        seq![snake_case(b.name) + "_destroy"@, ":"@, "BuiltinDestructor"@, ","@]
    } else {
        Seq::empty()
    }
}

/// The table fields for those among the first `upto` builtin types that
/// have a size for `config`.
pub open spec fn builtins_fields(api: ApiModel, config: BuildConfiguration, upto: nat) -> Seq<
    Seq<char>,
>
    decreases upto,
{
    if upto == 0 {
        Seq::empty()
    } else if size_for(api.builtin_classes[upto - 1], config) is Some {
        builtins_fields(api, config, (upto - 1) as nat) + builtin_fields(
            api.builtin_classes[upto - 1],
        )
    } else {
        builtins_fields(api, config, (upto - 1) as nat)
    }
}

/// The table fields for the first `upto` utility functions.
pub open spec fn utility_fields(api: ApiModel, upto: nat) -> Seq<Seq<char>>
    decreases upto,
{
    if upto == 0 {
        Seq::empty()
    } else {
        utility_fields(api, (upto - 1) as nat) + seq![
            "utility_"@ + api.utility_functions[upto - 1].name,
            ":"@,
            "UtilityFunction"@,
            ","@,
        ]
    }
}

/// The table of function pointers, with one field for each entry point
/// that the description names.
pub open spec fn table_tokens(api: ApiModel, config: BuildConfiguration) -> Seq<Seq<char>> {
    seq!["pub"@, "struct"@, "GlobalMethodTable"@, "{"@] + builtins_fields(
        api,
        config,
        api.builtin_classes.len(),
    ) + utility_fields(api, api.utility_functions.len()) + seq!["}"@]
}

/// The table of the layouts of the builtin types under `config`.
pub open spec fn layout_table_tokens(api: ApiModel, config: BuildConfiguration) -> Seq<Seq<char>> {
    let rs = records(api, config, api.builtin_classes.len());
    seq![
        "pub"@,
        "const"@,
        "BUILTIN_LAYOUTS"@,
        ":"@,
        "&"@,
        "["@,
        "BuiltinLayout"@,
        "]"@,
        "="@,
        "&"@,
        "["@,
    ] + layouts_tokens(rs, rs.len()) + seq!["]"@, ";"@]
}

/// The central file of the low-level root.
pub open spec fn sys_central_file(api: ApiModel, config: BuildConfiguration) -> FileModel {
    FileModel {
        path: "central.rs"@,
        tokens: table_tokens(api, config) + layout_table_tokens(api, config),
    }
}

/// The enumerators of the builtin types, one for each of the first `upto`
/// records.
pub open spec fn variant_tokens(rs: Seq<RecordModel>, upto: nat) -> Seq<Seq<char>>
    decreases upto,
{
    if upto == 0 {
        Seq::empty()
    } else {
        variant_tokens(rs, (upto - 1) as nat) + seq![rs[upto - 1].name, ","@]
    }
}

/// For those of the first `upto` builtin types of `constructible` that
/// have a size for `config`, the declaration of the default value.
pub open spec fn default_tokens(
    api: ApiModel,
    config: BuildConfiguration,
    constructible: Seq<int>,
    upto: nat,
) -> Seq<Seq<char>>
    decreases upto,
{
    if upto == 0 {
        Seq::empty()
    } else if size_for(api.builtin_classes[constructible[upto - 1]], config) is Some {
        default_tokens(api, config, constructible, (upto - 1) as nat) + seq![
            "impl_builtin_default"@,
            "!"@,
            "("@,
            api.builtin_classes[constructible[upto - 1]].name,
            ")"@,
            ";"@,
        ]
    } else {
        default_tokens(api, config, constructible, (upto - 1) as nat)
    }
}

/// The central file of the high-level root: the enumeration of the
/// builtin types, and the default values of those that can be constructed
/// without arguments.
pub open spec fn core_central_file(api: ApiModel, config: BuildConfiguration) -> FileModel {
    let rs = records(api, config, api.builtin_classes.len());
    let constructible = default_constructible(api, api.builtin_classes.len());
    FileModel {
        path: "central.rs"@,
        tokens: seq!["pub"@, "enum"@, "VariantType"@, "{"@] + variant_tokens(rs, rs.len()) + seq![
            "}"@,
        ] + default_tokens(api, config, constructible, constructible.len()),
    }
}

/// The index file of the low-level root.
pub open spec fn sys_mod_file(stubs_only: bool) -> FileModel {
    FileModel {
        path: "mod.rs"@,
        tokens: if stubs_only {
            seq!["pub"@, "mod"@, "central_stubs"@, ";"@]
        } else {
            seq!["pub"@, "mod"@, "central"@, ";"@]
        },
    }
}

/// The index file of the high-level root.
pub open spec fn core_mod_file(stubs_only: bool) -> FileModel {
    FileModel {
        path: "mod.rs"@,
        tokens: if stubs_only {
            seq![
                "pub"@,
                "mod"@,
                "central_stubs"@,
                ";"@,
                "pub"@,
                "mod"@,
                "classes_stubs"@,
                ";"@,
                "pub"@,
                "mod"@,
                "utilities_stubs"@,
                ";"@,
            ]
        } else {
            seq![
                "pub"@,
                "mod"@,
                "central"@,
                ";"@,
                "pub"@,
                "mod"@,
                "classes"@,
                ";"@,
                "pub"@,
                "mod"@,
                "utilities"@,
                ";"@,
            ]
        },
    }
}

/// Computes the layout records of the builtin types under `config`.
pub fn builtin_records(api: &ExtensionApi, config: BuildConfiguration) -> (r: Vec<BuiltinRecord>)
    ensures
        r.deep_view() == records(api@, config, api@.builtin_classes.len()),
{
    let mut out: Vec<BuiltinRecord> = Vec::new();
    let n: usize = api.builtin_classes.len();
    let mut b: usize = 0;
    assert(out.deep_view() =~= records(api@, config, 0));
    while b < n
        invariant
            b <= n,
            n == api.builtin_classes.len(),
            out.deep_view() == records(api@, config, b as nat),
        decreases n - b,
    {
        let def = &api.builtin_classes[b];
        assert(api@.builtin_classes[b as int] == def.deep_view());
        match lookup_size(def, config) {
            Some(size) => {
                let record = BuiltinRecord {
                    builtin: b,
                    name: def.name.clone(),
                    size,
                    constructors: def.constructors.len(),
                    has_destructor: def.has_destructor,
                };
                let ghost before = out.deep_view();
                out.push(record);
                assert(out.deep_view() =~= before.push(record.deep_view()));
            },
            None => {},
        }
        b = b + 1;
    }
    out
}

/// Names the builtin types that have no size for `config`. Nothing is
/// generated for them; the caller reports them.
pub fn builtins_without_size(api: &ExtensionApi, config: BuildConfiguration) -> (r: Vec<String>)
    ensures
        r.deep_view() == unsized_builtins(api@, config, api@.builtin_classes.len()),
{
    let mut out: Vec<String> = Vec::new();
    let n: usize = api.builtin_classes.len();
    let mut b: usize = 0;
    assert(out.deep_view() =~= unsized_builtins(api@, config, 0));
    while b < n
        invariant
            b <= n,
            n == api.builtin_classes.len(),
            out.deep_view() == unsized_builtins(api@, config, b as nat),
        decreases n - b,
    {
        let def = &api.builtin_classes[b];
        assert(api@.builtin_classes[b as int] == def.deep_view());
        if lookup_size(def, config).is_none() {
            let ghost before = out.deep_view();
            out.push(def.name.clone());
            assert(out.deep_view() =~= before.push(def.name@));
        }
        b = b + 1;
    }
    out
}

fn push_bool(b: bool, out: &mut Tokens)
    ensures
        final(out)@ == old(out)@.push(bool_text(b)),
{
    if b {
        out.push("true");
    } else {
        out.push("false");
    }
}

fn push_layout(r: &BuiltinRecord, out: &mut Tokens)
    ensures
        final(out)@ == old(out)@ + layout_tokens(r.deep_view()),
{
    let name = quote_text(r.name.as_str());
    let size = decimal_string(r.size);
    let count = decimal_string(r.constructors as u64);
    out.push("BuiltinLayout");
    out.push("{");
    out.push("name");
    out.push(":");
    out.push(name.as_str());
    out.push(",");
    out.push("size");
    out.push(":");
    out.push(size.as_str());
    out.push(",");
    let ghost half = out@;
    assert(half =~= old(out)@ + seq![
        "BuiltinLayout"@,
        "{"@,
        "name"@,
        ":"@,
        quoted(r.name@),
        ","@,
        "size"@,
        ":"@,
        decimal(r.size as nat),
        ","@,
    ]);
    out.push("constructors");
    out.push(":");
    out.push(count.as_str());
    out.push(",");
    out.push("has_destructor");
    out.push(":");
    push_bool(r.has_destructor, out);
    out.push(",");
    out.push("}");
    out.push(",");
    assert(out@ =~= half + seq![
        "constructors"@,
        ":"@,
        decimal(r.constructors as nat),
        ","@,
        "has_destructor"@,
        ":"@,
        bool_text(r.has_destructor),
        ","@,
        "}"@,
        ","@,
    ]);
    assert(out@ =~= old(out)@ + layout_tokens(r.deep_view()));
}

fn push_layout_table(rs: &Vec<BuiltinRecord>, out: &mut Tokens)
    ensures
        final(out)@ == old(out)@ + (seq![
            "pub"@,
            "const"@,
            "BUILTIN_LAYOUTS"@,
            ":"@,
            "&"@,
            "["@,
            "BuiltinLayout"@,
            "]"@,
            "="@,
            "&"@,
            "["@,
        ] + layouts_tokens(rs.deep_view(), rs.len() as nat) + seq!["]"@, ";"@]),
{
    let ghost head = seq![
        "pub"@,
        "const"@,
        "BUILTIN_LAYOUTS"@,
        ":"@,
        "&"@,
        "["@,
        "BuiltinLayout"@,
        "]"@,
        "="@,
        "&"@,
        "["@,
    ];
    out.push("pub");
    out.push("const");
    out.push("BUILTIN_LAYOUTS");
    out.push(":");
    out.push("&");
    out.push("[");
    out.push("BuiltinLayout");
    out.push("]");
    out.push("=");
    out.push("&");
    out.push("[");
    assert(out@ =~= old(out)@ + head + layouts_tokens(rs.deep_view(), 0));
    let n: usize = rs.len();
    let mut i: usize = 0;
    while i < n
        invariant
            i <= n,
            n == rs.len(),
            out@ == old(out)@ + head + layouts_tokens(rs.deep_view(), i as nat),
        decreases n - i,
    {
        assert(rs.deep_view()[i as int] == rs[i as int].deep_view());
        push_layout(&rs[i], out);
        assert(out@ =~= old(out)@ + head + layouts_tokens(rs.deep_view(), (i + 1) as nat));
        i = i + 1;
    }
    out.push("]");
    out.push(";");
    assert(out@ =~= old(out)@ + (head + layouts_tokens(rs.deep_view(), rs.len() as nat) + seq![
        "]"@,
        ";"@,
    ]));
}

fn push_builtin_fields(def: &BuiltinClassDef, out: &mut Tokens)
    ensures
        final(out)@ == old(out)@ + builtin_fields(def.deep_view()),
{
    let module = to_snake_case(def.name.as_str());
    let n: usize = def.constructors.len();
    let mut k: usize = 0;
    assert(out@ =~= old(out)@ + constructor_fields(def.deep_view(), 0));
    while k < n
        invariant
            k <= n,
            n == def.constructors.len(),
            module@ == snake_case(def.name@),
            out@ == old(out)@ + constructor_fields(def.deep_view(), k as nat),
        decreases n - k,
    {
        assert(def.deep_view().constructors[k as int] == def.constructors[k as int].deep_view());
        let mut field = module.clone();
        field.append("_construct_");
        let index = decimal_string(def.constructors[k].index);
        field.append(index.as_str());
        let ghost before = out@;
        out.push(field.as_str());
        out.push(":");
        out.push("BuiltinConstructor");
        out.push(",");
        assert(out@ =~= before + seq![field@, ":"@, "BuiltinConstructor"@, ","@]);
        assert(out@ =~= old(out)@ + constructor_fields(def.deep_view(), (k + 1) as nat));
        k = k + 1;
    }
    if def.has_destructor {
        let mut field = module.clone();
        field.append("_destroy");
        let ghost before = out@;
        out.push(field.as_str());
        out.push(":");
        out.push("BuiltinDestructor");
        out.push(",");
        assert(out@ =~= before + seq![field@, ":"@, "BuiltinDestructor"@, ","@]);
    }
    assert(out@ =~= old(out)@ + builtin_fields(def.deep_view()));
}

fn push_table(api: &ExtensionApi, config: BuildConfiguration, out: &mut Tokens)
    ensures
        final(out)@ == old(out)@ + table_tokens(api@, config),
{
    let ghost head = seq!["pub"@, "struct"@, "GlobalMethodTable"@, "{"@];
    out.push("pub");
    out.push("struct");
    out.push("GlobalMethodTable");
    out.push("{");
    assert(out@ =~= old(out)@ + head + builtins_fields(api@, config, 0));
    let n: usize = api.builtin_classes.len();
    let mut b: usize = 0;
    while b < n
        invariant
            b <= n,
            n == api.builtin_classes.len(),
            out@ == old(out)@ + head + builtins_fields(api@, config, b as nat),
        decreases n - b,
    {
        let def = &api.builtin_classes[b];
        assert(api@.builtin_classes[b as int] == def.deep_view());
        if lookup_size(def, config).is_some() {
            push_builtin_fields(def, out);
            assert(out@ =~= old(out)@ + head + builtins_fields(api@, config, (b + 1) as nat));
        }
        b = b + 1;
    }
    let ghost builtins = builtins_fields(api@, config, n as nat);
    let nu: usize = api.utility_functions.len();
    let mut u: usize = 0;
    assert(out@ =~= old(out)@ + head + builtins + utility_fields(api@, 0));
    while u < nu
        invariant
            u <= nu,
            nu == api.utility_functions.len(),
            out@ == old(out)@ + head + builtins + utility_fields(api@, u as nat),
        decreases nu - u,
    {
        let f = &api.utility_functions[u];
        assert(api@.utility_functions[u as int] == f.deep_view());
        let mut field = "utility_".to_owned();
        field.append(f.name.as_str());
        let ghost before = out@;
        out.push(field.as_str());
        out.push(":");
        out.push("UtilityFunction");
        out.push(",");
        assert(out@ =~= before + seq![field@, ":"@, "UtilityFunction"@, ","@]);
        assert(out@ =~= old(out)@ + head + builtins + utility_fields(api@, (u + 1) as nat));
        u = u + 1;
    }
    out.push("}");
    assert(out@ =~= old(out)@ + table_tokens(api@, config));
}

/// Generates the central file of the low-level root: the table of the
/// engine's entry points and the layouts of the builtin types. A builtin
/// type without a size for `build_config` is left out of both.
pub fn generate_sys_central_file(
    api: &ExtensionApi,
    build_config: BuildConfiguration,
    out_files: &mut Vec<GeneratedFile>,
)
    ensures
        final(out_files).deep_view() == old(out_files).deep_view().push(
            sys_central_file(api@, build_config),
        ),
{
    let mut tokens = Tokens::new();
    push_table(api, build_config, &mut tokens);
    let rs = builtin_records(api, build_config);
    push_layout_table(&rs, &mut tokens);
    assert(tokens@ =~= sys_central_file(api@, build_config).tokens);
    emit(out_files, "central.rs".to_owned(), tokens);
}

fn push_variants(rs: &Vec<BuiltinRecord>, out: &mut Tokens)
    ensures
        final(out)@ == old(out)@ + variant_tokens(rs.deep_view(), rs.len() as nat),
{
    let n: usize = rs.len();
    let mut i: usize = 0;
    assert(out@ =~= old(out)@ + variant_tokens(rs.deep_view(), 0));
    while i < n
        invariant
            i <= n,
            n == rs.len(),
            out@ == old(out)@ + variant_tokens(rs.deep_view(), i as nat),
        decreases n - i,
    {
        assert(rs.deep_view()[i as int] == rs[i as int].deep_view());
        let ghost before = out@;
        out.push(rs[i].name.as_str());
        out.push(",");
        assert(out@ =~= before + seq![rs[i as int].name@, ","@]);
        assert(out@ =~= old(out)@ + variant_tokens(rs.deep_view(), (i + 1) as nat));
        i = i + 1;
    }
}

fn push_defaults(
    api: &ExtensionApi,
    config: BuildConfiguration,
    constructible: &Vec<usize>,
    out: &mut Tokens,
)
    requires
        forall|k: int|
            0 <= k < constructible.len() ==> constructible[k] < api.builtin_classes.len(),
    ensures
        final(out)@ == old(out)@ + default_tokens(
            api@,
            config,
            ints(constructible@),
            constructible.len() as nat,
        ),
{
    let n: usize = constructible.len();
    let mut i: usize = 0;
    assert(out@ =~= old(out)@ + default_tokens(api@, config, ints(constructible@), 0));
    while i < n
        invariant
            i <= n,
            n == constructible.len(),
            forall|k: int|
                0 <= k < constructible.len() ==> constructible[k] < api.builtin_classes.len(),
            out@ == old(out)@ + default_tokens(api@, config, ints(constructible@), i as nat),
        decreases n - i,
    {
        let b = constructible[i];
        assert(ints(constructible@)[i as int] == b as int);
        let def = &api.builtin_classes[b];
        assert(api@.builtin_classes[b as int] == def.deep_view());
        if lookup_size(def, config).is_some() {
            let ghost before = out@;
            out.push("impl_builtin_default");
            out.push("!");
            out.push("(");
            out.push(def.name.as_str());
            out.push(")");
            out.push(";");
            assert(out@ =~= before + seq![
                "impl_builtin_default"@,
                "!"@,
                "("@,
                def.name@,
                ")"@,
                ";"@,
            ]);
            assert(out@ =~= old(out)@ + default_tokens(
                api@,
                config,
                ints(constructible@),
                (i + 1) as nat,
            ));
        }
        i = i + 1;
    }
}

/// Generates the central file of the high-level root: the enumeration of
/// the builtin types and their default values. A builtin type without a
/// size for `build_config` is left out.
pub fn generate_core_central_file(
    api: &ExtensionApi,
    ctx: &Context,
    build_config: BuildConfiguration,
    out_files: &mut Vec<GeneratedFile>,
)
    requires
        ctx.represents(api@),
    ensures
        final(out_files).deep_view() == old(out_files).deep_view().push(
            core_central_file(api@, build_config),
        ),
{
    proof {
        ctx.lemma_represents(api@);
        lemma_default_constructible(api@, api@.builtin_classes.len());
        let constructible = ctx.default_constructible;
        assert forall|k: int| 0 <= k < constructible.len() implies constructible[k]
            < api.builtin_classes.len() by {
            assert(ints(constructible@)[k] == constructible[k] as int);
        }
    }
    let rs = builtin_records(api, build_config);
    let mut tokens = Tokens::new();
    tokens.push("pub");
    tokens.push("enum");
    tokens.push("VariantType");
    tokens.push("{");
    push_variants(&rs, &mut tokens);
    tokens.push("}");
    push_defaults(api, build_config, &ctx.default_constructible, &mut tokens);
    assert(tokens@ =~= core_central_file(api@, build_config).tokens);
    emit(out_files, "central.rs".to_owned(), tokens);
}

/// Generates the index file of the low-level root.
pub fn generate_sys_mod_file(out_files: &mut Vec<GeneratedFile>, stubs_only: bool)
    ensures
        final(out_files).deep_view() == old(out_files).deep_view().push(sys_mod_file(stubs_only)),
{
    let mut tokens = Tokens::new();
    tokens.push("pub");
    tokens.push("mod");
    if stubs_only {
        tokens.push("central_stubs");
    } else {
        tokens.push("central");
    }
    tokens.push(";");
    assert(tokens@ =~= sys_mod_file(stubs_only).tokens);
    emit(out_files, "mod.rs".to_owned(), tokens);
}

fn push_mod(name: &str, out: &mut Tokens)
    ensures
        final(out)@ == old(out)@ + seq!["pub"@, "mod"@, name@, ";"@],
{
    out.push("pub");
    out.push("mod");
    out.push(name);
    out.push(";");
    assert(out@ =~= old(out)@ + seq!["pub"@, "mod"@, name@, ";"@]);
}

/// Generates the index file of the high-level root.
pub fn generate_core_mod_file(out_files: &mut Vec<GeneratedFile>, stubs_only: bool)
    ensures
        final(out_files).deep_view() == old(out_files).deep_view().push(core_mod_file(stubs_only)),
{
    let mut tokens = Tokens::new();
    if stubs_only {
        push_mod("central_stubs", &mut tokens);
        push_mod("classes_stubs", &mut tokens);
        push_mod("utilities_stubs", &mut tokens);
    } else {
        push_mod("central", &mut tokens);
        push_mod("classes", &mut tokens);
        push_mod("utilities", &mut tokens);
    }
    assert(tokens@ =~= core_mod_file(stubs_only).tokens);
    emit(out_files, "mod.rs".to_owned(), tokens);
}

} // verus!
