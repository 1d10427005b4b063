//! The class generator: one module for each selected class, with its wrapper
//! type, its place in the inheritance, its constructor and its methods.

use vstd::prelude::*;
use crate::api_parser::{ApiModel, BuildConfiguration, ClassDef, ClassModel, ExtensionApi};
use crate::context::{allow_list, is_selected, memo_sound, selection, Context, SelectionMode};
use crate::inheritance::{
    chain, exposed_methods, first_of_its_name, flatten, ints, lemma_chain_classes,
    lemma_chain_from, lemma_merge_chain_slots, method_at, slot_in, slot_of_chain, slots_in,
    MethodRef, MethodSlot,
};
use crate::names::{class_names, lemma_position, name_tables, position};
use crate::special_cases::{
    lemma_policy_without, method_names, policy_for, rule_matches, skips_class, skips_method,
    ExceptionTable, Policy, PolicyModel, RuleModel,
};
use crate::util::{emit, snake_case, to_snake_case, FileModel, GeneratedFile, Tokens};
use crate::wrappers::{
    emitted_as_virtual, emitted_name, is_emitted_as_virtual, method_wrapper, quote_text, quoted,
    wrapper_name, wrapper_tokens,
};

verus! {

/// One generated method: where it is declared, the name it got, whether it
/// is an override point, and its tokens.
#[derive(Clone, Debug, PartialEq, Eq)]
pub struct GeneratedMethod {
    pub source: MethodRef,
    pub name: String,
    pub is_virtual: bool,
    pub tokens: Tokens,
}

/// What a [`GeneratedMethod`] holds, as a mathematical value.
pub struct WrapperModel {
    pub source: MethodSlot,
    pub name: Seq<char>,
    pub is_virtual: bool,
    pub tokens: Seq<Seq<char>>,
}

impl DeepView for GeneratedMethod {
    type V = WrapperModel;

    open spec fn deep_view(&self) -> WrapperModel {
        WrapperModel {
            source: self.source.deep_view(),
            name: self.name@,
            is_virtual: self.is_virtual,
            tokens: self.tokens@,
        }
    }
}

/// The module generated for one class.
#[derive(Clone, Debug, PartialEq, Eq)]
pub struct GeneratedClass {
    /// The position of the class in the description.
    pub class: usize,
    pub class_name: String,
    pub module_name: String,
    /// The class that the class declares as its base.
    pub base: Option<String>,
    pub inherits_macro_ident: String,
    pub has_pub_module: bool,
    pub has_constructor: bool,
    pub wrappers: Vec<GeneratedMethod>,
    pub tokens: Tokens,
}

/// What a [`GeneratedClass`] holds, as a mathematical value.
pub struct ClassModuleModel {
    pub class: int,
    pub class_name: Seq<char>,
    pub module_name: Seq<char>,
    pub base: Option<Seq<char>>,
    pub inherits_macro_ident: Seq<char>,
    pub has_pub_module: bool,
    pub has_constructor: bool,
    pub wrappers: Seq<WrapperModel>,
    pub tokens: Seq<Seq<char>>,
}

impl DeepView for GeneratedClass {
    type V = ClassModuleModel;

    open spec fn deep_view(&self) -> ClassModuleModel {
        ClassModuleModel {
            class: self.class as int,
            class_name: self.class_name@,
            module_name: self.module_name@,
            base: self.base.deep_view(),
            inherits_macro_ident: self.inherits_macro_ident@,
            has_pub_module: self.has_pub_module,
            has_constructor: self.has_constructor,
            wrappers: self.wrappers.deep_view(),
            tokens: self.tokens@,
        }
    }
}

/// The wrapper for the method `s`; `None` where a rule skips the method.
/// The rule is looked up under the class that declares the method.
pub open spec fn wrapper_of(api: ApiModel, rules: Seq<RuleModel>, s: MethodSlot) -> Option<
    WrapperModel,
> {
    let owner = api.classes[s.class].name;
    let m = method_at(api, s);
    let policy = policy_for(rules, owner, Some(m.name));
    if policy == Some(PolicyModel::Skip) {
        None
    } else {
        Some(
            WrapperModel {
                source: s,
                name: emitted_name(m.name, policy),
                is_virtual: emitted_as_virtual(m, policy),
                tokens: wrapper_tokens(name_tables(api), owner, m, policy),
            },
        )
    }
}

/// The wrappers for the first `upto` methods of `slots`, in their order.
pub open spec fn wrappers_of(
    api: ApiModel,
    rules: Seq<RuleModel>,
    slots: Seq<MethodSlot>,
    upto: nat,
) -> Seq<WrapperModel>
    decreases upto,
{
    if upto == 0 {
        Seq::empty()
    } else {
        match wrapper_of(api, rules, slots[upto - 1]) {
            Some(w) => wrappers_of(api, rules, slots, (upto - 1) as nat).push(w),
            None => wrappers_of(api, rules, slots, (upto - 1) as nat),
        }
    }
}

/// The tokens of those among the first `upto` wrappers that are override
/// points (`virtuals`) or direct calls (not `virtuals`).
pub open spec fn wrappers_tokens(ws: Seq<WrapperModel>, upto: nat, virtuals: bool) -> Seq<
    Seq<char>,
>
    decreases upto,
{
    if upto == 0 {
        Seq::empty()
    } else if ws[upto - 1].is_virtual == virtuals {
        wrappers_tokens(ws, (upto - 1) as nat, virtuals) + ws[upto - 1].tokens
    } else {
        wrappers_tokens(ws, (upto - 1) as nat, virtuals)
    }
}

/// The wrapper type: it holds the handle to the engine object.
pub open spec fn struct_tokens(name: Seq<char>) -> Seq<Seq<char>> {
    seq!["pub"@, "struct"@, name, "{"@, "object_ptr"@, ":"@, "ObjectPtr"@, ","@, "}"@]
}

/// How the objects of a class are kept alive.
pub open spec fn memory_tag(is_refcounted: bool) -> Seq<char> {
    if is_refcounted {
        "RefCounted"@
    } else {
        "ManualMemory"@
    }
}

/// How the base of a class is written; the unit type for a class without
/// parent.
pub open spec fn base_tokens(parent: Option<Seq<char>>) -> Seq<Seq<char>> {
    match parent {
        Some(base) => seq![base],
        None => seq!["("@, ")"@],
    }
}

/// The declaration of a class's base and of its ownership discipline.
pub open spec fn class_trait_tokens(cls: ClassModel) -> Seq<Seq<char>> {
    seq!["impl"@, "GodotClass"@, "for"@, cls.name, "{"@, "type"@, "Base"@, "="@] + base_tokens(
        cls.parent,
    ) + seq![";"@, "type"@, "Mem"@, "="@, memory_tag(cls.is_refcounted), ";"@, "}"@]
}

/// For each of the first `upto` classes of `chain`, the declaration that
/// `name` inherits from it.
pub open spec fn inherits_tokens(api: ApiModel, name: Seq<char>, chain: Seq<int>, upto: nat) -> Seq<
    Seq<char>,
>
    decreases upto,
{
    if upto == 0 {
        Seq::empty()
    } else {
        inherits_tokens(api, name, chain, (upto - 1) as nat) + seq![
            "impl"@,
            "Inherits"@,
            "<"@,
            api.classes[chain[upto - 1]].name,
            ">"@,
            "for"@,
            name,
            "{"@,
            "}"@,
        ]
    }
}

/// The public constructor; nothing for a class that cannot be instantiated.
pub open spec fn constructor_tokens(cls: ClassModel) -> Seq<Seq<char>> {
    if cls.is_instantiable {
        seq![
            "impl"@,
            cls.name,
            "{"@,
            "pub"@,
            "fn"@,
            "new"@,
            "("@,
            ")"@,
            "->"@,
            "Gd"@,
            "<"@,
            cls.name,
            ">"@,
            "{"@,
            "construct"@,
            "("@,
            quoted(cls.name),
            ")"@,
            "}"@,
            "}"@,
        ]
    } else {
        Seq::empty()
    }
}

/// The block of the direct calls and the trait of the override points.
pub open spec fn methods_tokens(name: Seq<char>, ws: Seq<WrapperModel>) -> Seq<Seq<char>> {
    seq!["impl"@, name, "{"@] + wrappers_tokens(ws, ws.len(), false) + seq![
        "}"@,
        "pub"@,
        "trait"@,
        name + "Virtual"@,
        "{"@,
    ] + wrappers_tokens(ws, ws.len(), true) + seq!["}"@]
}

/// The tokens of the module for class `c` with the wrappers `ws`.
pub open spec fn class_tokens(api: ApiModel, c: int, ws: Seq<WrapperModel>) -> Seq<Seq<char>> {
    let cls = api.classes[c];
    struct_tokens(cls.name) + class_trait_tokens(cls) + inherits_tokens(
        api,
        cls.name,
        chain(api, c),
        (chain(api, c).len() - 1) as nat,
    ) + constructor_tokens(cls) + methods_tokens(cls.name, ws)
}

/// The module for class `c`. It offers the methods of the class and of its
/// ancestors, but for those that a rule skips.
pub open spec fn class_module(api: ApiModel, rules: Seq<RuleModel>, c: int) -> ClassModuleModel {
    let cls = api.classes[c];
    let ws = wrappers_of(api, rules, exposed_methods(api, c), exposed_methods(api, c).len());
    ClassModuleModel {
        class: c,
        class_name: cls.name,
        module_name: snake_case(cls.name),
        base: cls.parent,
        inherits_macro_ident: "inherits_transitive_"@ + cls.name,
        has_pub_module: cls.enums.len() > 0,
        has_constructor: cls.is_instantiable,
        wrappers: ws,
        tokens: class_tokens(api, c, ws),
    }
}

/// The modules for the first `upto` classes of `selected`, but for those
/// that a rule skips.
pub open spec fn class_modules(
    api: ApiModel,
    rules: Seq<RuleModel>,
    selected: Seq<int>,
    upto: nat,
) -> Seq<ClassModuleModel>
    decreases upto,
{
    if upto == 0 {
        Seq::empty()
    } else if skips_class(rules, api.classes[selected[upto - 1]].name) {
        class_modules(api, rules, selected, (upto - 1) as nat)
    } else {
        class_modules(api, rules, selected, (upto - 1) as nat).push(
            class_module(api, rules, selected[upto - 1]),
        )
    }
}

/// The modules that are generated from a description: one for each
/// selected class that no rule skips, in the order of the description.
pub open spec fn generated_classes(
    api: ApiModel,
    mode: SelectionMode,
    rules: Seq<RuleModel>,
) -> Seq<ClassModuleModel> {
    class_modules(
        api,
        rules,
        selection(api, mode, api.classes.len()),
        selection(api, mode, api.classes.len()).len(),
    )
}

fn make_wrappers(
    api: &ExtensionApi,
    ctx: &Context,
    rules: &ExceptionTable,
    slots: &Vec<MethodRef>,
) -> (r: Vec<GeneratedMethod>)
    requires
        ctx.represents(api@),
        slots_in(api@, slots.deep_view()),
    ensures
        r.deep_view() == wrappers_of(api@, rules@, slots.deep_view(), slots.len() as nat),
{
    let mut out: Vec<GeneratedMethod> = Vec::new();
    let n: usize = slots.len();
    let mut i: usize = 0;
    proof {
        ctx.lemma_represents(api@);
    }
    assert(out.deep_view() =~= wrappers_of(api@, rules@, slots.deep_view(), 0));
    while i < n
        invariant
            i <= n,
            n == slots.len(),
            ctx.names@ == name_tables(api@),
            memo_sound(ctx@),
            slots_in(api@, slots.deep_view()),
            out.deep_view() == wrappers_of(api@, rules@, slots.deep_view(), i as nat),
        decreases n - i,
    {
        let s = slots[i];
        assert(slots.deep_view()[i as int] == s.deep_view());
        assert(slot_in(api@, slots.deep_view()[i as int]));
        let class = &api.classes[s.class];
        assert(api@.classes[s.class as int] == class.deep_view());
        let m = &class.methods[s.method];
        assert(method_at(api@, s.deep_view()) == m.deep_view());
        let policy = rules.method_policy(class.name.as_str(), m.name.as_str());
        let skipped = match policy {
            Some(Policy::Skip) => true,
            _ => false,
        };
        if !skipped {
            let tokens = method_wrapper(ctx, class.name.as_str(), m, policy);
            let w = GeneratedMethod {
                source: s,
                name: wrapper_name(m.name.as_str(), policy).to_owned(),
                is_virtual: is_emitted_as_virtual(m, policy),
                tokens,
            };
            let ghost before = out.deep_view();
            assert(Some(w.deep_view()) == wrapper_of(api@, rules@, s.deep_view()));
            out.push(w);
            assert(out.deep_view() =~= before.push(w.deep_view()));
        }
        i = i + 1;
    }
    out
}

fn push_wrappers(ws: &Vec<GeneratedMethod>, virtuals: bool, out: &mut Tokens)
    ensures
        final(out)@ == old(out)@ + wrappers_tokens(ws.deep_view(), ws.len() as nat, virtuals),
{
    let n: usize = ws.len();
    let mut i: usize = 0;
    assert(out@ =~= old(out)@ + wrappers_tokens(ws.deep_view(), 0, virtuals));
    while i < n
        invariant
            i <= n,
            n == ws.len(),
            out@ == old(out)@ + wrappers_tokens(ws.deep_view(), i as nat, virtuals),
        decreases n - i,
    {
        assert(ws.deep_view()[i as int] == ws[i as int].deep_view());
        if ws[i].is_virtual == virtuals {
            let ghost before = out@;
            out.extend(&ws[i].tokens);
            assert(out@ =~= old(out)@ + wrappers_tokens(
                ws.deep_view(),
                (i + 1) as nat,
                virtuals,
            ));
        }
        i = i + 1;
    }
}

fn push_struct(name: &str, out: &mut Tokens)
    ensures
        final(out)@ == old(out)@ + struct_tokens(name@),
{
    out.push("pub");
    out.push("struct");
    out.push(name);
    out.push("{");
    out.push("object_ptr");
    out.push(":");
    out.push("ObjectPtr");
    out.push(",");
    out.push("}");
    assert(out@ =~= old(out)@ + struct_tokens(name@));
}

fn push_class_trait(cls: &ClassDef, out: &mut Tokens)
    ensures
        final(out)@ == old(out)@ + class_trait_tokens(cls.deep_view()),
{
    out.push("impl");
    out.push("GodotClass");
    out.push("for");
    out.push(cls.name.as_str());
    out.push("{");
    out.push("type");
    out.push("Base");
    out.push("=");
    match &cls.parent {
        Some(base) => {
            out.push(base.as_str());
        },
        None => {
            out.push("(");
            out.push(")");
        },
    }
    out.push(";");
    out.push("type");
    out.push("Mem");
    out.push("=");
    if cls.is_refcounted {
        out.push("RefCounted");
    } else {
        out.push("ManualMemory");
    }
    out.push(";");
    out.push("}");
    assert(out@ =~= old(out)@ + class_trait_tokens(cls.deep_view()));
}

fn push_inherits(api: &ExtensionApi, name: &str, chain: &Vec<usize>, upto: usize, out: &mut Tokens)
    requires
        upto <= chain.len(),
        forall|k: int| 0 <= k < chain.len() ==> chain[k] < api.classes.len(),
    ensures
        final(out)@ == old(out)@ + inherits_tokens(api@, name@, ints(chain@), upto as nat),
{
    let mut k: usize = 0;
    assert(out@ =~= old(out)@ + inherits_tokens(api@, name@, ints(chain@), 0));
    while k < upto
        invariant
            k <= upto <= chain.len(),
            forall|k: int| 0 <= k < chain.len() ==> chain[k] < api.classes.len(),
            out@ == old(out)@ + inherits_tokens(api@, name@, ints(chain@), k as nat),
        decreases upto - k,
    {
        let a = chain[k];
        assert(ints(chain@)[k as int] == a as int);
        assert(api@.classes[a as int] == api.classes[a as int].deep_view());
        let ghost before = out@;
        out.push("impl");
        out.push("Inherits");
        out.push("<");
        out.push(api.classes[a].name.as_str());
        out.push(">");
        out.push("for");
        out.push(name);
        out.push("{");
        out.push("}");
        assert(out@ =~= before + seq![
            "impl"@,
            "Inherits"@,
            "<"@,
            api.classes[a as int].name@,
            ">"@,
            "for"@,
            name@,
            "{"@,
            "}"@,
        ]);
        assert(out@ =~= old(out)@ + inherits_tokens(api@, name@, ints(chain@), (k + 1) as nat));
        k = k + 1;
    }
}

fn push_constructor(cls: &ClassDef, out: &mut Tokens)
    ensures
        final(out)@ == old(out)@ + constructor_tokens(cls.deep_view()),
{
    if cls.is_instantiable {
        let name = cls.name.as_str();
        let text = quote_text(name);
        out.push("impl");
        out.push(name);
        out.push("{");
        out.push("pub");
        out.push("fn");
        out.push("new");
        out.push("(");
        out.push(")");
        out.push("->");
        out.push("Gd");
        let ghost half = out@;
        assert(half =~= old(out)@ + seq![
            "impl"@,
            name@,
            "{"@,
            "pub"@,
            "fn"@,
            "new"@,
            "("@,
            ")"@,
            "->"@,
            "Gd"@,
        ]);
        out.push("<");
        out.push(name);
        out.push(">");
        out.push("{");
        out.push("construct");
        out.push("(");
        out.push(text.as_str());
        out.push(")");
        out.push("}");
        out.push("}");
        assert(out@ =~= half + seq![
            "<"@,
            name@,
            ">"@,
            "{"@,
            "construct"@,
            "("@,
            quoted(name@),
            ")"@,
            "}"@,
            "}"@,
        ]);
    }
    assert(out@ =~= old(out)@ + constructor_tokens(cls.deep_view()));
}

fn push_methods(name: &str, ws: &Vec<GeneratedMethod>, out: &mut Tokens)
    ensures
        final(out)@ == old(out)@ + methods_tokens(name@, ws.deep_view()),
{
    out.push("impl");
    out.push(name);
    out.push("{");
    push_wrappers(ws, false, out);
    out.push("}");
    out.push("pub");
    out.push("trait");
    let mut trait_name = name.to_owned();
    trait_name.append("Virtual");
    out.push(trait_name.as_str());
    out.push("{");
    push_wrappers(ws, true, out);
    out.push("}");
    assert(out@ =~= old(out)@ + methods_tokens(name@, ws.deep_view()));
}

/// Generates the module for class `c`.
pub fn generate_class(api: &ExtensionApi, ctx: &Context, rules: &ExceptionTable, c: usize) -> (r:
    GeneratedClass)
    requires
        ctx.represents(api@),
        c < api.classes.len(),
    ensures
        r.deep_view() == class_module(api@, rules@, c as int),
{
    let cls = &api.classes[c];
    assert(api@.classes[c as int] == cls.deep_view());
    proof {
        ctx.lemma_represents(api@);
    }
    let chain = &ctx.chains[c];
    proof {
        lemma_chain_from(api@, c as int, api@.classes.len());
        assert forall|k: int| 0 <= k < chain.len() implies chain[k] < api.classes.len() by {
            assert(ints(chain@)[k] == chain[k] as int);
        }
    }
    let exposed = flatten(api, chain, false);
    let wrappers = make_wrappers(api, ctx, rules, &exposed);
    let name = cls.name.as_str();
    let mut tokens = Tokens::new();
    push_struct(name, &mut tokens);
    push_class_trait(cls, &mut tokens);
    push_inherits(api, name, chain, chain.len() - 1, &mut tokens);
    push_constructor(cls, &mut tokens);
    push_methods(name, &wrappers, &mut tokens);
    assert(tokens@ =~= class_tokens(api@, c as int, wrappers.deep_view()));
    let mut macro_ident = "inherits_transitive_".to_owned();
    macro_ident.append(name);
    GeneratedClass {
        class: c,
        class_name: cls.name.clone(),
        module_name: to_snake_case(name),
        base: cls.parent.clone(),
        inherits_macro_ident: macro_ident,
        has_pub_module: cls.enums.len() > 0,
        has_constructor: cls.is_instantiable,
        wrappers,
        tokens,
    }
}

/// Generates the modules of all selected classes: one module for each
/// selected class that no rule skips, in the order of the description.
pub fn generate_classes(api: &ExtensionApi, ctx: &Context, rules: &ExceptionTable) -> (r: Vec<
    GeneratedClass,
>)
    requires
        ctx.represents(api@),
    ensures
        r.deep_view() == generated_classes(api@, ctx.mode, rules@),
{
    let mut out: Vec<GeneratedClass> = Vec::new();
    let n: usize = ctx.selected.len();
    let mut i: usize = 0;
    proof {
        ctx.lemma_represents(api@);
        lemma_selection_members(api@, ctx.mode, api@.classes.len());
    }
    assert(out.deep_view() =~= class_modules(api@, rules@, ints(ctx.selected@), 0));
    while i < n
        invariant
            i <= n,
            n == ctx.selected.len(),
            ctx.represents(api@),
            forall|k: int|
                0 <= k < n ==> 0 <= #[trigger] ints(ctx.selected@)[k] < api@.classes.len(),
            out.deep_view() == class_modules(api@, rules@, ints(ctx.selected@), i as nat),
        decreases n - i,
    {
        let c = ctx.selected[i];
        assert(ints(ctx.selected@)[i as int] == c as int);
        assert(api@.classes[c as int] == api.classes[c as int].deep_view());
        if !rules.is_class_skipped(api.classes[c].name.as_str()) {
            let module = generate_class(api, ctx, rules, c);
            let ghost before = out.deep_view();
            out.push(module);
            assert(out.deep_view() =~= before.push(class_module(api@, rules@, c as int)));
        }
        i = i + 1;
    }
    out
}

/// Whether the values of `s` rise strictly.
pub open spec fn rising(s: Seq<int>) -> bool {
    forall|i: int, j: int| 0 <= i < j < s.len() ==> s[i] < s[j]
}

/// The selection holds each selected class once, and nothing else.
pub proof fn lemma_selection_members(api: ApiModel, mode: SelectionMode, upto: nat)
    ensures
        rising(selection(api, mode, upto)),
        forall|k: int|
            0 <= k < selection(api, mode, upto).len() ==> {
                &&& 0 <= #[trigger] selection(api, mode, upto)[k] < upto
                &&& is_selected(api, mode, selection(api, mode, upto)[k])
            },
        forall|c: int|
            0 <= c < upto && is_selected(api, mode, c) ==> selection(api, mode, upto).contains(c),
    decreases upto,
{
    if upto > 0 {
        lemma_selection_members(api, mode, (upto - 1) as nat);
        let before = selection(api, mode, (upto - 1) as nat);
        let now = selection(api, mode, upto);
        assert forall|c: int| 0 <= c < upto && is_selected(api, mode, c) implies now.contains(
            c,
        ) by {
            if c < upto - 1 {
                assert(before.contains(c));
                let k = choose|k: int| 0 <= k < before.len() && before[k] == c;
                assert(now[k] == c);
            } else {
                assert(now[now.len() - 1] == c);
            }
        }
    }
}

/// Whether `mods` holds a module for class `c`.
pub open spec fn has_module_for(mods: Seq<ClassModuleModel>, c: int) -> bool {
    exists|i: int| 0 <= i < mods.len() && (#[trigger] mods[i]).class == c
}

proof fn lemma_class_modules(api: ApiModel, rules: Seq<RuleModel>, selected: Seq<int>, upto: nat)
    requires
        upto <= selected.len(),
        rising(selected),
    ensures
        forall|i: int|
            0 <= i < class_modules(api, rules, selected, upto).len() ==> {
                let m = #[trigger] class_modules(api, rules, selected, upto)[i];
                &&& m == class_module(api, rules, m.class)
                &&& !skips_class(rules, api.classes[m.class].name)
                &&& selected.subrange(0, upto as int).contains(m.class)
            },
        forall|i: int, j: int|
            0 <= i < j < class_modules(api, rules, selected, upto).len() ==> (
            #[trigger] class_modules(api, rules, selected, upto)[i]).class < (
            #[trigger] class_modules(api, rules, selected, upto)[j]).class,
        forall|k: int|
            0 <= k < upto && !skips_class(rules, api.classes[#[trigger] selected[k]].name)
                ==> has_module_for(class_modules(api, rules, selected, upto), selected[k]),
    decreases upto,
{
    if upto > 0 {
        lemma_class_modules(api, rules, selected, (upto - 1) as nat);
        let before = class_modules(api, rules, selected, (upto - 1) as nat);
        let now = class_modules(api, rules, selected, upto);
        let c = selected[upto - 1];
        let older = selected.subrange(0, upto - 1);
        let all = selected.subrange(0, upto as int);
        assert forall|i: int| 0 <= i < before.len() implies all.contains(
            (#[trigger] before[i]).class,
        ) && before[i].class < c by {
            assert(older.contains(before[i].class));
            let k = choose|k: int| 0 <= k < older.len() && older[k] == before[i].class;
            assert(all[k] == before[i].class);
            assert(selected[k] < selected[upto - 1]);
        }
        assert(all[upto - 1] == c);
        assert forall|k: int|
            0 <= k < upto && !skips_class(
                rules,
                api.classes[#[trigger] selected[k]].name,
            ) implies has_module_for(now, selected[k]) by {
            if k < upto - 1 {
                assert(has_module_for(before, selected[k]));
                let i = choose|i: int|
                    0 <= i < before.len() && (#[trigger] before[i]).class == selected[k];
                assert(now[i].class == selected[k]);
            } else {
                assert(now[now.len() - 1].class == c);
            }
        }
    }
}

/// Every described class that is selected and that no rule skips has
/// exactly one module. Under the minimal selection these are the classes of
/// the fixed list that the description has; under the full selection, all
/// classes of the description.
pub proof fn law_one_module_per_class(
    api: ApiModel,
    mode: SelectionMode,
    rules: Seq<RuleModel>,
    name: Seq<char>,
)
    requires
        position(class_names(api), name) is Some,
        mode == SelectionMode::Minimal ==> position(allow_list(), name) is Some,
        !skips_class(rules, name),
    ensures
        exists|i: int|
            {
                &&& 0 <= i < generated_classes(api, mode, rules).len()
                &&& (#[trigger] generated_classes(api, mode, rules)[i]).class_name == name
                &&& forall|j: int|
                    0 <= j < generated_classes(api, mode, rules).len() && (
                    #[trigger] generated_classes(api, mode, rules)[j]).class_name == name ==> j
                        == i
            },
{
    let n = api.classes.len();
    let sel = selection(api, mode, n);
    let mods = generated_classes(api, mode, rules);
    let c = position(class_names(api), name)->Some_0;
    lemma_position(class_names(api), name);
    lemma_selection_members(api, mode, n);
    lemma_class_modules(api, rules, sel, sel.len());
    assert(is_selected(api, mode, c));
    assert(sel.contains(c));
    let k = choose|k: int| 0 <= k < sel.len() && sel[k] == c;
    assert(!skips_class(rules, api.classes[sel[k]].name));
    assert(has_module_for(mods, sel[k]));
    let i = choose|i: int| 0 <= i < mods.len() && (#[trigger] mods[i]).class == c;
    assert(mods[i] == class_module(api, rules, c));
    assert forall|j: int| 0 <= j < mods.len() && (#[trigger] mods[j]).class_name == name implies j
        == i by {
        let m = mods[j];
        assert(m == class_module(api, rules, m.class));
        assert(sel.subrange(0, sel.len() as int).contains(m.class));
        let q = choose|q: int|
            0 <= q < sel.subrange(0, sel.len() as int).len() && sel.subrange(
                0,
                sel.len() as int,
            )[q] == m.class;
        assert(sel[q] == m.class);
        assert(is_selected(api, mode, m.class));
        assert(m.class == c);
        if j < i {
            assert(mods[j].class < mods[i].class);
        } else if i < j {
            assert(mods[i].class < mods[j].class);
        }
    }
}

/// The modules come in the order in which the description declares their
/// classes.
pub proof fn law_modules_in_declaration_order(
    api: ApiModel,
    mode: SelectionMode,
    rules: Seq<RuleModel>,
    i: int,
    j: int,
)
    requires
        0 <= i < j < generated_classes(api, mode, rules).len(),
    ensures
        generated_classes(api, mode, rules)[i].class < generated_classes(api, mode, rules)[j].class,
{
    let sel = selection(api, mode, api.classes.len());
    lemma_selection_members(api, mode, api.classes.len());
    lemma_class_modules(api, rules, sel, sel.len());
}

proof fn lemma_wrappers_not_skipped(
    api: ApiModel,
    rules: Seq<RuleModel>,
    slots: Seq<MethodSlot>,
    upto: nat,
)
    ensures
        forall|k: int|
            0 <= k < wrappers_of(api, rules, slots, upto).len() ==> !skips_method(
                rules,
                api.classes[(#[trigger] wrappers_of(api, rules, slots, upto)[k]).source.class].name,
                method_at(api, wrappers_of(api, rules, slots, upto)[k].source).name,
            ),
    decreases upto,
{
    if upto > 0 {
        lemma_wrappers_not_skipped(api, rules, slots, (upto - 1) as nat);
    }
}

/// No generated module holds a wrapper for a method that a rule skips: of
/// every wrapper of every module, the method is one that no rule skips.
pub proof fn law_skipped_method_has_no_wrapper(
    api: ApiModel,
    mode: SelectionMode,
    rules: Seq<RuleModel>,
    i: int,
    k: int,
)
    requires
        0 <= i < generated_classes(api, mode, rules).len(),
        0 <= k < generated_classes(api, mode, rules)[i].wrappers.len(),
    ensures
        !skips_method(
            rules,
            api.classes[generated_classes(api, mode, rules)[i].wrappers[k].source.class].name,
            method_at(api, generated_classes(api, mode, rules)[i].wrappers[k].source).name,
        ),
{
    let sel = selection(api, mode, api.classes.len());
    let mods = generated_classes(api, mode, rules);
    lemma_selection_members(api, mode, api.classes.len());
    lemma_class_modules(api, rules, sel, sel.len());
    let m = mods[i];
    assert(m == class_module(api, rules, m.class));
    let slots = exposed_methods(api, m.class);
    lemma_wrappers_not_skipped(api, rules, slots, slots.len());
}

/// The file of one class module, in the directory `classes`.
pub open spec fn class_file(m: ClassModuleModel) -> FileModel {
    FileModel { path: "classes/"@ + m.module_name + ".rs"@, tokens: m.tokens }
}

/// The entry of one class module in the index of the directory: the
/// module, public where the class has enumerations of its own, and the
/// re-export of the class.
pub open spec fn index_entry(m: ClassModuleModel) -> Seq<Seq<char>> {
    let declaration = if m.has_pub_module {
        seq!["pub"@, "mod"@, m.module_name, ";"@]
    } else {
        seq!["mod"@, m.module_name, ";"@]
    };
    declaration + seq!["pub"@, "use"@, m.module_name, "::"@, m.class_name, ";"@]
}

/// The index entries of the first `upto` modules.
pub open spec fn index_tokens(mods: Seq<ClassModuleModel>, upto: nat) -> Seq<Seq<char>>
    decreases upto,
{
    if upto == 0 {
        Seq::empty()
    } else {
        index_tokens(mods, (upto - 1) as nat) + index_entry(mods[upto - 1])
    }
}

/// The files of the first `upto` class modules.
pub open spec fn module_files(mods: Seq<ClassModuleModel>, upto: nat) -> Seq<FileModel>
    decreases upto,
{
    if upto == 0 {
        Seq::empty()
    } else {
        module_files(mods, (upto - 1) as nat).push(class_file(mods[upto - 1]))
    }
}

/// The class files of a description: one file for each generated module, in
/// the order of the description, and then the index of the directory.
pub open spec fn class_files(api: ApiModel, mode: SelectionMode, rules: Seq<RuleModel>) -> Seq<
    FileModel,
> {
    let mods = generated_classes(api, mode, rules);
    module_files(mods, mods.len()).push(
        FileModel { path: "classes/mod.rs"@, tokens: index_tokens(mods, mods.len()) },
    )
}

fn push_index_entry(m: &GeneratedClass, out: &mut Tokens)
    ensures
        final(out)@ == old(out)@ + index_entry(m.deep_view()),
{
    if m.has_pub_module {
        out.push("pub");
    }
    out.push("mod");
    out.push(m.module_name.as_str());
    out.push(";");
    out.push("pub");
    out.push("use");
    out.push(m.module_name.as_str());
    out.push("::");
    out.push(m.class_name.as_str());
    out.push(";");
    assert(out@ =~= old(out)@ + index_entry(m.deep_view()));
}

/// Generates the class files: one file for each selected class that no
/// rule skips, in the order of the description, and the index of their
/// directory.
pub fn generate_class_files(
    api: &ExtensionApi,
    ctx: &Context,
    build_config: BuildConfiguration,
    rules: &ExceptionTable,
    out_files: &mut Vec<GeneratedFile>,
)
    requires
        ctx.represents(api@),
    ensures
        final(out_files).deep_view() == old(out_files).deep_view() + class_files(
            api@,
            ctx.mode,
            rules@,
        ),
{
    let mods = generate_classes(api, ctx, rules);
    let mut index = Tokens::new();
    let n: usize = mods.len();
    let mut i: usize = 0;
    assert(out_files.deep_view() =~= old(out_files).deep_view() + module_files(
        mods.deep_view(),
        0,
    ));
    assert(index@ =~= index_tokens(mods.deep_view(), 0));
    while i < n
        invariant
            i <= n,
            n == mods.len(),
            index@ == index_tokens(mods.deep_view(), i as nat),
            out_files.deep_view() == old(out_files).deep_view() + module_files(
                mods.deep_view(),
                i as nat,
            ),
        decreases n - i,
    {
        let m = &mods[i];
        assert(mods.deep_view()[i as int] == m.deep_view());
        let mut path = "classes/".to_owned();
        path.append(m.module_name.as_str());
        path.append(".rs");
        emit(out_files, path, m.tokens.duplicate());
        push_index_entry(m, &mut index);
        assert(out_files.deep_view() =~= old(out_files).deep_view() + module_files(
            mods.deep_view(),
            (i + 1) as nat,
        ));
        i = i + 1;
    }
    emit(out_files, "classes/mod.rs".to_owned(), index);
    assert(out_files.deep_view() =~= old(out_files).deep_view() + class_files(
        api@,
        ctx.mode,
        rules@,
    ));
}

/// Whether `s` names a method of a class that its name stands for.
pub open spec fn slot_of_named_class(api: ApiModel, s: MethodSlot) -> bool {
    &&& slot_in(api, s)
    &&& first_of_its_name(api, s.class)
}

proof fn lemma_wrappers_without(
    api: ApiModel,
    rules: Seq<RuleModel>,
    i: int,
    slots: Seq<MethodSlot>,
    upto: nat,
)
    requires
        0 <= i < rules.len(),
        !rule_matches(api, rules[i]),
        upto <= slots.len(),
        forall|k: int| 0 <= k < slots.len() ==> slot_of_named_class(api, #[trigger] slots[k]),
    ensures
        wrappers_of(api, rules.remove(i), slots, upto) == wrappers_of(api, rules, slots, upto),
    decreases upto,
{
    if upto > 0 {
        lemma_wrappers_without(api, rules, i, slots, (upto - 1) as nat);
        let s = slots[upto - 1];
        assert(slot_of_named_class(api, s));
        let owner = api.classes[s.class].name;
        let m = method_at(api, s);
        if rules[i].class == owner && rules[i].method == Some(m.name) {
            let names = method_names(api.classes[s.class].methods);
            assert(names[s.method] == m.name);
            lemma_position(names, m.name);
            assert(false);
        }
        lemma_policy_without(rules, i, owner, Some(m.name));
    }
}

proof fn lemma_class_module_without(api: ApiModel, rules: Seq<RuleModel>, i: int, c: int)
    requires
        0 <= i < rules.len(),
        !rule_matches(api, rules[i]),
        0 <= c < api.classes.len(),
        first_of_its_name(api, c),
    ensures
        class_module(api, rules.remove(i), c) == class_module(api, rules, c),
{
    let ch = chain(api, c);
    let slots = exposed_methods(api, c);
    lemma_chain_classes(api, c, api.classes.len());
    lemma_merge_chain_slots(api, ch, ch.len(), false);
    assert forall|k: int| 0 <= k < slots.len() implies slot_of_named_class(
        api,
        #[trigger] slots[k],
    ) by {
        assert(slot_of_chain(api, ch, ch.len(), slots[k]));
        let q = choose|q: int| 0 <= q < ch.len() && #[trigger] ch[q] == slots[k].class;
        assert(first_of_its_name(api, ch[q]));
    }
    lemma_wrappers_without(api, rules, i, slots, slots.len());
}

proof fn lemma_class_modules_without(
    api: ApiModel,
    rules: Seq<RuleModel>,
    i: int,
    selected: Seq<int>,
    upto: nat,
)
    requires
        0 <= i < rules.len(),
        !rule_matches(api, rules[i]),
        upto <= selected.len(),
        forall|k: int|
            0 <= k < selected.len() ==> 0 <= #[trigger] selected[k] < api.classes.len()
                && first_of_its_name(api, selected[k]),
    ensures
        class_modules(api, rules.remove(i), selected, upto) == class_modules(
            api,
            rules,
            selected,
            upto,
        ),
    decreases upto,
{
    if upto > 0 {
        lemma_class_modules_without(api, rules, i, selected, (upto - 1) as nat);
        let c = selected[upto - 1];
        assert(first_of_its_name(api, c));
        let name = api.classes[c].name;
        if rules[i].class == name && rules[i].method == None::<Seq<char>> {
            assert(false);
        }
        lemma_policy_without(rules, i, name, None);
        lemma_class_module_without(api, rules, i, c);
    }
}

/// A rule that names nothing that the description has changes nothing:
/// without it the same modules are generated.
pub proof fn law_unmatched_rule_changes_no_module(
    api: ApiModel,
    mode: SelectionMode,
    rules: Seq<RuleModel>,
    i: int,
)
    requires
        0 <= i < rules.len(),
        !rule_matches(api, rules[i]),
    ensures
        generated_classes(api, mode, rules.remove(i)) == generated_classes(api, mode, rules),
        class_files(api, mode, rules.remove(i)) == class_files(api, mode, rules),
{
    let sel = selection(api, mode, api.classes.len());
    lemma_selection_members(api, mode, api.classes.len());
    lemma_class_modules_without(api, rules, i, sel, sel.len());
}

} // verus!
