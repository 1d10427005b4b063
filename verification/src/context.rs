//! The context: what is derived from a description once, before anything is
//! generated, and only read afterwards.

use vstd::prelude::*;
use crate::api_parser::{ApiModel, BuiltinClassDef, BuiltinModel, ExtensionApi};
use crate::inheritance::{
    chain, chain_within, flatten, ints, lemma_chain_from, virtual_set, MethodRef, MethodSlot,
};
use crate::names::{
    class_names, classify, find_name, name_tables, position, NameIndex, NameTables,
};
use crate::rust_ty::{RustTy, RustTyModel};
use crate::util::str_eq;
use crate::validation::{collect_type_refs, consistent, type_refs};

verus! {

/// Which classes bindings are generated for.
#[derive(Clone, Copy, Debug, PartialEq, Eq, Structural)]
pub enum SelectionMode {
    /// Every class of the description.
    Full,
    /// The classes of a fixed list, as far as the description has them.
    Minimal,
}

/// The classes of the minimal selection.
pub open spec fn allow_list() -> Seq<Seq<char>> {
    seq![
        "AnimatedSprite2D"@,
        "Area2D"@,
        "AudioStreamPlayer"@,
        "BaseButton"@,
        "Button"@,
        "Camera2D"@,
        "Camera3D"@,
        "CanvasItem"@,
        "CanvasLayer"@,
        "CollisionObject2D"@,
        "CollisionShape2D"@,
        "Control"@,
        "FileAccess"@,
        "Input"@,
        "Label"@,
        "MainLoop"@,
        "Marker2D"@,
        "Node"@,
        "Node2D"@,
        "Node3D"@,
        "Node3DGizmo"@,
        "Object"@,
        "OS"@,
        "PackedScene"@,
        "PathFollow2D"@,
        "PhysicsBody2D"@,
        "RefCounted"@,
        "Resource"@,
        "ResourceLoader"@,
        "RigidBody2D"@,
        "SceneTree"@,
        "Sprite2D"@,
        "SpriteFrames"@,
        "Time"@,
        "Timer"@,
        "Line2D"@,
    ]
}

/// The classes of the minimal selection.
pub fn selected_classes() -> (r: Vec<String>)
    ensures
        r.deep_view() == allow_list(),
{
    let mut v: Vec<String> = Vec::new();
    v.push("AnimatedSprite2D".to_owned());
    v.push("Area2D".to_owned());
    v.push("AudioStreamPlayer".to_owned());
    v.push("BaseButton".to_owned());
    v.push("Button".to_owned());
    v.push("Camera2D".to_owned());
    v.push("Camera3D".to_owned());
    v.push("CanvasItem".to_owned());
    v.push("CanvasLayer".to_owned());
    v.push("CollisionObject2D".to_owned());
    v.push("CollisionShape2D".to_owned());
    v.push("Control".to_owned());
    v.push("FileAccess".to_owned());
    v.push("Input".to_owned());
    v.push("Label".to_owned());
    v.push("MainLoop".to_owned());
    v.push("Marker2D".to_owned());
    v.push("Node".to_owned());
    v.push("Node2D".to_owned());
    v.push("Node3D".to_owned());
    v.push("Node3DGizmo".to_owned());
    v.push("Object".to_owned());
    v.push("OS".to_owned());
    v.push("PackedScene".to_owned());
    v.push("PathFollow2D".to_owned());
    v.push("PhysicsBody2D".to_owned());
    v.push("RefCounted".to_owned());
    v.push("Resource".to_owned());
    v.push("ResourceLoader".to_owned());
    v.push("RigidBody2D".to_owned());
    v.push("SceneTree".to_owned());
    v.push("Sprite2D".to_owned());
    v.push("SpriteFrames".to_owned());
    v.push("Time".to_owned());
    v.push("Timer".to_owned());
    v.push("Line2D".to_owned());
    assert(v.deep_view() =~= allow_list());
    v
}

/// Whether bindings are generated for class `c`: it is the first class of
/// its name, and under the minimal selection its name is on the list.
pub open spec fn is_selected(api: ApiModel, mode: SelectionMode, c: int) -> bool {
    &&& position(class_names(api), api.classes[c].name) == Some(c)
    &&& mode == SelectionMode::Full || position(allow_list(), api.classes[c].name) is Some
}

/// The selected classes among the first `upto`, in the order of the
/// description.
pub open spec fn selection(api: ApiModel, mode: SelectionMode, upto: nat) -> Seq<int>
    decreases upto,
{
    if upto == 0 {
        Seq::empty()
    } else if is_selected(api, mode, upto - 1) {
        selection(api, mode, (upto - 1) as nat).push(upto - 1)
    } else {
        selection(api, mode, (upto - 1) as nat)
    }
}

/// Whether one of the first `upto` constructors of `b` takes no argument.
pub open spec fn default_constructor_among(b: BuiltinModel, upto: nat) -> bool
    decreases upto,
{
    upto > 0 && (b.constructors[upto - 1].params.len() == 0 || default_constructor_among(
        b,
        (upto - 1) as nat,
    ))
}

/// Whether `b` can be constructed without arguments.
pub open spec fn has_default_constructor(b: BuiltinModel) -> bool {
    default_constructor_among(b, b.constructors.len())
}

/// The builtin types among the first `upto` that can be constructed
/// without arguments.
pub open spec fn default_constructible(api: ApiModel, upto: nat) -> Seq<int>
    decreases upto,
{
    if upto == 0 {
        Seq::empty()
    } else if has_default_constructor(api.builtin_classes[upto - 1]) {
        default_constructible(api, (upto - 1) as nat).push(upto - 1)
    } else {
        default_constructible(api, (upto - 1) as nat)
    }
}

/// A type reference with its representation.
#[derive(Clone, Debug, PartialEq, Eq)]
pub struct TypeEntry {
    pub name: String,
    pub ty: RustTy,
}

/// What a [`TypeEntry`] holds, as a mathematical value.
pub struct TypeEntryModel {
    pub name: Seq<char>,
    pub ty: RustTyModel,
}

impl DeepView for TypeEntry {
    type V = TypeEntryModel;

    open spec fn deep_view(&self) -> TypeEntryModel {
        TypeEntryModel { name: self.name@, ty: self.ty@ }
    }
}

/// The first position at or behind `from` at which `table` has an entry
/// for the type reference `name`.
pub open spec fn entry_from(table: Seq<TypeEntryModel>, name: Seq<char>, from: int) -> Option<int>
    decreases table.len() - from,
{
    if from < 0 || from >= table.len() {
        None
    } else if table[from].name == name {
        Some(from)
    } else {
        entry_from(table, name, from + 1)
    }
}

/// The table of the first `upto` type references of `refs`: each
/// reference that names something stands in it once, with its
/// representation, in the order in which the references are met.
pub open spec fn type_table(t: NameTables, refs: Seq<Seq<char>>, upto: nat) -> Seq<TypeEntryModel>
    decreases upto,
{
    if upto == 0 {
        Seq::empty()
    } else {
        let before = type_table(t, refs, (upto - 1) as nat);
        let name = refs[upto - 1];
        if entry_from(before, name, 0) is Some {
            before
        } else {
            match classify(t, name) {
                Some(ty) => before.push(TypeEntryModel { name, ty }),
                None => before,
            }
        }
    }
}

/// Whether every entry of the table holds what the declared names make of
/// its type reference.
pub open spec fn memo_sound(ctx: ContextModel) -> bool {
    forall|i: int|
        0 <= i < ctx.types.len() ==> classify(ctx.names, (#[trigger] ctx.types[i]).name) == Some(
            ctx.types[i].ty,
        )
}

/// What the type reference `ty` resolves to through a context: what the
/// table holds for it, and else what the declared names make of it.
pub open spec fn resolved(ctx: ContextModel, ty: Seq<char>) -> Option<RustTyModel> {
    match entry_from(ctx.types, ty, 0) {
        Some(i) => Some(ctx.types[i].ty),
        None => classify(ctx.names, ty),
    }
}

/// The builtin types that can be constructed without arguments are builtin
/// types of the description.
pub proof fn lemma_default_constructible(api: ApiModel, upto: nat)
    ensures
        forall|k: int|
            0 <= k < default_constructible(api, upto).len() ==> {
                0 <= #[trigger] default_constructible(api, upto)[k] < upto
            },
    decreases upto,
{
    if upto > 0 {
        lemma_default_constructible(api, (upto - 1) as nat);
        let before = default_constructible(api, (upto - 1) as nat);
        let now = default_constructible(api, upto);
        assert forall|k: int| 0 <= k < now.len() implies 0 <= #[trigger] now[k] < upto by {
            if k < before.len() {
                assert(now[k] == before[k]);
            }
        }
    }
}

/// What a [`Context`] holds, as a mathematical value.
pub struct ContextModel {
    pub mode: SelectionMode,
    pub names: NameTables,
    pub types: Seq<TypeEntryModel>,
    pub chains: Seq<Seq<int>>,
    pub virtuals: Seq<Seq<MethodSlot>>,
    pub selected: Seq<int>,
    pub default_constructible: Seq<int>,
}

/// The context of a description under a selection mode.
pub open spec fn context_of(api: ApiModel, mode: SelectionMode) -> ContextModel {
    ContextModel {
        mode,
        names: name_tables(api),
        types: type_table(name_tables(api), type_refs(api), type_refs(api).len()),
        chains: Seq::new(api.classes.len(), |c: int| chain(api, c)),
        virtuals: Seq::new(api.classes.len(), |c: int| virtual_set(api, c)),
        selected: selection(api, mode, api.classes.len()),
        default_constructible: default_constructible(api, api.builtin_classes.len()),
    }
}

/// The index over a description that the generators share.
#[derive(Clone, Debug, PartialEq, Eq)]
pub struct Context {
    pub mode: SelectionMode,
    /// The declared names, for lookup.
    pub names: NameIndex,
    /// The representation of each type reference that the description
    /// holds, worked out once.
    pub types: Vec<TypeEntry>,
    /// For each class its inheritance chain, from the root to the class.
    pub chains: Vec<Vec<usize>>,
    /// For each class its virtual methods, inherited ones included.
    pub virtuals: Vec<Vec<MethodRef>>,
    /// The classes for which bindings are generated.
    pub selected: Vec<usize>,
    /// The builtin types that can be constructed without arguments.
    pub default_constructible: Vec<usize>,
}

impl View for Context {
    type V = ContextModel;

    open spec fn view(&self) -> ContextModel {
        ContextModel {
            mode: self.mode,
            names: self.names@,
            types: self.types.deep_view(),
            chains: Seq::new(self.chains.len() as nat, |c: int| ints(self.chains[c]@)),
            virtuals: self.virtuals.deep_view(),
            selected: ints(self.selected@),
            default_constructible: ints(self.default_constructible@),
        }
    }
}

fn takes_no_argument(b: &BuiltinClassDef) -> (r: bool)
    ensures
        r == has_default_constructor(b.deep_view()),
{
    let n: usize = b.constructors.len();
    let mut k: usize = 0;
    while k < n
        invariant
            k <= n,
            n == b.constructors.len(),
            !default_constructor_among(b.deep_view(), k as nat),
        decreases n - k,
    {
        assert(b.deep_view().constructors[k as int] == b.constructors[k as int].deep_view());
        if b.constructors[k].params.len() == 0 {
            proof {
                lemma_default_constructor_found(b.deep_view(), (k + 1) as nat, n as nat);
            }
            return true;
        }
        k = k + 1;
    }
    false
}

proof fn lemma_default_constructor_found(b: BuiltinModel, k: nat, upto: nat)
    requires
        default_constructor_among(b, k),
        k <= upto,
    ensures
        default_constructor_among(b, upto),
    decreases upto,
{
    if k < upto {
        lemma_default_constructor_found(b, k, (upto - 1) as nat);
    }
}

fn find_entry(table: &Vec<TypeEntry>, name: &str) -> (r: Option<usize>)
    ensures
        match r {
            Some(i) => entry_from(table.deep_view(), name@, 0) == Some(i as int) && i
                < table.len(),
            None => entry_from(table.deep_view(), name@, 0) is None,
        },
{
    let n: usize = table.len();
    let mut i: usize = 0;
    while i < n
        invariant
            i <= n,
            n == table.len(),
            entry_from(table.deep_view(), name@, 0) == entry_from(
                table.deep_view(),
                name@,
                i as int,
            ),
        decreases n - i,
    {
        assert(table.deep_view()[i as int] == table[i as int].deep_view());
        if str_eq(table[i].name.as_str(), name) {
            return Some(i);
        }
        i = i + 1;
    }
    None
}

fn build_type_table(api: &ExtensionApi, names: &NameIndex) -> (r: Vec<TypeEntry>)
    ensures
        r.deep_view() == type_table(names@, type_refs(api@), type_refs(api@).len()),
{
    let refs = collect_type_refs(api);
    let mut table: Vec<TypeEntry> = Vec::new();
    let n: usize = refs.len();
    let mut i: usize = 0;
    assert(table.deep_view() =~= type_table(names@, refs.deep_view(), 0));
    while i < n
        invariant
            i <= n,
            n == refs.len(),
            table.deep_view() == type_table(names@, refs.deep_view(), i as nat),
        decreases n - i,
    {
        assert(refs.deep_view()[i as int] == refs[i as int]@);
        if find_entry(&table, refs[i].as_str()).is_none() {
            match names.classify(refs[i].as_str()) {
                Some(ty) => {
                    let entry = TypeEntry { name: refs[i].clone(), ty };
                    let ghost before = table.deep_view();
                    table.push(entry);
                    assert(table.deep_view() =~= before.push(entry.deep_view()));
                },
                None => {},
            }
        }
        i = i + 1;
    }
    table
}

/// Every entry of a type table holds what the declared names make of its
/// type reference.
pub proof fn lemma_type_table(t: NameTables, refs: Seq<Seq<char>>, upto: nat)
    ensures
        forall|i: int|
            0 <= i < type_table(t, refs, upto).len() ==> classify(
                t,
                (#[trigger] type_table(t, refs, upto)[i]).name,
            ) == Some(type_table(t, refs, upto)[i].ty),
    decreases upto,
{
    if upto > 0 {
        lemma_type_table(t, refs, (upto - 1) as nat);
    }
}

proof fn lemma_entry_from(table: Seq<TypeEntryModel>, name: Seq<char>, from: int)
    requires
        0 <= from,
    ensures
        entry_from(table, name, from) matches Some(i) ==> from <= i < table.len()
            && table[i].name == name,
    decreases table.len() - from,
{
    if from < table.len() && table[from].name != name {
        lemma_entry_from(table, name, from + 1);
    }
}

/// Through the context of a description a type reference resolves to what
/// the names of the description make of it, whether the table holds it or
/// not.
pub proof fn law_resolution_agrees_with_names(api: ApiModel, mode: SelectionMode, ty: Seq<char>)
    ensures
        resolved(context_of(api, mode), ty) == classify(name_tables(api), ty),
{
    let ctx = context_of(api, mode);
    lemma_type_table(name_tables(api), type_refs(api), type_refs(api).len());
    lemma_entry_from(ctx.types, ty, 0);
}

impl Context {
    /// Whether this is the context of `api`, and `api` is consistent.
    pub open spec fn represents(&self, api: ApiModel) -> bool {
        consistent(api) && self@ == context_of(api, self.mode)
    }

    /// What a context holds of the description that it represents.
    pub proof fn lemma_represents(&self, api: ApiModel)
        requires
            self.represents(api),
        ensures
            consistent(api),
            memo_sound(self@),
            self.names@ == name_tables(api),
            self.types.deep_view() == type_table(
                name_tables(api),
                type_refs(api),
                type_refs(api).len(),
            ),
            self.chains.len() == api.classes.len(),
            self.virtuals.len() == api.classes.len(),
            forall|c: int|
                0 <= c < api.classes.len() ==> ints(#[trigger] self.chains[c]@) == chain(api, c),
            forall|c: int|
                0 <= c < api.classes.len() ==> (#[trigger] self.virtuals[c]).deep_view()
                    == virtual_set(api, c),
            ints(self.selected@) == selection(api, self.mode, api.classes.len()),
            ints(self.default_constructible@) == default_constructible(
                api,
                api.builtin_classes.len(),
            ),
    {
        let model = context_of(api, self.mode);
        lemma_type_table(name_tables(api), type_refs(api), type_refs(api).len());
        assert(self@.chains.len() == self.chains.len());
        assert(model.chains.len() == api.classes.len());
        assert(self@.virtuals.len() == self.virtuals.len());
        assert(model.virtuals.len() == api.classes.len());
        assert forall|c: int| 0 <= c < api.classes.len() implies ints(
            #[trigger] self.chains[c]@,
        ) == chain(api, c) by {
            assert(self@.chains[c] == ints(self.chains[c]@));
            assert(model.chains[c] == chain(api, c));
        }
        assert forall|c: int| 0 <= c < api.classes.len() implies (
        #[trigger] self.virtuals[c]).deep_view() == virtual_set(api, c) by {
            assert(self@.virtuals[c] == self.virtuals[c].deep_view());
            assert(model.virtuals[c] == virtual_set(api, c));
        }
    }

    /// Builds the context of a description.
    pub fn build_from_api(api: &ExtensionApi, mode: SelectionMode) -> (ctx: Context)
        requires
            consistent(api@),
        ensures
            ctx.represents(api@),
            ctx.mode == mode,
    {
        let names = NameIndex::build(api);
        let types = build_type_table(api, &names);
        let allowed = selected_classes();
        let n: usize = api.classes.len();
        let mut chains: Vec<Vec<usize>> = Vec::new();
        let mut virtuals: Vec<Vec<MethodRef>> = Vec::new();
        let mut selected: Vec<usize> = Vec::new();
        let mut c: usize = 0;
        assert(ints(selected@) =~= selection(api@, mode, 0));
        while c < n
            invariant
                c <= n,
                n == api.classes.len(),
                names@ == name_tables(api@),
                allowed.deep_view() == allow_list(),
                chains.len() == c,
                virtuals.len() == c,
                forall|k: int| 0 <= k < c ==> ints(#[trigger] chains[k]@) == chain(api@, k),
                forall|k: int|
                    0 <= k < c ==> (#[trigger] virtuals[k]).deep_view() == virtual_set(api@, k),
                ints(selected@) == selection(api@, mode, c as nat),
            decreases n - c,
        {
            let ch = chain_within(api, &names, c, n);
            proof {
                lemma_chain_from(api@, c as int, n as nat);
                assert forall|k: int| 0 <= k < ch.len() implies ch[k] < api.classes.len() by {
                    assert(ints(ch@)[k] == ch[k] as int);
                }
            }
            let vs = flatten(api, &ch, true);
            chains.push(ch);
            virtuals.push(vs);
            assert(api@.classes[c as int] == api.classes[c as int].deep_view());
            let first = match find_name(&names.classes, api.classes[c].name.as_str()) {
                Some(i) => i == c,
                None => false,
            };
            let listed = match mode {
                SelectionMode::Full => true,
                SelectionMode::Minimal => find_name(
                    &allowed,
                    api.classes[c].name.as_str(),
                ).is_some(),
            };
            if first && listed {
                let ghost before = selected@;
                selected.push(c);
                assert(ints(selected@) =~= ints(before).push(c as int));
            }
            c = c + 1;
        }
        let nb: usize = api.builtin_classes.len();
        let mut constructible: Vec<usize> = Vec::new();
        let mut b: usize = 0;
        assert(ints(constructible@) =~= default_constructible(api@, 0));
        while b < nb
            invariant
                b <= nb,
                nb == api.builtin_classes.len(),
                ints(constructible@) == default_constructible(api@, b as nat),
            decreases nb - b,
        {
            assert(api@.builtin_classes[b as int] == api.builtin_classes[b as int].deep_view());
            if takes_no_argument(&api.builtin_classes[b]) {
                let ghost before = constructible@;
                constructible.push(b);
                assert(ints(constructible@) =~= ints(before).push(b as int));
            }
            b = b + 1;
        }
        let ctx = Context {
            mode,
            names,
            types,
            chains,
            virtuals,
            selected,
            default_constructible: constructible,
        };
        assert(ctx@.chains =~= context_of(api@, mode).chains);
        assert(ctx@.virtuals =~= context_of(api@, mode).virtuals);
        ctx
    }

    /// The position of the class `name` in the description.
    pub fn find_class(&self, name: &str) -> (r: Option<usize>)
        ensures
            match r {
                Some(i) => position(self@.names.classes, name@) == Some(i as int),
                None => position(self@.names.classes, name@) is None,
            },
    {
        find_name(&self.names.classes, name)
    }

    /// The representation of the type reference `ty`; `None` where it
    /// names nothing that the description declares. The answer is taken
    /// from the table where the table holds the reference; it depends on the
    /// reference and the context alone.
    pub fn to_rust_type(&self, ty: &str) -> (r: Option<RustTy>)
        ensures
            r.deep_view() == resolved(self@, ty@),
            memo_sound(self@) ==> r.deep_view() == classify(self@.names, ty@),
    {
        proof {
            lemma_entry_from(self@.types, ty@, 0);
        }
        match find_entry(&self.types, ty) {
            Some(i) => {
                assert(self@.types[i as int] == self.types[i as int].deep_view());
                Some(self.types[i].ty.duplicate())
            },
            None => self.names.classify(ty),
        }
    }

    /// The inheritance chain of class `c`, from the root to `c`.
    pub fn inheritance_chain(&self, c: usize) -> (r: &Vec<usize>)
        requires
            c < self@.chains.len(),
        ensures
            ints(r@) == self@.chains[c as int],
    {
        &self.chains[c]
    }

    /// The virtual methods of class `c`, inherited ones included.
    pub fn virtual_methods(&self, c: usize) -> (r: &Vec<MethodRef>)
        requires
            c < self@.virtuals.len(),
        ensures
            r.deep_view() == self@.virtuals[c as int],
    {
        &self.virtuals[c]
    }
}

/// Two resolutions of one type reference through one context agree, in the
/// kind of representation and in all that it carries.
pub proof fn law_resolution_repeats(
    ctx: ContextModel,
    ty: Seq<char>,
    first: Option<RustTyModel>,
    second: Option<RustTyModel>,
)
    requires
        first == resolved(ctx, ty),
        second == resolved(ctx, ty),
    ensures
        first == second,
{
}

} // verus!
