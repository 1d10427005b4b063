//! Single inheritance among the described classes: parents, chains from the
//! root, and the method sets that a class has together with its ancestors.

use vstd::prelude::*;
use crate::api_parser::{ApiModel, ExtensionApi, MethodDef, MethodModel};
use crate::names::{class_names, find_name, name_tables, position, lemma_position, NameIndex};

verus! {

/// The position of the class that class `c` names as its parent.
pub open spec fn parent_of(api: ApiModel, c: int) -> Option<int> {
    match api.classes[c].parent {
        Some(p) => position(class_names(api), p),
        None => None,
    }
}

/// Whether the walk from class `c` to ever older ancestors ends at a class
/// without parent after at most `fuel` steps.
pub open spec fn climbs_to_root(api: ApiModel, c: int, fuel: nat) -> bool
    decreases fuel,
{
    match parent_of(api, c) {
        None => true,
        Some(p) => fuel > 0 && climbs_to_root(api, p, (fuel - 1) as nat),
    }
}

/// Whether no class is its own ancestor: from every class a root is
/// reached within as many steps as there are classes.
pub open spec fn acyclic(api: ApiModel) -> bool {
    forall|c: int| 0 <= c < api.classes.len() ==> climbs_to_root(api, c, api.classes.len())
}

/// The classes from the oldest ancestor that `fuel` steps reach down to `c`.
pub open spec fn chain_from(api: ApiModel, c: int, fuel: nat) -> Seq<int>
    decreases fuel,
{
    match parent_of(api, c) {
        Some(p) => if fuel > 0 {
            chain_from(api, p, (fuel - 1) as nat).push(c)
        } else {
            seq![c]
        },
        None => seq![c],
    }
}

/// The inheritance chain of class `c`, from the root to `c` itself.
pub open spec fn chain(api: ApiModel, c: int) -> Seq<int> {
    chain_from(api, c, api.classes.len())
}

/// A chain ends with its class and holds positions of classes only.
pub proof fn lemma_chain_from(api: ApiModel, c: int, fuel: nat)
    requires
        0 <= c < api.classes.len(),
    ensures
        chain_from(api, c, fuel).len() >= 1,
        chain_from(api, c, fuel).len() <= fuel + 1,
        chain_from(api, c, fuel).last() == c,
        forall|k: int|
            0 <= k < chain_from(api, c, fuel).len() ==> 0 <= #[trigger] chain_from(
                api,
                c,
                fuel,
            )[k] < api.classes.len(),
    decreases fuel,
{
    match parent_of(api, c) {
        Some(p) => {
            lemma_position(class_names(api), api.classes[c].parent->Some_0);
            if fuel > 0 {
                lemma_chain_from(api, p, (fuel - 1) as nat);
            }
        },
        None => {},
    }
}

/// In a chain each class is the parent of the next.
pub proof fn law_chain_follows_parents(api: ApiModel, c: int, fuel: nat)
    ensures
        forall|k: int|
            0 <= k < chain_from(api, c, fuel).len() - 1 ==> parent_of(
                api,
                #[trigger] chain_from(api, c, fuel)[k + 1],
            ) == Some(chain_from(api, c, fuel)[k]),
    decreases fuel,
{
    match parent_of(api, c) {
        Some(p) => {
            if fuel > 0 {
                law_chain_follows_parents(api, p, (fuel - 1) as nat);
                lemma_chain_end(api, p, (fuel - 1) as nat);
                let older = chain_from(api, p, (fuel - 1) as nat);
                let all = chain_from(api, c, fuel);
                assert forall|k: int| 0 <= k < all.len() - 1 implies parent_of(
                    api,
                    #[trigger] all[k + 1],
                ) == Some(all[k]) by {
                    if k + 1 < older.len() {
                        assert(all[k + 1] == older[k + 1]);
                        assert(all[k] == older[k]);
                    }
                }
            }
        },
        None => {},
    }
}

proof fn lemma_chain_end(api: ApiModel, c: int, fuel: nat)
    ensures
        chain_from(api, c, fuel).len() >= 1,
        chain_from(api, c, fuel).last() == c,
    decreases fuel,
{
    match parent_of(api, c) {
        Some(p) => {
            if fuel > 0 {
                lemma_chain_end(api, p, (fuel - 1) as nat);
            }
        },
        None => {},
    }
}

/// Where the walk from a class reaches a root, its chain does not depend
/// on how many steps were allowed.
proof fn lemma_chain_fuel(api: ApiModel, c: int, fuel: nat, other: nat)
    requires
        climbs_to_root(api, c, fuel),
        climbs_to_root(api, c, other),
    ensures
        chain_from(api, c, fuel) == chain_from(api, c, other),
    decreases fuel,
{
    match parent_of(api, c) {
        Some(p) => {
            lemma_chain_fuel(api, p, (fuel - 1) as nat, (other - 1) as nat);
        },
        None => {},
    }
}

/// Where the walk from a class reaches a root, every class of its chain
/// has the front of the chain up to itself as its own chain.
proof fn lemma_chain_fronts(api: ApiModel, c: int, fuel: nat)
    requires
        climbs_to_root(api, c, fuel),
    ensures
        forall|k: int|
            0 <= k < chain_from(api, c, fuel).len() ==> {
                &&& climbs_to_root(api, #[trigger] chain_from(api, c, fuel)[k], k as nat)
                &&& chain_from(api, chain_from(api, c, fuel)[k], k as nat) == chain_from(
                    api,
                    c,
                    fuel,
                ).take(k + 1)
            },
    decreases fuel,
{
    let all = chain_from(api, c, fuel);
    match parent_of(api, c) {
        Some(p) => {
            let older = chain_from(api, p, (fuel - 1) as nat);
            lemma_chain_fronts(api, p, (fuel - 1) as nat);
            lemma_chain_end(api, p, (fuel - 1) as nat);
            let last = older.len() - 1;
            assert(older[last] == p);
            assert(older.take(last + 1) =~= older);
            assert forall|k: int| 0 <= k < all.len() implies {
                &&& climbs_to_root(api, #[trigger] all[k], k as nat)
                &&& chain_from(api, all[k], k as nat) == all.take(k + 1)
            } by {
                if k < older.len() {
                    assert(all[k] == older[k]);
                    assert(all.take(k + 1) =~= older.take(k + 1));
                } else {
                    assert(all[k] == c);
                    assert(climbs_to_root(api, p, last as nat));
                    assert(chain_from(api, p, last as nat) == older);
                    assert(all.take(k + 1) =~= all);
                }
            }
        },
        None => {
            assert(all.take(1) =~= all);
        },
    }
}

/// Where the walk from a class reaches a root, as it does from every
/// class of a description in which no class is its own ancestor, the chain
/// of the class starts at a class without parent and holds no class twice:
/// the classes form a forest.
pub proof fn law_chain_is_a_path(api: ApiModel, c: int, fuel: nat)
    requires
        climbs_to_root(api, c, fuel),
    ensures
        parent_of(api, chain_from(api, c, fuel)[0]) is None,
        forall|i: int, j: int|
            0 <= i < j < chain_from(api, c, fuel).len() ==> chain_from(api, c, fuel)[i]
                != chain_from(api, c, fuel)[j],
{
    let all = chain_from(api, c, fuel);
    lemma_chain_fronts(api, c, fuel);
    lemma_chain_end(api, c, fuel);
    assert(climbs_to_root(api, all[0], 0));
    assert forall|i: int, j: int| 0 <= i < j < all.len() implies all[i] != all[j] by {
        if all[i] == all[j] {
            lemma_chain_fuel(api, all[i], i as nat, j as nat);
            assert(all.take(i + 1).len() == all.take(j + 1).len());
        }
    }
}

/// The values of `v` as integers.
pub open spec fn ints(v: Seq<usize>) -> Seq<int> {
    Seq::new(v.len(), |i: int| v[i] as int)
}

/// Looks up the parent of class `c`.
pub fn parent_index(api: &ExtensionApi, names: &NameIndex, c: usize) -> (r: Option<usize>)
    requires
        names@ == name_tables(api@),
        c < api.classes.len(),
    ensures
        match r {
            Some(p) => parent_of(api@, c as int) == Some(p as int) && p < api.classes.len(),
            None => parent_of(api@, c as int) is None,
        },
{
    assert(api@.classes[c as int] == api.classes[c as int].deep_view());
    match &api.classes[c].parent {
        Some(p) => {
            proof {
                lemma_position(class_names(api@), p@);
            }
            find_name(&names.classes, p.as_str())
        },
        None => None,
    }
}

/// Tests whether class `c` reaches a root within `fuel` steps.
pub fn reaches_root(api: &ExtensionApi, names: &NameIndex, c: usize, fuel: usize) -> (r: bool)
    requires
        names@ == name_tables(api@),
        c < api.classes.len(),
    ensures
        r == climbs_to_root(api@, c as int, fuel as nat),
    decreases fuel,
{
    match parent_index(api, names, c) {
        None => true,
        Some(p) => fuel > 0 && reaches_root(api, names, p, fuel - 1),
    }
}

/// Computes the chain that `fuel` steps reach from class `c`.
pub fn chain_within(api: &ExtensionApi, names: &NameIndex, c: usize, fuel: usize) -> (r: Vec<
    usize,
>)
    requires
        names@ == name_tables(api@),
        c < api.classes.len(),
    ensures
        ints(r@) == chain_from(api@, c as int, fuel as nat),
    decreases fuel,
{
    match parent_index(api, names, c) {
        Some(p) => {
            if fuel > 0 {
                let mut v = chain_within(api, names, p, fuel - 1);
                let ghost before = v@;
                v.push(c);
                assert(ints(v@) =~= ints(before).push(c as int));
                v
            } else {
                let mut v: Vec<usize> = Vec::new();
                v.push(c);
                assert(ints(v@) =~= seq![c as int]);
                v
            }
        },
        None => {
            let mut v: Vec<usize> = Vec::new();
            v.push(c);
            assert(ints(v@) =~= seq![c as int]);
            v
        },
    }
}

/// A method by where it is declared: the position of its class, and its
/// position among the methods of that class.
#[derive(Clone, Copy, Debug, PartialEq, Eq, Structural)]
pub struct MethodRef {
    pub class: usize,
    pub method: usize,
}

/// What a [`MethodRef`] holds, as a mathematical value.
pub struct MethodSlot {
    pub class: int,
    pub method: int,
}

impl DeepView for MethodRef {
    type V = MethodSlot;

    open spec fn deep_view(&self) -> MethodSlot {
        MethodSlot { class: self.class as int, method: self.method as int }
    }
}

/// Whether `s` names a method of `api`.
pub open spec fn slot_in(api: ApiModel, s: MethodSlot) -> bool {
    &&& 0 <= s.class < api.classes.len()
    &&& 0 <= s.method < api.classes[s.class].methods.len()
}

/// Whether every entry of `slots` names a method of `api`.
pub open spec fn slots_in(api: ApiModel, slots: Seq<MethodSlot>) -> bool {
    forall|i: int| 0 <= i < slots.len() ==> slot_in(api, #[trigger] slots[i])
}

/// The method that `s` names.
pub open spec fn method_at(api: ApiModel, s: MethodSlot) -> MethodModel {
    api.classes[s.class].methods[s.method]
}

/// Whether one of two methods stands for the other in a method set: they
/// have the same name and, where `by_arity` is set, as many parameters.
pub open spec fn same_key(a: MethodModel, b: MethodModel, by_arity: bool) -> bool {
    a.name == b.name && (by_arity ==> a.params.len() == b.params.len())
}

/// The first position at or behind `from` whose method has the key of `m`.
pub open spec fn key_position_from(
    api: ApiModel,
    acc: Seq<MethodSlot>,
    m: MethodModel,
    by_arity: bool,
    from: int,
) -> Option<int>
    decreases acc.len() - from,
{
    if from < 0 || from >= acc.len() {
        None
    } else if same_key(method_at(api, acc[from]), m, by_arity) {
        Some(from)
    } else {
        key_position_from(api, acc, m, by_arity, from + 1)
    }
}

/// The first position in `acc` whose method has the key of `m`.
pub open spec fn key_position(
    api: ApiModel,
    acc: Seq<MethodSlot>,
    m: MethodModel,
    by_arity: bool,
) -> Option<int> {
    key_position_from(api, acc, m, by_arity, 0)
}

/// `key_position_from` answers with the least position that holds the key.
pub proof fn lemma_key_position_from(
    api: ApiModel,
    acc: Seq<MethodSlot>,
    m: MethodModel,
    by_arity: bool,
    from: int,
)
    requires
        0 <= from,
    ensures
        match key_position_from(api, acc, m, by_arity, from) {
            Some(i) => from <= i < acc.len() && same_key(method_at(api, acc[i]), m, by_arity)
                && forall|j: int|
                from <= j < i ==> !same_key(method_at(api, #[trigger] acc[j]), m, by_arity),
            None => forall|j: int|
                from <= j < acc.len() ==> !same_key(method_at(api, #[trigger] acc[j]), m, by_arity),
        },
    decreases acc.len() - from,
{
    if from < acc.len() && !same_key(method_at(api, acc[from]), m, by_arity) {
        lemma_key_position_from(api, acc, m, by_arity, from + 1);
    }
}

/// Enters the method `s` into the set `acc`: it takes the place of the
/// entry with its key, or comes last where there is none.
pub open spec fn merge_method(
    api: ApiModel,
    acc: Seq<MethodSlot>,
    s: MethodSlot,
    by_arity: bool,
) -> Seq<MethodSlot> {
    match key_position(api, acc, method_at(api, s), by_arity) {
        Some(i) => acc.update(i, s),
        None => acc.push(s),
    }
}

/// Enters the first `upto` methods of class `c` into `acc`, in the order of
/// their declaration. With `virtual_only` only the virtual methods are
/// entered, and a key is a name with a parameter count; without it every
/// method is entered, and a key is a name.
pub open spec fn merge_class(
    api: ApiModel,
    acc: Seq<MethodSlot>,
    c: int,
    upto: nat,
    virtual_only: bool,
) -> Seq<MethodSlot>
    decreases upto,
{
    if upto == 0 {
        acc
    } else {
        let before = merge_class(api, acc, c, (upto - 1) as nat, virtual_only);
        let s = MethodSlot { class: c, method: upto - 1 };
        if virtual_only && !method_at(api, s).is_virtual {
            before
        } else {
            merge_method(api, before, s, virtual_only)
        }
    }
}

/// The method set of the first `upto` classes of `chain`, older classes
/// entered first.
pub open spec fn merge_chain(
    api: ApiModel,
    chain: Seq<int>,
    upto: nat,
    virtual_only: bool,
) -> Seq<MethodSlot>
    decreases upto,
{
    if upto == 0 {
        Seq::empty()
    } else {
        let c = chain[upto - 1];
        merge_class(
            api,
            merge_chain(api, chain, (upto - 1) as nat, virtual_only),
            c,
            api.classes[c].methods.len(),
            virtual_only,
        )
    }
}

/// The virtual methods that class `c` has, its own and those of its
/// ancestors. A method of a class stands in place of the method of an
/// ancestor with the same name and parameter count.
pub open spec fn virtual_set(api: ApiModel, c: int) -> Seq<MethodSlot> {
    merge_chain(api, chain(api, c), chain(api, c).len(), true)
}

/// The methods that class `c` offers, its own and those of its ancestors.
/// A method of a class stands in place of the method of an ancestor with the
/// same name.
pub open spec fn exposed_methods(api: ApiModel, c: int) -> Seq<MethodSlot> {
    merge_chain(api, chain(api, c), chain(api, c).len(), false)
}

fn find_key(api: &ExtensionApi, acc: &Vec<MethodRef>, m: &MethodDef, by_arity: bool) -> (r:
    Option<usize>)
    requires
        slots_in(api@, acc.deep_view()),
    ensures
        match r {
            Some(i) => key_position(api@, acc.deep_view(), m.deep_view(), by_arity) == Some(
                i as int,
            ) && i < acc.len(),
            None => key_position(api@, acc.deep_view(), m.deep_view(), by_arity) is None,
        },
{
    let n: usize = acc.len();
    let mut i: usize = 0;
    while i < n
        invariant
            i <= n,
            n == acc.len(),
            slots_in(api@, acc.deep_view()),
            key_position(api@, acc.deep_view(), m.deep_view(), by_arity) == key_position_from(
                api@,
                acc.deep_view(),
                m.deep_view(),
                by_arity,
                i as int,
            ),
        decreases n - i,
    {
        let r = acc[i];
        assert(acc.deep_view()[i as int] == r.deep_view());
        assert(slot_in(api@, acc.deep_view()[i as int]));
        let other = &api.classes[r.class].methods[r.method];
        assert(api@.classes[r.class as int] == api.classes[r.class as int].deep_view());
        assert(method_at(api@, r.deep_view()) == other.deep_view());
        if other.name == m.name && (!by_arity || other.params.len() == m.params.len()) {
            return Some(i);
        }
        i = i + 1;
    }
    None
}

fn merge_class_methods(api: &ExtensionApi, acc: &mut Vec<MethodRef>, c: usize, virtual_only: bool)
    requires
        c < api.classes.len(),
        slots_in(api@, old(acc).deep_view()),
    ensures
        final(acc).deep_view() == merge_class(
            api@,
            old(acc).deep_view(),
            c as int,
            api@.classes[c as int].methods.len(),
            virtual_only,
        ),
        slots_in(api@, final(acc).deep_view()),
{
    let class = &api.classes[c];
    assert(api@.classes[c as int] == class.deep_view());
    let n: usize = class.methods.len();
    let mut j: usize = 0;
    while j < n
        invariant
            j <= n,
            n == class.methods.len(),
            c < api.classes.len(),
            class == &api.classes[c as int],
            api@.classes[c as int] == class.deep_view(),
            slots_in(api@, acc.deep_view()),
            acc.deep_view() == merge_class(
                api@,
                old(acc).deep_view(),
                c as int,
                j as nat,
                virtual_only,
            ),
        decreases n - j,
    {
        let m = &class.methods[j];
        let r = MethodRef { class: c, method: j };
        assert(method_at(api@, r.deep_view()) == m.deep_view());
        assert(slot_in(api@, r.deep_view()));
        if !virtual_only || m.is_virtual {
            let ghost before = acc.deep_view();
            match find_key(api, acc, m, virtual_only) {
                Some(i) => {
                    acc.set(i, r);
                    assert(acc.deep_view() =~= before.update(i as int, r.deep_view()));
                },
                None => {
                    acc.push(r);
                    assert(acc.deep_view() =~= before.push(r.deep_view()));
                },
            }
        }
        j = j + 1;
    }
}

/// Computes the method set of the classes of `chain`, older classes entered
/// first.
pub fn flatten(api: &ExtensionApi, chain: &Vec<usize>, virtual_only: bool) -> (r: Vec<MethodRef>)
    requires
        forall|k: int| 0 <= k < chain.len() ==> chain[k] < api.classes.len(),
    ensures
        r.deep_view() == merge_chain(api@, ints(chain@), chain.len() as nat, virtual_only),
        slots_in(api@, r.deep_view()),
{
    let mut acc: Vec<MethodRef> = Vec::new();
    assert(acc.deep_view() =~= Seq::<MethodSlot>::empty());
    let n: usize = chain.len();
    let mut k: usize = 0;
    while k < n
        invariant
            k <= n,
            n == chain.len(),
            forall|k: int| 0 <= k < chain.len() ==> chain[k] < api.classes.len(),
            slots_in(api@, acc.deep_view()),
            acc.deep_view() == merge_chain(api@, ints(chain@), k as nat, virtual_only),
        decreases n - k,
    {
        assert(ints(chain@)[k as int] == chain[k as int] as int);
        merge_class_methods(api, &mut acc, chain[k], virtual_only);
        k = k + 1;
    }
    acc
}

/// Whether no two entries of `acc` have the same key.
pub open spec fn distinct_keys(api: ApiModel, acc: Seq<MethodSlot>, by_arity: bool) -> bool {
    forall|i: int, k: int|
        0 <= i < acc.len() && 0 <= k < acc.len() && i != k ==> !same_key(
            method_at(api, #[trigger] acc[i]),
            method_at(api, #[trigger] acc[k]),
            by_arity,
        )
}

/// Whether `acc` holds, for the key of `m`, an entry declared by class `c`.
pub open spec fn holds_own(
    api: ApiModel,
    acc: Seq<MethodSlot>,
    c: int,
    m: MethodModel,
    by_arity: bool,
) -> bool {
    exists|i: int|
        0 <= i < acc.len() && (#[trigger] acc[i]).class == c && same_key(
            method_at(api, acc[i]),
            m,
            by_arity,
        )
}

proof fn lemma_merge_method_distinct(
    api: ApiModel,
    acc: Seq<MethodSlot>,
    s: MethodSlot,
    by_arity: bool,
)
    requires
        distinct_keys(api, acc, by_arity),
    ensures
        distinct_keys(api, merge_method(api, acc, s, by_arity), by_arity),
{
    let m = method_at(api, s);
    let out = merge_method(api, acc, s, by_arity);
    lemma_key_position_from(api, acc, m, by_arity, 0);
    match key_position(api, acc, m, by_arity) {
        Some(p) => {
            assert forall|i: int, k: int|
                0 <= i < out.len() && 0 <= k < out.len() && i != k implies !same_key(
                method_at(api, #[trigger] out[i]),
                method_at(api, #[trigger] out[k]),
                by_arity,
            ) by {
                if i == p {
                    assert(out[k] == acc[k]);
                    assert(!same_key(method_at(api, acc[p]), method_at(api, acc[k]), by_arity));
                } else if k == p {
                    assert(out[i] == acc[i]);
                    assert(!same_key(method_at(api, acc[i]), method_at(api, acc[p]), by_arity));
                } else {
                    assert(out[i] == acc[i] && out[k] == acc[k]);
                }
            }
        },
        None => {
            assert forall|i: int, k: int|
                0 <= i < out.len() && 0 <= k < out.len() && i != k implies !same_key(
                method_at(api, #[trigger] out[i]),
                method_at(api, #[trigger] out[k]),
                by_arity,
            ) by {
                if i == acc.len() {
                    assert(out[k] == acc[k]);
                } else if k == acc.len() {
                    assert(out[i] == acc[i]);
                } else {
                    assert(out[i] == acc[i] && out[k] == acc[k]);
                }
            }
        },
    }
}

proof fn lemma_merge_class_distinct(
    api: ApiModel,
    acc: Seq<MethodSlot>,
    c: int,
    upto: nat,
    virtual_only: bool,
)
    requires
        distinct_keys(api, acc, virtual_only),
    ensures
        distinct_keys(api, merge_class(api, acc, c, upto, virtual_only), virtual_only),
    decreases upto,
{
    if upto > 0 {
        lemma_merge_class_distinct(api, acc, c, (upto - 1) as nat, virtual_only);
        let before = merge_class(api, acc, c, (upto - 1) as nat, virtual_only);
        let s = MethodSlot { class: c, method: upto - 1 };
        lemma_merge_method_distinct(api, before, s, virtual_only);
    }
}

proof fn lemma_merge_chain_distinct(api: ApiModel, chain: Seq<int>, upto: nat, virtual_only: bool)
    ensures
        distinct_keys(api, merge_chain(api, chain, upto, virtual_only), virtual_only),
    decreases upto,
{
    if upto > 0 {
        lemma_merge_chain_distinct(api, chain, (upto - 1) as nat, virtual_only);
        let c = chain[upto - 1];
        lemma_merge_class_distinct(
            api,
            merge_chain(api, chain, (upto - 1) as nat, virtual_only),
            c,
            api.classes[c].methods.len(),
            virtual_only,
        );
    }
}

proof fn lemma_merge_method_own(
    api: ApiModel,
    acc: Seq<MethodSlot>,
    s: MethodSlot,
    m: MethodModel,
    by_arity: bool,
)
    requires
        holds_own(api, acc, s.class, m, by_arity) || same_key(method_at(api, s), m, by_arity),
    ensures
        holds_own(api, merge_method(api, acc, s, by_arity), s.class, m, by_arity),
{
    let out = merge_method(api, acc, s, by_arity);
    lemma_key_position_from(api, acc, method_at(api, s), by_arity, 0);
    match key_position(api, acc, method_at(api, s), by_arity) {
        Some(p) => {
            if same_key(method_at(api, s), m, by_arity) {
                assert(out[p] == s);
            } else {
                let i = choose|i: int|
                    0 <= i < acc.len() && (#[trigger] acc[i]).class == s.class && same_key(
                        method_at(api, acc[i]),
                        m,
                        by_arity,
                    );
                assert(i != p);
                assert(out[i] == acc[i]);
            }
        },
        None => {
            if same_key(method_at(api, s), m, by_arity) {
                assert(out[acc.len() as int] == s);
            } else {
                let i = choose|i: int|
                    0 <= i < acc.len() && (#[trigger] acc[i]).class == s.class && same_key(
                        method_at(api, acc[i]),
                        m,
                        by_arity,
                    );
                assert(out[i] == acc[i]);
            }
        },
    }
}

proof fn lemma_merge_class_own(
    api: ApiModel,
    acc: Seq<MethodSlot>,
    c: int,
    upto: nat,
    virtual_only: bool,
    j: int,
)
    requires
        0 <= j < upto,
        virtual_only ==> api.classes[c].methods[j].is_virtual,
    ensures
        holds_own(
            api,
            merge_class(api, acc, c, upto, virtual_only),
            c,
            api.classes[c].methods[j],
            virtual_only,
        ),
    decreases upto,
{
    let m = api.classes[c].methods[j];
    let before = merge_class(api, acc, c, (upto - 1) as nat, virtual_only);
    let s = MethodSlot { class: c, method: upto - 1 };
    if j < upto - 1 {
        lemma_merge_class_own(api, acc, c, (upto - 1) as nat, virtual_only, j);
        if !(virtual_only && !method_at(api, s).is_virtual) {
            lemma_merge_method_own(api, before, s, m, virtual_only);
        }
    } else {
        lemma_merge_method_own(api, before, s, m, virtual_only);
    }
}

/// Whether `set` holds exactly one entry with the key of `m`, and that
/// entry is declared by class `c`.
pub open spec fn one_entry_from(
    api: ApiModel,
    set: Seq<MethodSlot>,
    c: int,
    m: MethodModel,
    by_arity: bool,
) -> bool {
    exists|i: int|
        {
            &&& 0 <= i < set.len()
            &&& (#[trigger] set[i]).class == c
            &&& same_key(method_at(api, set[i]), m, by_arity)
            &&& forall|k: int|
                0 <= k < set.len() && same_key(method_at(api, #[trigger] set[k]), m, by_arity)
                    ==> k == i
        }
}

proof fn lemma_own_entry_is_the_one(api: ApiModel, c: int, j: int, virtual_only: bool)
    requires
        0 <= c < api.classes.len(),
        0 <= j < api.classes[c].methods.len(),
        virtual_only ==> api.classes[c].methods[j].is_virtual,
    ensures
        one_entry_from(
            api,
            merge_chain(api, chain(api, c), chain(api, c).len(), virtual_only),
            c,
            api.classes[c].methods[j],
            virtual_only,
        ),
{
    let ch = chain(api, c);
    let m = api.classes[c].methods[j];
    lemma_chain_from(api, c, api.classes.len());
    let set = merge_chain(api, ch, ch.len(), virtual_only);
    let older = merge_chain(api, ch, (ch.len() - 1) as nat, virtual_only);
    assert(ch[ch.len() - 1] == c);
    assert(set == merge_class(api, older, c, api.classes[c].methods.len(), virtual_only));
    lemma_merge_chain_distinct(api, ch, ch.len(), virtual_only);
    lemma_merge_class_own(api, older, c, api.classes[c].methods.len(), virtual_only, j);
    let i = choose|i: int|
        0 <= i < set.len() && (#[trigger] set[i]).class == c && same_key(
            method_at(api, set[i]),
            m,
            virtual_only,
        );
    assert forall|k: int|
        0 <= k < set.len() && same_key(
            method_at(api, #[trigger] set[k]),
            m,
            virtual_only,
        ) implies k == i by {
        if k != i {
            assert(!same_key(method_at(api, set[i]), method_at(api, set[k]), virtual_only));
        }
    }
}

/// A class that declares a virtual method has, in its virtual set, exactly
/// one method of that name and parameter count, and it is the class's own:
/// what an ancestor declares under the same name and count is not there.
pub proof fn law_override_wins(api: ApiModel, c: int, j: int)
    requires
        0 <= c < api.classes.len(),
        0 <= j < api.classes[c].methods.len(),
        api.classes[c].methods[j].is_virtual,
    ensures
        one_entry_from(api, virtual_set(api, c), c, api.classes[c].methods[j], true),
{
    lemma_own_entry_is_the_one(api, c, j, true);
}

/// Among the methods that a class offers there is, for each name that the
/// class itself declares, exactly one method, and it is the class's own.
pub proof fn law_local_method_wins(api: ApiModel, c: int, j: int)
    requires
        0 <= c < api.classes.len(),
        0 <= j < api.classes[c].methods.len(),
    ensures
        one_entry_from(api, exposed_methods(api, c), c, api.classes[c].methods[j], false),
{
    lemma_own_entry_is_the_one(api, c, j, false);
}

/// Whether class `c` is the first class of its name, the one that the name
/// stands for.
pub open spec fn first_of_its_name(api: ApiModel, c: int) -> bool {
    position(class_names(api), api.classes[c].name) == Some(c)
}

/// The chain of a class that its name stands for holds such classes only.
pub proof fn lemma_chain_classes(api: ApiModel, c: int, fuel: nat)
    requires
        0 <= c < api.classes.len(),
        first_of_its_name(api, c),
    ensures
        forall|k: int|
            0 <= k < chain_from(api, c, fuel).len() ==> {
                &&& 0 <= #[trigger] chain_from(api, c, fuel)[k] < api.classes.len()
                &&& first_of_its_name(api, chain_from(api, c, fuel)[k])
            },
    decreases fuel,
{
    match parent_of(api, c) {
        Some(p) => {
            lemma_position(class_names(api), api.classes[c].parent->Some_0);
            assert(class_names(api)[p] == api.classes[p].name);
            assert(first_of_its_name(api, p));
            if fuel > 0 {
                lemma_chain_classes(api, p, (fuel - 1) as nat);
                let older = chain_from(api, p, (fuel - 1) as nat);
                let all = chain_from(api, c, fuel);
                assert forall|k: int| 0 <= k < all.len() implies {
                    &&& 0 <= #[trigger] all[k] < api.classes.len()
                    &&& first_of_its_name(api, all[k])
                } by {
                    if k < older.len() {
                        assert(all[k] == older[k]);
                    }
                }
            }
        },
        None => {},
    }
}

/// Whether `s` names a method of one of the first `upto` classes of
/// `chain`.
pub open spec fn slot_of_chain(api: ApiModel, chain: Seq<int>, upto: nat, s: MethodSlot) -> bool {
    &&& 0 <= s.method < api.classes[s.class].methods.len()
    &&& exists|k: int| 0 <= k < upto && #[trigger] chain[k] == s.class
}

proof fn lemma_merge_class_slots(
    api: ApiModel,
    chain: Seq<int>,
    before: nat,
    acc: Seq<MethodSlot>,
    upto: nat,
    virtual_only: bool,
)
    requires
        before < chain.len(),
        upto <= api.classes[chain[before as int]].methods.len(),
        forall|i: int| 0 <= i < acc.len() ==> slot_of_chain(api, chain, before, #[trigger] acc[i]),
    ensures
        forall|i: int|
            0 <= i < merge_class(api, acc, chain[before as int], upto, virtual_only).len()
                ==> slot_of_chain(
                api,
                chain,
                before + 1,
                #[trigger] merge_class(api, acc, chain[before as int], upto, virtual_only)[i],
            ),
    decreases upto,
{
    let c = chain[before as int];
    if upto == 0 {
        assert forall|i: int| 0 <= i < acc.len() implies slot_of_chain(
            api,
            chain,
            before + 1,
            #[trigger] acc[i],
        ) by {
            assert(slot_of_chain(api, chain, before, acc[i]));
            let k = choose|k: int| 0 <= k < before && #[trigger] chain[k] == acc[i].class;
            assert(chain[k] == acc[i].class);
        }
    } else {
        lemma_merge_class_slots(api, chain, before, acc, (upto - 1) as nat, virtual_only);
        let older = merge_class(api, acc, c, (upto - 1) as nat, virtual_only);
        let s = MethodSlot { class: c, method: upto - 1 };
        let now = merge_class(api, acc, c, upto, virtual_only);
        assert(chain[before as int] == s.class);
        assert(slot_of_chain(api, chain, before + 1, s));
        lemma_key_position_from(api, older, method_at(api, s), virtual_only, 0);
        assert forall|i: int| 0 <= i < now.len() implies slot_of_chain(
            api,
            chain,
            before + 1,
            #[trigger] now[i],
        ) by {
            if now[i] != s {
                assert(now[i] == older[i]);
            }
        }
    }
}

/// A method set holds methods of the classes of its chain only.
pub proof fn lemma_merge_chain_slots(api: ApiModel, chain: Seq<int>, upto: nat, virtual_only: bool)
    requires
        upto <= chain.len(),
    ensures
        forall|i: int|
            0 <= i < merge_chain(api, chain, upto, virtual_only).len() ==> slot_of_chain(
                api,
                chain,
                upto,
                #[trigger] merge_chain(api, chain, upto, virtual_only)[i],
            ),
    decreases upto,
{
    if upto > 0 {
        lemma_merge_chain_slots(api, chain, (upto - 1) as nat, virtual_only);
        lemma_merge_class_slots(
            api,
            chain,
            (upto - 1) as nat,
            merge_chain(api, chain, (upto - 1) as nat, virtual_only),
            api.classes[chain[upto - 1]].methods.len(),
            virtual_only,
        );
    }
}

} // verus!
