//! The exception table: hand-maintained rules that override, for single
//! classes and methods, what the generators derive from the description.

use vstd::prelude::*;
use crate::api_parser::{ApiModel, ExtensionApi, MethodDef, MethodModel, ParamDef, ParamModel};
use crate::inheritance::ints;
use crate::names::{class_names, position, position_from};
use crate::util::str_eq;

verus! {

/// Parameters and return type that take the place of a method's own.
#[derive(Clone, Debug, PartialEq, Eq)]
pub struct SignatureOverride {
    pub params: Vec<ParamDef>,
    pub return_type: Option<String>,
}

/// What a [`SignatureOverride`] holds, as a mathematical value.
pub struct SignatureModel {
    pub params: Seq<ParamModel>,
    pub return_type: Option<Seq<char>>,
}

impl DeepView for SignatureOverride {
    type V = SignatureModel;

    open spec fn deep_view(&self) -> SignatureModel {
        SignatureModel {
            params: self.params.deep_view(),
            return_type: self.return_type.deep_view(),
        }
    }
}

/// What a rule asks for.
#[derive(Clone, Debug, PartialEq, Eq)]
pub enum Policy {
    /// Nothing is generated.
    Skip,
    /// The wrapper gets another name.
    Rename(String),
    /// The wrapper gets another signature.
    ForceSignature(SignatureOverride),
    /// The method is generated as an override point.
    ForceVirtual,
    /// The method is generated as a direct call.
    ForceNonVirtual,
}

/// What a [`Policy`] holds, as a mathematical value.
pub enum PolicyModel {
    Skip,
    Rename(Seq<char>),
    ForceSignature(SignatureModel),
    ForceVirtual,
    ForceNonVirtual,
}

impl DeepView for Policy {
    type V = PolicyModel;

    open spec fn deep_view(&self) -> PolicyModel {
        match *self {
            Policy::Skip => PolicyModel::Skip,
            Policy::Rename(name) => PolicyModel::Rename(name@),
            Policy::ForceSignature(sig) => PolicyModel::ForceSignature(sig.deep_view()),
            Policy::ForceVirtual => PolicyModel::ForceVirtual,
            Policy::ForceNonVirtual => PolicyModel::ForceNonVirtual,
        }
    }
}

/// One rule: a policy for a class (`method` is `None`) or for one method of
/// a class.
#[derive(Clone, Debug, PartialEq, Eq)]
pub struct Rule {
    pub class: String,
    pub method: Option<String>,
    pub policy: Policy,
}

/// What a [`Rule`] holds, as a mathematical value.
pub struct RuleModel {
    pub class: Seq<char>,
    pub method: Option<Seq<char>>,
    pub policy: PolicyModel,
}

impl DeepView for Rule {
    type V = RuleModel;

    open spec fn deep_view(&self) -> RuleModel {
        RuleModel {
            class: self.class@,
            method: self.method.deep_view(),
            policy: self.policy.deep_view(),
        }
    }
}

/// The rules, in the order in which they are consulted. A rule that names a
/// class or method which the description lacks is never found, and so has no
/// effect.
#[derive(Clone, Debug, PartialEq, Eq)]
pub struct ExceptionTable {
    pub rules: Vec<Rule>,
}

impl DeepView for ExceptionTable {
    type V = Seq<RuleModel>;

    open spec fn deep_view(&self) -> Seq<RuleModel> {
        self.rules.deep_view()
    }
}

impl View for ExceptionTable {
    type V = Seq<RuleModel>;

    open spec fn view(&self) -> Seq<RuleModel> {
        self.rules.deep_view()
    }
}

/// The class under whose name the rules for utility functions stand.
pub open spec fn utility_scope() -> Seq<char> {
    "@GlobalScope"@
}

/// The position of the first rule at or behind `from` for this key.
pub open spec fn rule_from(
    rules: Seq<RuleModel>,
    class: Seq<char>,
    method: Option<Seq<char>>,
    from: int,
) -> Option<int>
    decreases rules.len() - from,
{
    if from < 0 || from >= rules.len() {
        None
    } else if rules[from].class == class && rules[from].method == method {
        Some(from)
    } else {
        rule_from(rules, class, method, from + 1)
    }
}

/// The policy of the first rule for this key.
pub open spec fn policy_for(
    rules: Seq<RuleModel>,
    class: Seq<char>,
    method: Option<Seq<char>>,
) -> Option<PolicyModel> {
    match rule_from(rules, class, method, 0) {
        Some(i) => Some(rules[i].policy),
        None => None,
    }
}

/// Whether the rules leave the class out.
pub open spec fn skips_class(rules: Seq<RuleModel>, class: Seq<char>) -> bool {
    policy_for(rules, class, None) == Some(PolicyModel::Skip)
}

/// Whether the rules leave the method out.
pub open spec fn skips_method(rules: Seq<RuleModel>, class: Seq<char>, method: Seq<char>) -> bool {
    policy_for(rules, class, Some(method)) == Some(PolicyModel::Skip)
}

fn key_matches(rule: &Rule, class: &str, method: Option<&str>) -> (r: bool)
    ensures
        r == (rule.class@ == class@ && rule.method.deep_view() == method.deep_view()),
{
    if !str_eq(rule.class.as_str(), class) {
        return false;
    }
    match (&rule.method, method) {
        (Some(a), Some(b)) => str_eq(a.as_str(), b),
        (None, None) => true,
        _ => false,
    }
}

impl ExceptionTable {
    /// The table without rules.
    pub fn new() -> (r: ExceptionTable)
        ensures
            r@ == Seq::<RuleModel>::empty(),
    {
        let r = ExceptionTable { rules: Vec::new() };
        assert(r@ =~= Seq::<RuleModel>::empty());
        r
    }

    fn find(&self, class: &str, method: Option<&str>) -> (r: Option<&Policy>)
        ensures
            r.deep_view() == policy_for(self@, class@, method.deep_view()),
    {
        let n: usize = self.rules.len();
        let mut i: usize = 0;
        while i < n
            invariant
                i <= n,
                n == self.rules.len(),
                rule_from(self@, class@, method.deep_view(), 0) == rule_from(
                    self@,
                    class@,
                    method.deep_view(),
                    i as int,
                ),
            decreases n - i,
        {
            assert(self@[i as int] == self.rules[i as int].deep_view());
            if key_matches(&self.rules[i], class, method) {
                return Some(&self.rules[i].policy);
            }
            i = i + 1;
        }
        None
    }

    /// The policy for a class as a whole.
    pub fn class_policy(&self, class: &str) -> (r: Option<&Policy>)
        ensures
            r.deep_view() == policy_for(self@, class@, None),
    {
        self.find(class, None)
    }

    /// The policy for one method of a class.
    pub fn method_policy(&self, class: &str, method: &str) -> (r: Option<&Policy>)
        ensures
            r.deep_view() == policy_for(self@, class@, Some(method@)),
    {
        self.find(class, Some(method))
    }

    /// Whether the class is left out.
    pub fn is_class_skipped(&self, class: &str) -> (r: bool)
        ensures
            r == skips_class(self@, class@),
    {
        match self.class_policy(class) {
            Some(Policy::Skip) => true,
            _ => false,
        }
    }

    /// Whether the method is left out.
    pub fn is_method_skipped(&self, class: &str, method: &str) -> (r: bool)
        ensures
            r == skips_method(self@, class@, method@),
    {
        match self.method_policy(class, method) {
            Some(Policy::Skip) => true,
            _ => false,
        }
    }
}

/// The names of `methods`, in their order.
pub open spec fn method_names(methods: Seq<MethodModel>) -> Seq<Seq<char>> {
    Seq::new(methods.len(), |j: int| methods[j].name)
}

/// The names of the utility functions, in the order of the description.
pub open spec fn utility_names(api: ApiModel) -> Seq<Seq<char>> {
    Seq::new(api.utility_functions.len(), |j: int| api.utility_functions[j].name)
}

/// Whether a rule names something that the description has: a class, a
/// method that its class declares, or, under the class name of the utility
/// functions, a utility function.
pub open spec fn rule_matches(api: ApiModel, rule: RuleModel) -> bool {
    ||| rule.class == utility_scope() && rule.method is Some && position(
        utility_names(api),
        rule.method->Some_0,
    ) is Some
    ||| match position(class_names(api), rule.class) {
        Some(c) => match rule.method {
            Some(name) => position(method_names(api.classes[c].methods), name) is Some,
            None => true,
        },
        None => false,
    }
}

/// The positions of those among the first `upto` rules that name nothing
/// that the description has. Such a rule has no effect.
pub open spec fn unmatched(api: ApiModel, rules: Seq<RuleModel>, upto: nat) -> Seq<int>
    decreases upto,
{
    if upto == 0 {
        Seq::empty()
    } else if rule_matches(api, rules[upto - 1]) {
        unmatched(api, rules, (upto - 1) as nat)
    } else {
        unmatched(api, rules, (upto - 1) as nat).push(upto - 1)
    }
}

fn declares_method(methods: &Vec<MethodDef>, name: &str) -> (r: bool)
    ensures
        r == position(method_names(methods.deep_view()), name@) is Some,
{
    let n: usize = methods.len();
    let mut j: usize = 0;
    while j < n
        invariant
            j <= n,
            n == methods.len(),
            position(method_names(methods.deep_view()), name@) == position_from(
                method_names(methods.deep_view()),
                name@,
                j as int,
            ),
        decreases n - j,
    {
        assert(methods.deep_view()[j as int] == methods[j as int].deep_view());
        if str_eq(methods[j].name.as_str(), name) {
            return true;
        }
        j = j + 1;
    }
    false
}

fn has_utility(api: &ExtensionApi, name: &str) -> (r: bool)
    ensures
        r == position(utility_names(api@), name@) is Some,
{
    let n: usize = api.utility_functions.len();
    let mut j: usize = 0;
    while j < n
        invariant
            j <= n,
            n == api.utility_functions.len(),
            position(utility_names(api@), name@) == position_from(
                utility_names(api@),
                name@,
                j as int,
            ),
        decreases n - j,
    {
        assert(api@.utility_functions[j as int] == api.utility_functions[j as int].deep_view());
        if str_eq(api.utility_functions[j].name.as_str(), name) {
            return true;
        }
        j = j + 1;
    }
    false
}

fn find_class_named(api: &ExtensionApi, name: &str) -> (r: Option<usize>)
    ensures
        match r {
            Some(c) => position(class_names(api@), name@) == Some(c as int) && c
                < api.classes.len(),
            None => position(class_names(api@), name@) is None,
        },
{
    let n: usize = api.classes.len();
    let mut c: usize = 0;
    while c < n
        invariant
            c <= n,
            n == api.classes.len(),
            position(class_names(api@), name@) == position_from(
                class_names(api@),
                name@,
                c as int,
            ),
        decreases n - c,
    {
        assert(api@.classes[c as int] == api.classes[c as int].deep_view());
        if str_eq(api.classes[c].name.as_str(), name) {
            return Some(c);
        }
        c = c + 1;
    }
    None
}

fn matches_description(api: &ExtensionApi, rule: &Rule) -> (r: bool)
    ensures
        r == rule_matches(api@, rule.deep_view()),
{
    let names_utility = match &rule.method {
        Some(name) => str_eq(rule.class.as_str(), "@GlobalScope") && has_utility(
            api,
            name.as_str(),
        ),
        None => false,
    };
    if names_utility {
        return true;
    }
    match find_class_named(api, rule.class.as_str()) {
        Some(c) => {
            assert(api@.classes[c as int] == api.classes[c as int].deep_view());
            match &rule.method {
                Some(name) => declares_method(&api.classes[c].methods, name.as_str()),
                None => true,
            }
        },
        None => false,
    }
}

impl ExceptionTable {
    /// The positions of the rules that name nothing that `api` has. They
    /// have no effect on what is generated from `api`; the caller reports
    /// them.
    pub fn unmatched_rules(&self, api: &ExtensionApi) -> (r: Vec<usize>)
        ensures
            ints(r@) == unmatched(api@, self@, self@.len()),
    {
        let mut out: Vec<usize> = Vec::new();
        let n: usize = self.rules.len();
        let mut i: usize = 0;
        assert(ints(out@) =~= unmatched(api@, self@, 0));
        while i < n
            invariant
                i <= n,
                n == self.rules.len(),
                ints(out@) == unmatched(api@, self@, i as nat),
            decreases n - i,
        {
            assert(self@[i as int] == self.rules[i as int].deep_view());
            if !matches_description(api, &self.rules[i]) {
                let ghost before = out@;
                out.push(i);
                assert(ints(out@) =~= ints(before).push(i as int));
            }
            i = i + 1;
        }
        out
    }
}

proof fn lemma_rule_from_behind(
    rules: Seq<RuleModel>,
    i: int,
    class: Seq<char>,
    method: Option<Seq<char>>,
    from: int,
)
    requires
        0 <= i < from <= rules.len(),
    ensures
        match rule_from(rules.remove(i), class, method, from - 1) {
            Some(j) => rule_from(rules, class, method, from) == Some(j + 1),
            None => rule_from(rules, class, method, from) is None,
        },
    decreases rules.len() - from,
{
    let rest = rules.remove(i);
    if from < rules.len() {
        assert(rest[from - 1] == rules[from]);
        lemma_rule_from_behind(rules, i, class, method, from + 1);
    }
}

proof fn lemma_rule_from_before(
    rules: Seq<RuleModel>,
    i: int,
    class: Seq<char>,
    method: Option<Seq<char>>,
    from: int,
)
    requires
        0 <= from <= i < rules.len(),
        !(rules[i].class == class && rules[i].method == method),
    ensures
        match rule_from(rules.remove(i), class, method, from) {
            Some(j) => rule_from(rules, class, method, from) matches Some(k) && rules[k]
                == rules.remove(i)[j],
            None => rule_from(rules, class, method, from) is None,
        },
    decreases i - from,
{
    let rest = rules.remove(i);
    if from < i {
        assert(rest[from] == rules[from]);
        lemma_rule_from_before(rules, i, class, method, from + 1);
    } else {
        lemma_rule_from_behind(rules, i, class, method, i + 1);
        match rule_from(rest, class, method, i) {
            Some(j) => {
                lemma_rule_from_bounds(rest, class, method, i);
                assert(rest[j] == rules[j + 1]);
            },
            None => {},
        }
    }
}

proof fn lemma_rule_from_bounds(
    rules: Seq<RuleModel>,
    class: Seq<char>,
    method: Option<Seq<char>>,
    from: int,
)
    requires
        0 <= from,
    ensures
        rule_from(rules, class, method, from) matches Some(i) ==> from <= i < rules.len(),
    decreases rules.len() - from,
{
    if from < rules.len() && !(rules[from].class == class && rules[from].method == method) {
        lemma_rule_from_bounds(rules, class, method, from + 1);
    }
}

/// A rule has no part in the policy for a key that is not its own.
pub proof fn lemma_policy_without(
    rules: Seq<RuleModel>,
    i: int,
    class: Seq<char>,
    method: Option<Seq<char>>,
)
    requires
        0 <= i < rules.len(),
        !(rules[i].class == class && rules[i].method == method),
    ensures
        policy_for(rules.remove(i), class, method) == policy_for(rules, class, method),
{
    lemma_rule_from_before(rules, i, class, method, 0);
}

} // verus!
