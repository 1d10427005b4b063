//! The utilities generator: one free function for each utility function of
//! the engine, in one flat module.

use vstd::prelude::*;
use crate::api_parser::{ApiModel, ExtensionApi};
use crate::context::{memo_sound, Context};
use crate::names::name_tables;
use crate::names::lemma_position;
use crate::special_cases::{
    lemma_policy_without, policy_for, rule_matches, skips_method, utility_names, utility_scope,
    ExceptionTable, Policy, RuleModel,
};
use crate::util::{emit, FileModel, GeneratedFile, Tokens};
use crate::wrappers::{utility_tokens, utility_wrapper};

verus! {

/// The functions for the first `upto` utility functions, but for those
/// that a rule excludes. The rules for utility functions stand under the
/// class name `@GlobalScope`.
pub open spec fn utilities_tokens(api: ApiModel, rules: Seq<RuleModel>, upto: nat) -> Seq<
    Seq<char>,
>
    decreases upto,
{
    if upto == 0 {
        Seq::empty()
    } else {
        let u = api.utility_functions[upto - 1];
        if skips_method(rules, utility_scope(), u.name) {
            utilities_tokens(api, rules, (upto - 1) as nat)
        } else {
            utilities_tokens(api, rules, (upto - 1) as nat) + utility_tokens(
                name_tables(api),
                u,
                policy_for(rules, utility_scope(), Some(u.name)),
            )
        }
    }
}

/// The utilities file.
pub open spec fn utilities_file(api: ApiModel, rules: Seq<RuleModel>) -> FileModel {
    FileModel {
        path: "utilities.rs"@,
        tokens: utilities_tokens(api, rules, api.utility_functions.len()),
    }
}

/// Generates the utilities file.
pub fn generate_utilities_file(
    api: &ExtensionApi,
    ctx: &Context,
    rules: &ExceptionTable,
    out_files: &mut Vec<GeneratedFile>,
)
    requires
        ctx.represents(api@),
    ensures
        final(out_files).deep_view() == old(out_files).deep_view().push(
            utilities_file(api@, rules@),
        ),
{
    proof {
        ctx.lemma_represents(api@);
    }
    let mut tokens = Tokens::new();
    let n: usize = api.utility_functions.len();
    let mut i: usize = 0;
    assert(tokens@ =~= utilities_tokens(api@, rules@, 0));
    while i < n
        invariant
            i <= n,
            n == api.utility_functions.len(),
            ctx.names@ == name_tables(api@),
            memo_sound(ctx@),
            tokens@ == utilities_tokens(api@, rules@, i as nat),
        decreases n - i,
    {
        let u = &api.utility_functions[i];
        assert(api@.utility_functions[i as int] == u.deep_view());
        let policy = rules.method_policy("@GlobalScope", u.name.as_str());
        let excluded = match policy {
            Some(Policy::Skip) => true,
            _ => false,
        };
        if !excluded {
            let wrapper = utility_wrapper(ctx, u, policy);
            tokens.extend(&wrapper);
        }
        i = i + 1;
    }
    emit(out_files, "utilities.rs".to_owned(), tokens);
}

proof fn lemma_utilities_without(api: ApiModel, rules: Seq<RuleModel>, i: int, upto: nat)
    requires
        0 <= i < rules.len(),
        !rule_matches(api, rules[i]),
        upto <= api.utility_functions.len(),
    ensures
        utilities_tokens(api, rules.remove(i), upto) == utilities_tokens(api, rules, upto),
    decreases upto,
{
    if upto > 0 {
        lemma_utilities_without(api, rules, i, (upto - 1) as nat);
        let u = api.utility_functions[upto - 1];
        if rules[i].class == utility_scope() && rules[i].method == Some(u.name) {
            assert(utility_names(api)[upto - 1] == u.name);
            lemma_position(utility_names(api), u.name);
            assert(false);
        }
        lemma_policy_without(rules, i, utility_scope(), Some(u.name));
    }
}

/// A rule that names nothing that the description has changes nothing:
/// without it the same utilities file is generated.
pub proof fn law_unmatched_rule_changes_no_utility(api: ApiModel, rules: Seq<RuleModel>, i: int)
    requires
        0 <= i < rules.len(),
        !rule_matches(api, rules[i]),
    ensures
        utilities_file(api, rules.remove(i)) == utilities_file(api, rules),
{
    lemma_utilities_without(api, rules, i, api.utility_functions.len());
}

} // verus!
