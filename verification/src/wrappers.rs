//! The tokens of one generated function: its name, parameters, return
//! clause and body.

use vstd::prelude::*;
use crate::api_parser::{
    MethodDef, MethodModel, ParamDef, ParamModel, UtilityFunctionDef, UtilityModel,
};
use crate::context::{memo_sound, Context};
use crate::names::{classify, NameTables};
use crate::special_cases::{Policy, PolicyModel, SignatureModel, SignatureOverride};
use crate::util::{decimal, decimal_string, Tokens};

verus! {

/// `s` between double quotes.
pub open spec fn quoted(s: Seq<char>) -> Seq<char> {
    "\""@ + s + "\""@
}

/// The tokens that name the type `ty`. A reference that names nothing is
/// written as it stands.
pub open spec fn type_tokens(t: NameTables, ty: Seq<char>) -> Seq<Seq<char>> {
    match classify(t, ty) {
        Some(r) => r.tokens(),
        None => seq![ty],
    }
}

/// The return clause for the return type `ret`; empty where nothing is
/// returned.
pub open spec fn return_tokens(t: NameTables, ret: Option<Seq<char>>) -> Seq<Seq<char>> {
    match ret {
        Some(r) => match classify(t, r) {
            Some(ty) => ty.return_decl(),
            None => seq!["->"@, r],
        },
        None => Seq::empty(),
    }
}

/// The first `upto` parameters, each as `name : type ,`.
pub open spec fn params_tokens(t: NameTables, params: Seq<ParamModel>, upto: nat) -> Seq<
    Seq<char>,
>
    decreases upto,
{
    if upto == 0 {
        Seq::empty()
    } else {
        params_tokens(t, params, (upto - 1) as nat) + seq![params[upto - 1].name, ":"@]
            + type_tokens(t, params[upto - 1].ty) + seq![","@]
    }
}

/// The parameter that takes the further arguments of a variadic function.
pub open spec fn varargs_tokens(is_vararg: bool) -> Seq<Seq<char>> {
    if is_vararg {
        seq!["varargs"@, ":"@, "&"@, "["@, "Variant"@, "]"@, ","@]
    } else {
        Seq::empty()
    }
}

/// How the hash of a signature is handed to the call layer.
pub open spec fn hash_tokens(hash: Option<u64>) -> Seq<Seq<char>> {
    match hash {
        Some(h) => seq!["Some"@, "("@, decimal(h as nat), ")"@],
        None => seq!["None"@],
    }
}

/// Whether the types of the first `upto` parameters all name something.
pub open spec fn params_resolve(t: NameTables, params: Seq<ParamModel>, upto: nat) -> bool
    decreases upto,
{
    upto == 0 || (params_resolve(t, params, (upto - 1) as nat) && classify(
        t,
        params[upto - 1].ty,
    ) is Some)
}

/// Whether every type of the signature names something.
pub open spec fn signature_resolves(t: NameTables, sig: SignatureModel) -> bool {
    &&& params_resolve(t, sig.params, sig.params.len())
    &&& sig.return_type matches Some(r) ==> classify(t, r) is Some
}

/// The signature that a wrapper gets: the one that the rule forces, where
/// there is such a rule and all its types name something; else the one of
/// the description.
pub open spec fn effective_signature(
    t: NameTables,
    params: Seq<ParamModel>,
    ret: Option<Seq<char>>,
    policy: Option<PolicyModel>,
) -> SignatureModel {
    match policy {
        Some(PolicyModel::ForceSignature(sig)) => if signature_resolves(t, sig) {
            sig
        } else {
            SignatureModel { params, return_type: ret }
        },
        _ => SignatureModel { params, return_type: ret },
    }
}

/// The name that a wrapper gets.
pub open spec fn emitted_name(name: Seq<char>, policy: Option<PolicyModel>) -> Seq<char> {
    match policy {
        Some(PolicyModel::Rename(n)) => n,
        _ => name,
    }
}

/// Whether a method is generated as an override point.
pub open spec fn emitted_as_virtual(m: MethodModel, policy: Option<PolicyModel>) -> bool {
    match policy {
        Some(PolicyModel::ForceVirtual) => true,
        Some(PolicyModel::ForceNonVirtual) => false,
        _ => m.is_virtual,
    }
}

/// The receiver of a method that is called directly.
pub open spec fn receiver_tokens(is_static: bool, is_const: bool) -> Seq<Seq<char>> {
    if is_static {
        Seq::empty()
    } else if is_const {
        seq!["&"@, "self"@, ","@]
    } else {
        seq!["&"@, "mut"@, "self"@, ","@]
    }
}

/// The parameter list and return clause of a wrapper, from the opening
/// bracket on.
pub open spec fn signature_tokens(
    t: NameTables,
    receiver: Seq<Seq<char>>,
    sig: SignatureModel,
    is_vararg: bool,
) -> Seq<Seq<char>> {
    seq!["("@] + receiver + params_tokens(t, sig.params, sig.params.len()) + varargs_tokens(
        is_vararg,
    ) + seq![")"@] + return_tokens(t, sig.return_type)
}

/// The body of a wrapper: one call of `callee` with what names the target,
/// and the hash.
pub open spec fn call_tokens(callee: Seq<char>, target: Seq<Seq<char>>, hash: Option<u64>) -> Seq<
    Seq<char>,
> {
    seq!["{"@, callee, "("@] + target + hash_tokens(hash) + seq![")"@, "}"@]
}

/// The function of the call layer that calls a method.
pub open spec fn method_callee(is_vararg: bool) -> Seq<char> {
    if is_vararg {
        "method_call_varargs"@
    } else {
        "method_call"@
    }
}

/// The function of the call layer that calls a utility function.
pub open spec fn utility_callee(is_vararg: bool) -> Seq<char> {
    if is_vararg {
        "utility_call_varargs"@
    } else {
        "utility_call"@
    }
}

/// The wrapper that calls the method `m` of class `owner` through the
/// engine's method table, by class name, method name and hash.
pub open spec fn direct_wrapper_tokens(
    t: NameTables,
    owner: Seq<char>,
    m: MethodModel,
    policy: Option<PolicyModel>,
) -> Seq<Seq<char>> {
    seq!["pub"@, "fn"@, emitted_name(m.name, policy)] + signature_tokens(
        t,
        receiver_tokens(m.is_static, m.is_const),
        effective_signature(t, m.params, m.return_type, policy),
        m.is_vararg,
    ) + call_tokens(
        method_callee(m.is_vararg),
        seq![quoted(owner), ","@, quoted(m.name), ","@],
        m.hash,
    )
}

/// The override point for the virtual method `m`: a declaration without
/// body, for the user to implement.
pub open spec fn virtual_wrapper_tokens(
    t: NameTables,
    m: MethodModel,
    policy: Option<PolicyModel>,
) -> Seq<Seq<char>> {
    seq!["fn"@, emitted_name(m.name, policy)] + signature_tokens(
        t,
        seq!["&"@, "mut"@, "self"@, ","@],
        effective_signature(t, m.params, m.return_type, policy),
        m.is_vararg,
    ) + seq![";"@]
}

/// The wrapper for the method `m` of class `owner`.
pub open spec fn wrapper_tokens(
    t: NameTables,
    owner: Seq<char>,
    m: MethodModel,
    policy: Option<PolicyModel>,
) -> Seq<Seq<char>> {
    if emitted_as_virtual(m, policy) {
        virtual_wrapper_tokens(t, m, policy)
    } else {
        direct_wrapper_tokens(t, owner, m, policy)
    }
}

/// The free function that calls the utility function `u`.
pub open spec fn utility_tokens(t: NameTables, u: UtilityModel, policy: Option<PolicyModel>) -> Seq<
    Seq<char>,
> {
    seq!["pub"@, "fn"@, emitted_name(u.name, policy)] + signature_tokens(
        t,
        Seq::empty(),
        effective_signature(t, u.params, u.return_type, policy),
        u.is_vararg,
    ) + call_tokens(utility_callee(u.is_vararg), seq![quoted(u.name), ","@], u.hash)
}

/// Puts `s` between double quotes.
pub fn quote_text(s: &str) -> (r: String)
    ensures
        r@ == quoted(s@),
{
    let mut out = "\"".to_owned();
    out.append(s);
    out.append("\"");
    out
}

fn push_type(ctx: &Context, ty: &str, out: &mut Tokens)
    requires
        memo_sound(ctx@),
    ensures
        final(out)@ == old(out)@ + type_tokens(ctx@.names, ty@),
{
    match ctx.to_rust_type(ty) {
        Some(r) => r.to_tokens(out),
        None => {
            out.push(ty);
            assert(out@ =~= old(out)@ + seq![ty@]);
        },
    }
}

fn push_return(ctx: &Context, ret: &Option<String>, out: &mut Tokens)
    requires
        memo_sound(ctx@),
    ensures
        final(out)@ == old(out)@ + return_tokens(ctx@.names, ret.deep_view()),
{
    match ret {
        Some(r) => match ctx.to_rust_type(r.as_str()) {
            Some(ty) => {
                let decl = ty.return_decl();
                out.extend(&decl);
            },
            None => {
                out.push("->");
                out.push(r.as_str());
                assert(out@ =~= old(out)@ + seq!["->"@, r@]);
            },
        },
        None => {
            assert(out@ =~= old(out)@ + Seq::<Seq<char>>::empty());
        },
    }
}

fn push_params(ctx: &Context, params: &Vec<ParamDef>, out: &mut Tokens)
    requires
        memo_sound(ctx@),
    ensures
        final(out)@ == old(out)@ + params_tokens(
            ctx@.names,
            params.deep_view(),
            params.len() as nat,
        ),
{
    let n: usize = params.len();
    let mut k: usize = 0;
    assert(out@ =~= old(out)@ + params_tokens(ctx@.names, params.deep_view(), 0));
    while k < n
        invariant
            k <= n,
            n == params.len(),
            memo_sound(ctx@),
            out@ == old(out)@ + params_tokens(ctx@.names, params.deep_view(), k as nat),
        decreases n - k,
    {
        let p = &params[k];
        assert(params.deep_view()[k as int] == p.deep_view());
        let ghost before = out@;
        out.push(p.name.as_str());
        out.push(":");
        push_type(ctx, p.ty.as_str(), out);
        out.push(",");
        assert(out@ =~= before + (seq![p.name@, ":"@] + type_tokens(ctx@.names, p.ty@) + seq![
            ","@,
        ]));
        assert(out@ =~= old(out)@ + params_tokens(
            ctx@.names,
            params.deep_view(),
            (k + 1) as nat,
        ));
        k = k + 1;
    }
}

fn push_varargs(is_vararg: bool, out: &mut Tokens)
    ensures
        final(out)@ == old(out)@ + varargs_tokens(is_vararg),
{
    if is_vararg {
        out.push("varargs");
        out.push(":");
        out.push("&");
        out.push("[");
        out.push("Variant");
        out.push("]");
        out.push(",");
    }
    assert(out@ =~= old(out)@ + varargs_tokens(is_vararg));
}

fn push_hash(hash: Option<u64>, out: &mut Tokens)
    ensures
        final(out)@ == old(out)@ + hash_tokens(hash),
{
    match hash {
        Some(h) => {
            let text = decimal_string(h);
            out.push("Some");
            out.push("(");
            out.push(text.as_str());
            out.push(")");
        },
        None => {
            out.push("None");
        },
    }
    assert(out@ =~= old(out)@ + hash_tokens(hash));
}

fn push_receiver(is_static: bool, is_const: bool, out: &mut Tokens)
    ensures
        final(out)@ == old(out)@ + receiver_tokens(is_static, is_const),
{
    if !is_static {
        out.push("&");
        if !is_const {
            out.push("mut");
        }
        out.push("self");
        out.push(",");
    }
    assert(out@ =~= old(out)@ + receiver_tokens(is_static, is_const));
}

/// Tests whether every type of a forced signature names something.
pub fn resolves(ctx: &Context, sig: &SignatureOverride) -> (r: bool)
    requires
        memo_sound(ctx@),
    ensures
        r == signature_resolves(ctx@.names, sig.deep_view()),
{
    let n: usize = sig.params.len();
    let mut k: usize = 0;
    while k < n
        invariant
            k <= n,
            n == sig.params.len(),
            memo_sound(ctx@),
            params_resolve(ctx@.names, sig.deep_view().params, k as nat),
        decreases n - k,
    {
        assert(sig.deep_view().params[k as int] == sig.params[k as int].deep_view());
        if ctx.to_rust_type(sig.params[k].ty.as_str()).is_none() {
            proof {
                if params_resolve(ctx@.names, sig.deep_view().params, n as nat) {
                    lemma_params_resolve_prefix(
                        ctx@.names,
                        sig.deep_view().params,
                        (k + 1) as nat,
                        n as nat,
                    );
                }
            }
            return false;
        }
        k = k + 1;
    }
    match &sig.return_type {
        Some(r) => ctx.to_rust_type(r.as_str()).is_some(),
        None => true,
    }
}

proof fn lemma_params_resolve_prefix(t: NameTables, params: Seq<ParamModel>, k: nat, upto: nat)
    requires
        k <= upto,
        params_resolve(t, params, upto),
    ensures
        params_resolve(t, params, k),
    decreases upto,
{
    if k < upto {
        lemma_params_resolve_prefix(t, params, k, (upto - 1) as nat);
    }
}

/// Whether a policy forces a signature that can be used.
fn forced_signature<'a>(ctx: &Context, policy: Option<&'a Policy>) -> (r: Option<
    &'a SignatureOverride,
>)
    requires
        memo_sound(ctx@),
    ensures
        match r {
            Some(sig) => policy.deep_view() == Some(PolicyModel::ForceSignature(sig.deep_view()))
                && signature_resolves(ctx@.names, sig.deep_view()),
            None => !(policy.deep_view() matches Some(PolicyModel::ForceSignature(sig))
                && signature_resolves(ctx@.names, sig)),
        },
{
    match policy {
        Some(Policy::ForceSignature(sig)) => {
            if resolves(ctx, sig) {
                Some(sig)
            } else {
                None
            }
        },
        _ => None,
    }
}

fn push_signature(
    ctx: &Context,
    is_static: bool,
    is_const: bool,
    params: &Vec<ParamDef>,
    ret: &Option<String>,
    is_vararg: bool,
    out: &mut Tokens,
)
    requires
        memo_sound(ctx@),
    ensures
        final(out)@ == old(out)@ + signature_tokens(
            ctx@.names,
            receiver_tokens(is_static, is_const),
            SignatureModel { params: params.deep_view(), return_type: ret.deep_view() },
            is_vararg,
        ),
{
    out.push("(");
    push_receiver(is_static, is_const, out);
    push_params(ctx, params, out);
    push_varargs(is_vararg, out);
    out.push(")");
    push_return(ctx, ret, out);
    assert(out@ =~= old(out)@ + signature_tokens(
        ctx@.names,
        receiver_tokens(is_static, is_const),
        SignatureModel { params: params.deep_view(), return_type: ret.deep_view() },
        is_vararg,
    ));
}

fn push_effective_signature(
    ctx: &Context,
    is_static: bool,
    is_const: bool,
    params: &Vec<ParamDef>,
    ret: &Option<String>,
    is_vararg: bool,
    policy: Option<&Policy>,
    out: &mut Tokens,
)
    requires
        memo_sound(ctx@),
    ensures
        final(out)@ == old(out)@ + signature_tokens(
            ctx@.names,
            receiver_tokens(is_static, is_const),
            effective_signature(
                ctx@.names,
                params.deep_view(),
                ret.deep_view(),
                policy.deep_view(),
            ),
            is_vararg,
        ),
{
    match forced_signature(ctx, policy) {
        Some(sig) => push_signature(ctx,
            is_static,
            is_const,
            &sig.params,
            &sig.return_type,
            is_vararg,
            out,
        ),
        None => push_signature(ctx, is_static, is_const, params, ret, is_vararg, out),
    }
}

/// The name under which a wrapper is generated.
pub fn wrapper_name<'a>(name: &'a str, policy: Option<&'a Policy>) -> (r: &'a str)
    ensures
        r@ == emitted_name(name@, policy.deep_view()),
{
    match policy {
        Some(Policy::Rename(n)) => n.as_str(),
        _ => name,
    }
}

/// Whether a method is generated as an override point.
pub fn is_emitted_as_virtual(m: &MethodDef, policy: Option<&Policy>) -> (r: bool)
    ensures
        r == emitted_as_virtual(m.deep_view(), policy.deep_view()),
{
    match policy {
        Some(Policy::ForceVirtual) => true,
        Some(Policy::ForceNonVirtual) => false,
        _ => m.is_virtual,
    }
}

fn push_call(callee: &str, target: &Tokens, hash: Option<u64>, out: &mut Tokens)
    ensures
        final(out)@ == old(out)@ + call_tokens(callee@, target@, hash),
{
    out.push("{");
    out.push(callee);
    out.push("(");
    out.extend(target);
    push_hash(hash, out);
    out.push(")");
    out.push("}");
    assert(out@ =~= old(out)@ + call_tokens(callee@, target@, hash));
}

fn method_target(owner: &str, name: &str) -> (r: Tokens)
    ensures
        r@ == seq![quoted(owner@), ","@, quoted(name@), ","@],
{
    let mut target = Tokens::new();
    let class_text = quote_text(owner);
    target.push(class_text.as_str());
    target.push(",");
    let method_text = quote_text(name);
    target.push(method_text.as_str());
    target.push(",");
    assert(target@ =~= seq![quoted(owner@), ","@, quoted(name@), ","@]);
    target
}

fn virtual_wrapper(ctx: &Context, m: &MethodDef, policy: Option<&Policy>) -> (r: Tokens)
    requires
        memo_sound(ctx@),
    ensures
        r@ == virtual_wrapper_tokens(ctx@.names, m.deep_view(), policy.deep_view()),
{
    let mut out = Tokens::new();
    out.push("fn");
    out.push(wrapper_name(m.name.as_str(), policy));
    assert(out@ =~= seq!["fn"@, emitted_name(m.name@, policy.deep_view())]);
    assert(receiver_tokens(false, false) =~= seq!["&"@, "mut"@, "self"@, ","@]);
    push_effective_signature(ctx,
        false,
        false,
        &m.params,
        &m.return_type,
        m.is_vararg,
        policy,
        &mut out,
    );
    out.push(";");
    out
}

fn direct_wrapper(ctx: &Context, owner: &str, m: &MethodDef, policy: Option<&Policy>) -> (r:
    Tokens)
    requires
        memo_sound(ctx@),
    ensures
        r@ == direct_wrapper_tokens(ctx@.names, owner@, m.deep_view(), policy.deep_view()),
{
    let mut out = Tokens::new();
    out.push("pub");
    out.push("fn");
    out.push(wrapper_name(m.name.as_str(), policy));
    assert(out@ =~= seq!["pub"@, "fn"@, emitted_name(m.name@, policy.deep_view())]);
    push_effective_signature(ctx,
        m.is_static,
        m.is_const,
        &m.params,
        &m.return_type,
        m.is_vararg,
        policy,
        &mut out,
    );
    let target = method_target(owner, m.name.as_str());
    let callee = if m.is_vararg {
        "method_call_varargs"
    } else {
        "method_call"
    };
    push_call(callee, &target, m.hash, &mut out);
    out
}

/// Writes the wrapper for the method `m` of class `owner`.
pub fn method_wrapper(ctx: &Context, owner: &str, m: &MethodDef, policy: Option<&Policy>) -> (r:
    Tokens)
    requires
        memo_sound(ctx@),
    ensures
        r@ == wrapper_tokens(ctx@.names, owner@, m.deep_view(), policy.deep_view()),
{
    if is_emitted_as_virtual(m, policy) {
        virtual_wrapper(ctx, m, policy)
    } else {
        direct_wrapper(ctx, owner, m, policy)
    }
}

/// Writes the free function for the utility function `u`.
pub fn utility_wrapper(ctx: &Context, u: &UtilityFunctionDef, policy: Option<&Policy>) -> (r:
    Tokens)
    requires
        memo_sound(ctx@),
    ensures
        r@ == utility_tokens(ctx@.names, u.deep_view(), policy.deep_view()),
{
    let mut out = Tokens::new();
    out.push("pub");
    out.push("fn");
    out.push(wrapper_name(u.name.as_str(), policy));
    assert(out@ =~= seq!["pub"@, "fn"@, emitted_name(u.name@, policy.deep_view())]);
    assert(receiver_tokens(true, false) =~= Seq::<Seq<char>>::empty());
    push_effective_signature(ctx,
        true,
        false,
        &u.params,
        &u.return_type,
        u.is_vararg,
        policy,
        &mut out,
    );
    let mut target = Tokens::new();
    let name_text = quote_text(u.name.as_str());
    target.push(name_text.as_str());
    target.push(",");
    assert(target@ =~= seq![quoted(u.name@), ","@]);
    let callee = if u.is_vararg {
        "utility_call_varargs"
    } else {
        "utility_call"
    };
    push_call(callee, &target, u.hash, &mut out);
    out
}

} // verus!
