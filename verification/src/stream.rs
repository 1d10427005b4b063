//! Assembles the generator's tokens into a token stream of the compiler's
//! kind, as `proc_macro2` offers it.

use proc_macro2::{Delimiter, Group, Ident, Literal, Punct, Spacing, Span, TokenStream, TokenTree};
use vstd::prelude::*;
use vstd::string::*;
use crate::util::{decimal, decimal_string, is_digit, is_lower, is_upper, str_eq, Tokens};
use crate::wrappers::quoted;

verus! {

/// The token stream of `proc_macro2`.
#[verifier::external_type_specification]
#[verifier::external_body]
pub struct ExTokenStream(proc_macro2::TokenStream);

/// The tokens that a stream holds, in order, each as its text: an
/// identifier as its name, a punctuation character as itself, a literal as it
/// is written. A group stands as its opening bracket, the tokens inside it,
/// and its closing bracket.
pub uninterp spec fn stream_tokens(stream: TokenStream) -> Seq<Seq<char>>;

/// The three kinds of brackets that form a group.
#[derive(Clone, Copy, Debug, PartialEq, Eq, Structural)]
pub enum Bracket {
    Round,
    Square,
    Curly,
}

pub open spec fn open_text(b: Bracket) -> Seq<char> {
    match b {
        Bracket::Round => "("@,
        Bracket::Square => "["@,
        Bracket::Curly => "{"@,
    }
}

pub open spec fn close_text(b: Bracket) -> Seq<char> {
    match b {
        Bracket::Round => ")"@,
        Bracket::Square => "]"@,
        Bracket::Curly => "}"@,
    }
}

/// Whether an identifier can begin with `c`: an ASCII letter or an
/// underscore.
pub open spec fn is_ident_start(c: char) -> bool {
    is_lower(c) || is_upper(c) || c == '_'
}

/// Whether `t` is an identifier of ASCII letters, digits and underscores,
/// more than the lone underscore.
pub open spec fn is_ascii_ident(t: Seq<char>) -> bool {
    &&& t.len() > 0
    &&& is_ident_start(t[0])
    &&& forall|i: int| 0 < i < t.len() ==> is_ident_start(#[trigger] t[i]) || is_digit(t[i])
    &&& !(t.len() == 1 && t[0] == '_')
}

/// Whether `c` is one of the characters that punctuation is made of.
pub open spec fn is_punct_char(c: char) -> bool {
    c == '!' || c == '#' || c == '$' || c == '%' || c == '&' || c == '\'' || c == '*' || c == '+'
        || c == ',' || c == '-' || c == '.' || c == '/' || c == ':' || c == ';' || c == '<' || c
        == '=' || c == '>' || c == '?' || c == '@' || c == '^' || c == '|' || c == '~'
}

/// Whether `t` is a run of punctuation characters.
pub open spec fn is_punctuation(t: Seq<char>) -> bool {
    t.len() > 0 && forall|i: int| 0 <= i < t.len() ==> is_punct_char(#[trigger] t[i])
}

/// Whether `c` stands for itself in a string literal: a printable ASCII
/// character other than the double quote and the backslash.
pub open spec fn is_plain_char(c: char) -> bool {
    ' ' <= c && c <= '~' && c != '"' && c != '\\'
}

/// Whether every character of `s` stands for itself in a string literal.
pub open spec fn is_plain_text(s: Seq<char>) -> bool {
    forall|i: int| 0 <= i < s.len() ==> is_plain_char(#[trigger] s[i])
}

/// Whether `t` is a string literal of plain text between double quotes.
pub open spec fn is_plain_string(t: Seq<char>) -> bool {
    &&& t.len() >= 2
    &&& t[0] == '"'
    &&& t[t.len() - 1] == '"'
    &&& is_plain_text(t.subrange(1, t.len() - 1))
}

/// The number that the first `upto` digits of `t` write.
pub open spec fn digits_value(t: Seq<char>, upto: nat) -> nat
    decreases upto,
{
    if upto == 0 {
        0
    } else {
        digits_value(t, (upto - 1) as nat) * 10 + (t[upto - 1] as nat - '0' as nat) as nat
    }
}

/// Whether `t` is the decimal numeral of a number below 2^64, without
/// leading zeros.
pub open spec fn is_numeral(t: Seq<char>) -> bool {
    &&& t.len() > 0
    &&& forall|i: int| 0 <= i < t.len() ==> is_digit(#[trigger] t[i])
    &&& digits_value(t, t.len()) <= u64::MAX
    &&& decimal(digits_value(t, t.len())) == t
}

/// What kind of token a text is.
pub enum TokenClass {
    Open(Bracket),
    Close(Bracket),
    Ident,
    /// A numeral, with its value.
    Number(u64),
    /// A string literal, with the text between its quotes.
    Text(Seq<char>),
    Punctuation,
    /// No token.
    Invalid,
}

/// The kind of token that `t` is: a bracket, an identifier, a numeral, a
/// string literal or punctuation.
pub open spec fn token_class(t: Seq<char>) -> TokenClass {
    if t == "("@ {
        TokenClass::Open(Bracket::Round)
    } else if t == "["@ {
        TokenClass::Open(Bracket::Square)
    } else if t == "{"@ {
        TokenClass::Open(Bracket::Curly)
    } else if t == ")"@ {
        TokenClass::Close(Bracket::Round)
    } else if t == "]"@ {
        TokenClass::Close(Bracket::Square)
    } else if t == "}"@ {
        TokenClass::Close(Bracket::Curly)
    } else if is_ascii_ident(t) {
        TokenClass::Ident
    } else if is_numeral(t) {
        TokenClass::Number(digits_value(t, t.len()) as u64)
    } else if is_plain_string(t) {
        TokenClass::Text(t.subrange(1, t.len() - 1))
    } else if is_punctuation(t) {
        TokenClass::Punctuation
    } else {
        TokenClass::Invalid
    }
}

/// The tokens that the stream holds for the token `t`: each character of a
/// run of punctuation by itself, any other token as it is.
pub open spec fn lexemes_of(t: Seq<char>) -> Seq<Seq<char>> {
    if token_class(t) is Punctuation {
        Seq::new(t.len(), |i: int| seq![t[i]])
    } else {
        seq![t]
    }
}

/// The tokens that the stream holds for the first `upto` tokens.
pub open spec fn lexemes(tokens: Seq<Seq<char>>, upto: nat) -> Seq<Seq<char>>
    decreases upto,
{
    if upto == 0 {
        Seq::empty()
    } else {
        lexemes(tokens, (upto - 1) as nat) + lexemes_of(tokens[upto - 1])
    }
}

/// The brackets that stand open behind the first `upto` tokens, outermost
/// first; `None` where one of the tokens is no token, or a closing bracket
/// does not close the bracket that was opened last.
pub open spec fn brackets_after(tokens: Seq<Seq<char>>, upto: nat) -> Option<Seq<Bracket>>
    decreases upto,
{
    if upto == 0 {
        Some(Seq::empty())
    } else {
        match brackets_after(tokens, (upto - 1) as nat) {
            Some(open) => match token_class(tokens[upto - 1]) {
                TokenClass::Open(b) => Some(open.push(b)),
                TokenClass::Close(b) => if open.len() > 0 && open.last() == b {
                    Some(open.drop_last())
                } else {
                    None::<Seq<Bracket>>
                },
                TokenClass::Invalid => None,
                _ => Some(open),
            },
            None => None,
        }
    }
}

/// The tokens of the stream that is assembled from `tokens`; `None` where
/// one of them is no token or the brackets do not match.
pub open spec fn assembled(tokens: Seq<Seq<char>>) -> Option<Seq<Seq<char>>> {
    match brackets_after(tokens, tokens.len()) {
        Some(open) => if open.len() == 0 {
            Some(lexemes(tokens, tokens.len()))
        } else {
            None
        },
        None => None,
    }
}

/// `TokenStream::new` of `proc_macro2`: a stream that holds no token.
#[verifier::external_body]
fn new_stream() -> (r: TokenStream)
    ensures
        stream_tokens(r) == Seq::<Seq<char>>::empty(),
{
    TokenStream::new()
}

/// `TokenStream::extend` of `proc_macro2`, with one stream: the tokens of
/// `other` are appended to those of `stream`, in their order.
#[verifier::external_body]
fn append(stream: &mut TokenStream, other: TokenStream)
    ensures
        stream_tokens(*final(stream)) == stream_tokens(*old(stream)) + stream_tokens(other),
{
    stream.extend(Some(other));
}

/// `Ident::new` of `proc_macro2`, as a stream: the stream of the one
/// identifier `name`. `Ident::new` panics on a string that is no
/// identifier; a string of ASCII letters, digits and underscores that begins
/// with no digit and is more than an underscore is one.
#[verifier::external_body]
fn ident_stream(name: &str) -> (r: TokenStream)
    requires
        is_ascii_ident(name@),
    ensures
        stream_tokens(r) == seq![name@],
{
    TokenStream::from(TokenTree::Ident(Ident::new(name, Span::call_site())))
}

/// `Punct::new` of `proc_macro2`, as a stream: the stream of the one
/// punctuation character `c`, which is joined to the token behind it where
/// `joint` is set. `Punct::new` panics on a character that is none of the
/// punctuation characters.
#[verifier::external_body]
fn punct_stream(c: char, joint: bool) -> (r: TokenStream)
    requires
        is_punct_char(c),
    ensures
        stream_tokens(r) == seq![seq![c]],
{
    let spacing = if joint { Spacing::Joint } else { Spacing::Alone };
    TokenStream::from(TokenTree::Punct(Punct::new(c, spacing)))
}

/// `Literal::u64_unsuffixed` of `proc_macro2`, as a stream: the stream of
/// the one literal that is the decimal numeral of `n`.
#[verifier::external_body]
fn number_stream(n: u64) -> (r: TokenStream)
    ensures
        stream_tokens(r) == seq![decimal(n as nat)],
{
    TokenStream::from(TokenTree::Literal(Literal::u64_unsuffixed(n)))
}

/// `Literal::string` of `proc_macro2`, as a stream: the stream of the one
/// string literal for `text`. The literal is written as `text` between
/// double quotes where no character of `text` needs an escape, which is so
/// for plain text.
#[verifier::external_body]
fn string_stream(text: &str) -> (r: TokenStream)
    requires
        is_plain_text(text@),
    ensures
        stream_tokens(r) == seq![quoted(text@)],
{
    TokenStream::from(TokenTree::Literal(Literal::string(text)))
}

/// `Group::new` of `proc_macro2`, as a stream: the stream of the one group
/// that holds the tokens of `inner` within the brackets `bracket`.
#[verifier::external_body]
fn group_stream(bracket: Bracket, inner: TokenStream) -> (r: TokenStream)
    ensures
        stream_tokens(r) == seq![open_text(bracket)] + stream_tokens(inner) + seq![
            close_text(bracket),
        ],
{
    let delimiter = match bracket {
        Bracket::Round => Delimiter::Parenthesis,
        Bracket::Square => Delimiter::Bracket,
        Bracket::Curly => Delimiter::Brace,
    };
    TokenStream::from(TokenTree::Group(Group::new(delimiter, inner)))
}

fn starts_ident(c: char) -> (r: bool)
    ensures
        r == is_ident_start(c),
{
    ('a' <= c && c <= 'z') || ('A' <= c && c <= 'Z') || c == '_'
}

fn is_identifier(t: &str) -> (r: bool)
    ensures
        r == is_ascii_ident(t@),
{
    let n: usize = t.unicode_len();
    if n == 0 {
        return false;
    }
    let first = t.get_char(0);
    if !starts_ident(first) || (n == 1 && first == '_') {
        return false;
    }
    let mut i: usize = 1;
    while i < n
        invariant
            1 <= i <= n,
            n == t@.len(),
            forall|k: int| 0 < k < i ==> is_ident_start(#[trigger] t@[k]) || is_digit(t@[k]),
        decreases n - i,
    {
        let c = t.get_char(i);
        if !(starts_ident(c) || ('0' <= c && c <= '9')) {
            return false;
        }
        i = i + 1;
    }
    true
}

fn punct_char(c: char) -> (r: bool)
    ensures
        r == is_punct_char(c),
{
    c == '!' || c == '#' || c == '$' || c == '%' || c == '&' || c == '\'' || c == '*' || c == '+'
        || c == ',' || c == '-' || c == '.' || c == '/' || c == ':' || c == ';' || c == '<' || c
        == '=' || c == '>' || c == '?' || c == '@' || c == '^' || c == '|' || c == '~'
}

fn is_punctuation_run(t: &str) -> (r: bool)
    ensures
        r == is_punctuation(t@),
{
    let n: usize = t.unicode_len();
    if n == 0 {
        return false;
    }
    let mut i: usize = 0;
    while i < n
        invariant
            i <= n,
            n == t@.len(),
            forall|k: int| 0 <= k < i ==> is_punct_char(#[trigger] t@[k]),
        decreases n - i,
    {
        if !punct_char(t.get_char(i)) {
            return false;
        }
        i = i + 1;
    }
    true
}

fn plain_string_text(t: &str) -> (r: Option<String>)
    ensures
        match r {
            Some(text) => is_plain_string(t@) && text@ == t@.subrange(1, t@.len() - 1),
            None => !is_plain_string(t@),
        },
{
    let n: usize = t.unicode_len();
    if n < 2 || t.get_char(0) != '"' || t.get_char(n - 1) != '"' {
        return None;
    }
    let ghost inner = t@.subrange(1, n - 1);
    let mut i: usize = 1;
    while i < n - 1
        invariant
            1 <= i <= n - 1,
            n == t@.len(),
            inner == t@.subrange(1, n - 1),
            forall|k: int| 0 <= k < i - 1 ==> is_plain_char(#[trigger] inner[k]),
        decreases n - i,
    {
        let c = t.get_char(i);
        assert(inner[i - 1] == c);
        if !(' ' <= c && c <= '~' && c != '"' && c != '\\') {
            return None;
        }
        i = i + 1;
    }
    Some(t.substring_char(1, n - 1).to_owned())
}

proof fn lemma_digits_grow(t: Seq<char>, i: nat, j: nat)
    requires
        i <= j <= t.len(),
        forall|k: int| 0 <= k < t.len() ==> is_digit(#[trigger] t[k]),
    ensures
        digits_value(t, i) <= digits_value(t, j),
    decreases j,
{
    if i < j {
        lemma_digits_grow(t, i, (j - 1) as nat);
        assert(is_digit(t[j - 1]));
    }
}

fn numeral_value(t: &str) -> (r: Option<u64>)
    ensures
        match r {
            Some(v) => is_numeral(t@) && v == digits_value(t@, t@.len()),
            None => !is_numeral(t@),
        },
{
    let n: usize = t.unicode_len();
    if n == 0 {
        return None;
    }
    let mut v: u64 = 0;
    let mut i: usize = 0;
    while i < n
        invariant
            i <= n,
            n == t@.len(),
            forall|k: int| 0 <= k < i ==> is_digit(#[trigger] t@[k]),
            v == digits_value(t@, i as nat),
        decreases n - i,
    {
        let c = t.get_char(i);
        if !('0' <= c && c <= '9') {
            return None;
        }
        let code: u8 = c as u8;
        let d: u64 = (code - 48) as u64;
        if v > (u64::MAX - d) / 10 {
            proof {
                if forall|k: int| 0 <= k < t@.len() ==> is_digit(#[trigger] t@[k]) {
                    lemma_digits_grow(t@, (i + 1) as nat, n as nat);
                }
            }
            return None;
        }
        v = v * 10 + d;
        i = i + 1;
    }
    let written = decimal_string(v);
    if str_eq(written.as_str(), t) {
        Some(v)
    } else {
        None
    }
}

/// What `classify_token` finds: the kind of a token, with what is needed to
/// append it.
enum Found {
    Open(Bracket),
    Close(Bracket),
    Ident,
    Number(u64),
    Text(String),
    Punctuation,
    Invalid,
}

impl Found {
    spec fn class(self) -> TokenClass {
        match self {
            Found::Open(b) => TokenClass::Open(b),
            Found::Close(b) => TokenClass::Close(b),
            Found::Ident => TokenClass::Ident,
            Found::Number(n) => TokenClass::Number(n),
            Found::Text(text) => TokenClass::Text(text@),
            Found::Punctuation => TokenClass::Punctuation,
            Found::Invalid => TokenClass::Invalid,
        }
    }
}

fn classify_token(t: &str) -> (r: Found)
    ensures
        r.class() == token_class(t@),
{
    if str_eq(t, "(") {
        return Found::Open(Bracket::Round);
    }
    if str_eq(t, "[") {
        return Found::Open(Bracket::Square);
    }
    if str_eq(t, "{") {
        return Found::Open(Bracket::Curly);
    }
    if str_eq(t, ")") {
        return Found::Close(Bracket::Round);
    }
    if str_eq(t, "]") {
        return Found::Close(Bracket::Square);
    }
    if str_eq(t, "}") {
        return Found::Close(Bracket::Curly);
    }
    if is_identifier(t) {
        return Found::Ident;
    }
    match numeral_value(t) {
        Some(n) => {
            return Found::Number(n);
        },
        None => {},
    }
    match plain_string_text(t) {
        Some(text) => {
            return Found::Text(text);
        },
        None => {},
    }
    if is_punctuation_run(t) {
        Found::Punctuation
    } else {
        Found::Invalid
    }
}

fn push_punctuation(stream: &mut TokenStream, t: &str)
    requires
        is_punctuation(t@),
    ensures
        stream_tokens(*final(stream)) == stream_tokens(*old(stream)) + Seq::new(
            t@.len(),
            |i: int| seq![t@[i]],
        ),
{
    let n: usize = t.unicode_len();
    let ghost all = Seq::new(t@.len(), |i: int| seq![t@[i]]);
    let mut i: usize = 0;
    assert(stream_tokens(*stream) =~= stream_tokens(*old(stream)) + all.subrange(0, 0));
    while i < n
        invariant
            i <= n,
            n == t@.len(),
            is_punctuation(t@),
            all == Seq::new(t@.len(), |i: int| seq![t@[i]]),
            stream_tokens(*stream) == stream_tokens(*old(stream)) + all.subrange(0, i as int),
        decreases n - i,
    {
        let c = t.get_char(i);
        append(stream, punct_stream(c, i + 1 < n));
        assert(all.subrange(0, i as int + 1) =~= all.subrange(0, i as int) + seq![seq![c]]);
        assert(stream_tokens(*stream) =~= stream_tokens(*old(stream)) + all.subrange(
            0,
            i as int + 1,
        ));
        i = i + 1;
    }
    assert(all.subrange(0, n as int) =~= all);
}

/// The tokens of the groups that stand open: for each of the first `upto`
/// of them, what stood before it and its opening bracket.
pub open spec fn pending(outer: Seq<TokenStream>, kinds: Seq<Bracket>, upto: nat) -> Seq<
    Seq<char>,
>
    decreases upto,
{
    if upto == 0 {
        Seq::empty()
    } else {
        pending(outer, kinds, (upto - 1) as nat) + stream_tokens(outer[upto - 1]) + seq![
            open_text(kinds[upto - 1]),
        ]
    }
}

proof fn lemma_pending_front(
    outer: Seq<TokenStream>,
    kinds: Seq<Bracket>,
    other_outer: Seq<TokenStream>,
    other_kinds: Seq<Bracket>,
    upto: nat,
)
    requires
        upto <= outer.len(),
        upto <= kinds.len(),
        upto <= other_outer.len(),
        upto <= other_kinds.len(),
        forall|k: int| 0 <= k < upto ==> outer[k] == other_outer[k] && kinds[k] == other_kinds[k],
    ensures
        pending(outer, kinds, upto) == pending(other_outer, other_kinds, upto),
    decreases upto,
{
    if upto > 0 {
        lemma_pending_front(outer, kinds, other_outer, other_kinds, (upto - 1) as nat);
    }
}

/// Assembles a token stream from `tokens`: brackets become groups, a run of
/// punctuation becomes its characters, joined. There is no stream where one
/// of the tokens is no token or the brackets do not match.
pub fn assemble(tokens: &Tokens) -> (r: Option<TokenStream>)
    ensures
        match r {
            Some(stream) => assembled(tokens@) == Some(stream_tokens(stream)),
            None => assembled(tokens@) is None,
        },
{
    let mut outer: Vec<TokenStream> = Vec::new();
    let mut kinds: Vec<Bracket> = Vec::new();
    let mut current = new_stream();
    let n: usize = tokens.items.len();
    let mut i: usize = 0;
    assert(pending(outer@, kinds@, 0) + stream_tokens(current) =~= lexemes(tokens@, 0));
    while i < n
        invariant
            i <= n,
            n == tokens.items.len(),
            outer.len() == kinds.len(),
            brackets_after(tokens@, i as nat) == Some(kinds@),
            pending(outer@, kinds@, kinds.len() as nat) + stream_tokens(current) == lexemes(
                tokens@,
                i as nat,
            ),
        decreases n - i,
    {
        let t = tokens.items[i].as_str();
        assert(tokens@[i as int] == t@);
        let ghost before = stream_tokens(current);
        let ghost held = pending(outer@, kinds@, kinds.len() as nat);
        match classify_token(t) {
            Found::Open(b) => {
                let ghost old_outer = outer@;
                let ghost old_kinds = kinds@;
                outer.push(current);
                kinds.push(b);
                current = new_stream();
                proof {
                    lemma_pending_front(
                        outer@,
                        kinds@,
                        old_outer,
                        old_kinds,
                        old_kinds.len() as nat,
                    );
                    assert(pending(outer@, kinds@, kinds.len() as nat) + stream_tokens(current)
                        =~= held + before + seq![t@]);
                }
            },
            Found::Close(b) => {
                if kinds.len() == 0 || kinds[kinds.len() - 1] != b {
                    proof {
                        lemma_stays_none(tokens@, (i + 1) as nat, n as nat);
                    }
                    return None;
                }
                let ghost old_outer = outer@;
                let ghost old_kinds = kinds@;
                let last: usize = kinds.len() - 1;
                kinds.pop();
                let mut parent = match outer.pop() {
                    Some(stream) => stream,
                    None => new_stream(),
                };
                let ghost parent_tokens = stream_tokens(parent);
                append(&mut parent, group_stream(b, current));
                current = parent;
                proof {
                    assert(kinds@ =~= old_kinds.drop_last());
                    lemma_pending_front(outer@, kinds@, old_outer, old_kinds, last as nat);
                    assert(held == pending(old_outer, old_kinds, last as nat) + parent_tokens
                        + seq![open_text(b)]);
                    assert(pending(outer@, kinds@, kinds.len() as nat) + stream_tokens(current)
                        =~= held + before + seq![t@]);
                }
            },
            Found::Ident => {
                append(&mut current, ident_stream(t));
                assert(held + stream_tokens(current) =~= held + before + seq![t@]);
            },
            Found::Number(v) => {
                append(&mut current, number_stream(v));
                assert(held + stream_tokens(current) =~= held + before + seq![t@]);
            },
            Found::Text(text) => {
                append(&mut current, string_stream(text.as_str()));
                assert(quoted(text@) =~= t@) by {
                    reveal_strlit("\"");
                }
                assert(held + stream_tokens(current) =~= held + before + seq![t@]);
            },
            Found::Punctuation => {
                push_punctuation(&mut current, t);
                assert(held + stream_tokens(current) =~= held + before + lexemes_of(t@));
            },
            Found::Invalid => {
                proof {
                    lemma_stays_none(tokens@, (i + 1) as nat, n as nat);
                }
                return None;
            },
        }
        i = i + 1;
    }
    if kinds.len() == 0 {
        assert(pending(outer@, kinds@, 0) =~= Seq::<Seq<char>>::empty());
        assert(stream_tokens(current) =~= lexemes(tokens@, n as nat));
        Some(current)
    } else {
        None
    }
}

proof fn lemma_stays_none(tokens: Seq<Seq<char>>, i: nat, upto: nat)
    requires
        i <= upto,
        brackets_after(tokens, i) is None,
    ensures
        brackets_after(tokens, upto) is None,
    decreases upto,
{
    if i < upto {
        lemma_stays_none(tokens, i, (upto - 1) as nat);
    }
}

} // verus!
