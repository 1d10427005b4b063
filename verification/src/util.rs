//! Text helpers on names: comparison, prefixes, splitting, decimal numerals
//! and the module-name spelling of a class name.

use vstd::prelude::*;
use vstd::string::*;

verus! {

/// Tests two string slices for equal contents.
pub fn str_eq(a: &str, b: &str) -> (r: bool)
    ensures
        r == (a@ == b@),
{
    a.to_owned() == b.to_owned()
}

/// Whether `s` begins with `prefix`.
pub open spec fn has_prefix(s: Seq<char>, prefix: Seq<char>) -> bool {
    prefix.len() <= s.len() && s.subrange(0, prefix.len() as int) == prefix
}

/// What is left of `s` behind `prefix`, where `s` begins with it.
pub open spec fn without_prefix(s: Seq<char>, prefix: Seq<char>) -> Option<Seq<char>> {
    if has_prefix(s, prefix) {
        Some(s.subrange(prefix.len() as int, s.len() as int))
    } else {
        None
    }
}

/// Tests whether `s` begins with `prefix`.
pub fn starts_with(s: &str, prefix: &str) -> (r: bool)
    ensures
        r == has_prefix(s@, prefix@),
{
    let n: usize = s.unicode_len();
    let m: usize = prefix.unicode_len();
    if m > n {
        return false;
    }
    let mut i: usize = 0;
    while i < m
        invariant
            i <= m <= n,
            n == s@.len(),
            m == prefix@.len(),
            forall|k: int| 0 <= k < i ==> s@[k] == prefix@[k],
        decreases m - i,
    {
        if s.get_char(i) != prefix.get_char(i) {
            assert(s@.subrange(0, m as int)[i as int] == s@[i as int]);
            return false;
        }
        i = i + 1;
    }
    assert(s@.subrange(0, m as int) =~= prefix@);
    true
}

/// Cuts `prefix` off the front of `s`; `None` where `s` does not begin with it.
pub fn strip_prefix(s: &str, prefix: &str) -> (r: Option<String>)
    ensures
        r.deep_view() == without_prefix(s@, prefix@),
{
    if starts_with(s, prefix) {
        let n: usize = s.unicode_len();
        let m: usize = prefix.unicode_len();
        Some(s.substring_char(m, n).to_owned())
    } else {
        None
    }
}

/// The position of the first `c` in `s` at or behind `from`.
pub open spec fn find_from(s: Seq<char>, c: char, from: int) -> Option<int>
    decreases s.len() - from,
{
    if from < 0 || from >= s.len() {
        None
    } else if s[from] == c {
        Some(from)
    } else {
        find_from(s, c, from + 1)
    }
}

/// The position of the first `c` in `s`.
pub open spec fn find_char(s: Seq<char>, c: char) -> Option<int> {
    find_from(s, c, 0)
}

/// The two parts of `s` around its first `c`, where it holds one.
pub open spec fn split_at_char(s: Seq<char>, c: char) -> Option<(Seq<char>, Seq<char>)> {
    match find_char(s, c) {
        Some(i) => Some((s.subrange(0, i), s.subrange(i + 1, s.len() as int))),
        None => None,
    }
}

/// Splits `s` around its first `c`; `None` where `s` holds no `c`.
pub fn split_once(s: &str, c: char) -> (r: Option<(String, String)>)
    ensures
        r.deep_view() == split_at_char(s@, c),
{
    let n: usize = s.unicode_len();
    let mut i: usize = 0;
    while i < n
        invariant
            i <= n,
            n == s@.len(),
            find_char(s@, c) == find_from(s@, c, i as int),
        decreases n - i,
    {
        if s.get_char(i) == c {
            let head = s.substring_char(0, i).to_owned();
            let tail = s.substring_char(i + 1, n).to_owned();
            return Some((head, tail));
        }
        i = i + 1;
    }
    None
}

/// The numeral of one decimal digit.
pub open spec fn digit_text(d: nat) -> Seq<char> {
    if d == 0 {
        "0"@
    } else if d == 1 {
        "1"@
    } else if d == 2 {
        "2"@
    } else if d == 3 {
        "3"@
    } else if d == 4 {
        "4"@
    } else if d == 5 {
        "5"@
    } else if d == 6 {
        "6"@
    } else if d == 7 {
        "7"@
    } else if d == 8 {
        "8"@
    } else {
        "9"@
    }
}

/// The decimal numeral of `n`, without leading zeros.
pub open spec fn decimal(n: nat) -> Seq<char>
    decreases n,
{
    if n < 10 {
        digit_text(n)
    } else {
        decimal(n / 10) + digit_text(n % 10)
    }
}

fn digit_str(d: u64) -> (r: &'static str)
    requires
        d < 10,
    ensures
        r@ == digit_text(d as nat),
{
    if d == 0 {
        "0"
    } else if d == 1 {
        "1"
    } else if d == 2 {
        "2"
    } else if d == 3 {
        "3"
    } else if d == 4 {
        "4"
    } else if d == 5 {
        "5"
    } else if d == 6 {
        "6"
    } else if d == 7 {
        "7"
    } else if d == 8 {
        "8"
    } else {
        "9"
    }
}

/// Writes `n` as a decimal numeral.
pub fn decimal_string(n: u64) -> (r: String)
    ensures
        r@ == decimal(n as nat),
    decreases n,
{
    if n < 10 {
        digit_str(n).to_owned()
    } else {
        let mut s = decimal_string(n / 10);
        s.append(digit_str(n % 10));
        s
    }
}

/// Whether `c` is an ASCII capital.
pub open spec fn is_upper(c: char) -> bool {
    'A' <= c && c <= 'Z'
}

/// Whether `c` is an ASCII small letter.
pub open spec fn is_lower(c: char) -> bool {
    'a' <= c && c <= 'z'
}

/// Whether `c` is an ASCII digit.
pub open spec fn is_digit(c: char) -> bool {
    '0' <= c && c <= '9'
}

/// The lower-case form of an ASCII capital; any other character is kept.
pub open spec fn lower(c: char) -> char {
    if is_upper(c) {
        ((c as u8) + 32) as char
    } else {
        c
    }
}

/// Whether a word starts at `s[i]`: a capital behind a small letter, or a
/// digit behind a letter.
pub open spec fn word_starts(s: Seq<char>, i: int) -> bool {
    &&& 0 < i < s.len()
    &&& {
        ||| is_upper(s[i]) && is_lower(s[i - 1])
        ||| is_digit(s[i]) && (is_lower(s[i - 1]) || is_upper(s[i - 1]))
    }
}

/// The module-name spelling of the first `n` characters of `s`.
pub open spec fn snake_prefix(s: Seq<char>, n: nat) -> Seq<char>
    decreases n,
{
    if n == 0 {
        Seq::empty()
    } else {
        let head = snake_prefix(s, (n - 1) as nat);
        let c = s[n - 1];
        if word_starts(s, n - 1) {
            head.push('_').push(lower(c))
        } else {
            head.push(lower(c))
        }
    }
}

/// The module-name spelling of a class name: ASCII capitals become small
/// letters, and an underscore parts the words (`Node2D` gives `node_2d`).
pub open spec fn snake_case(s: Seq<char>) -> Seq<char> {
    snake_prefix(s, s.len())
}

/// The text of the small letter for the capital `c`.
fn lower_text(c: char) -> (r: &'static str)
    requires
        is_upper(c),
    ensures
        r@ == seq![lower(c)],
{
    let alphabet = "abcdefghijklmnopqrstuvwxyz";
    proof {
        reveal_strlit("abcdefghijklmnopqrstuvwxyz");
    }
    let code: u8 = c as u8;
    let k: usize = (code - 65) as usize;
    let r = alphabet.substring_char(k, k + 1);
    assert(r@ =~= seq![lower(c)]);
    r
}

/// Spells a class name as a module name.
pub fn to_snake_case(s: &str) -> (r: String)
    ensures
        r@ == snake_case(s@),
{
    let n: usize = s.unicode_len();
    let mut out = String::new();
    let mut i: usize = 0;
    while i < n
        invariant
            i <= n,
            n == s@.len(),
            out@ == snake_prefix(s@, i as nat),
        decreases n - i,
    {
        let c = s.get_char(i);
        let upper = 'A' <= c && c <= 'Z';
        let ghost before = out@;
        if i > 0 {
            let prev = s.get_char(i - 1);
            let prev_lower = 'a' <= prev && prev <= 'z';
            let prev_upper = 'A' <= prev && prev <= 'Z';
            let digit = '0' <= c && c <= '9';
            if (upper && prev_lower) || (digit && (prev_lower || prev_upper)) {
                proof {
                    reveal_strlit("_");
                }
                out.append("_");
                assert(out@ =~= before.push('_'));
            }
        }
        let ghost parted = out@;
        if upper {
            out.append(lower_text(c));
        } else {
            out.append(s.substring_char(i, i + 1));
        }
        assert(out@ =~= parted.push(lower(c)));
        i = i + 1;
    }
    out
}

/// The tokens of a piece of generated source, in order.
#[derive(Clone, Debug, PartialEq, Eq)]
pub struct Tokens {
    pub items: Vec<String>,
}

impl View for Tokens {
    type V = Seq<Seq<char>>;

    open spec fn view(&self) -> Seq<Seq<char>> {
        self.items.deep_view()
    }
}

impl DeepView for Tokens {
    type V = Seq<Seq<char>>;

    open spec fn deep_view(&self) -> Seq<Seq<char>> {
        self.items.deep_view()
    }
}

/// The tokens of `toks[0..n]`, each followed by one space.
pub open spec fn spaced(toks: Seq<Seq<char>>, n: nat) -> Seq<char>
    decreases n,
{
    if n == 0 {
        Seq::empty()
    } else {
        spaced(toks, (n - 1) as nat) + toks[n - 1] + " "@
    }
}

/// The source text of a token sequence: every token followed by one space.
pub open spec fn source_text(toks: Seq<Seq<char>>) -> Seq<char> {
    spaced(toks, toks.len())
}

impl Tokens {
    /// The empty stream.
    pub fn new() -> (r: Tokens)
        ensures
            r@ == Seq::<Seq<char>>::empty(),
    {
        let r = Tokens { items: Vec::new() };
        assert(r@ =~= Seq::<Seq<char>>::empty());
        r
    }

    /// The stream of one token.
    pub fn single(t: &str) -> (r: Tokens)
        ensures
            r@ == seq![t@],
    {
        let mut r = Tokens::new();
        r.push(t);
        assert(r@ =~= seq![t@]);
        r
    }

    /// Appends one token.
    pub fn push(&mut self, t: &str)
        ensures
            final(self)@ == old(self)@.push(t@),
    {
        self.items.push(t.to_owned());
        assert(self@ =~= old(self)@.push(t@));
    }

    /// Appends the tokens of `other`.
    pub fn extend(&mut self, other: &Tokens)
        ensures
            final(self)@ == old(self)@ + other@,
    {
        let n: usize = other.items.len();
        let mut i: usize = 0;
        while i < n
            invariant
                i <= n,
                n == other.items.len(),
                self@ == old(self)@ + other@.subrange(0, i as int),
            decreases n - i,
        {
            let ghost before = self@;
            let t = other.items[i].clone();
            assert(t@ == other@[i as int]);
            self.items.push(t);
            assert(self@ =~= before.push(other@[i as int]));
            assert(other@.subrange(0, i as int + 1) =~= other@.subrange(0, i as int).push(
                other@[i as int],
            ));
            i = i + 1;
        }
        assert(other@.subrange(0, n as int) =~= other@);
    }

    /// A copy of the stream.
    pub fn duplicate(&self) -> (r: Tokens)
        ensures
            r@ == self@,
    {
        let mut r = Tokens::new();
        r.extend(self);
        assert(r@ =~= self@);
        r
    }

    /// The number of tokens.
    pub fn len(&self) -> (n: usize)
        ensures
            n == self@.len(),
    {
        self.items.len()
    }

    /// The source text: every token followed by one space.
    pub fn text(&self) -> (r: String)
        ensures
            r@ == source_text(self@),
    {
        let n: usize = self.items.len();
        let mut out = String::new();
        let mut i: usize = 0;
        while i < n
            invariant
                i <= n,
                n == self.items.len(),
                out@ == spaced(self@, i as nat),
            decreases n - i,
        {
            out.append(self.items[i].as_str());
            out.append(" ");
            i = i + 1;
        }
        out
    }
}

/// One generated source file: its path below the root that it is written
/// to, and its tokens.
#[derive(Clone, Debug, PartialEq, Eq)]
pub struct GeneratedFile {
    pub path: String,
    pub tokens: Tokens,
}

/// What a [`GeneratedFile`] holds, as a mathematical value.
pub struct FileModel {
    pub path: Seq<char>,
    pub tokens: Seq<Seq<char>>,
}

impl DeepView for GeneratedFile {
    type V = FileModel;

    open spec fn deep_view(&self) -> FileModel {
        FileModel { path: self.path@, tokens: self.tokens@ }
    }
}

/// Appends `file` to `files`.
pub fn emit(files: &mut Vec<GeneratedFile>, path: String, tokens: Tokens)
    ensures
        final(files).deep_view() == old(files).deep_view().push(
            FileModel { path: path@, tokens: tokens@ },
        ),
{
    let ghost before = files.deep_view();
    let file = GeneratedFile { path, tokens };
    files.push(file);
    assert(files.deep_view() =~= before.push(file.deep_view()));
}

} // verus!
