//! Text as a sequence of characters: searching, trimming and splitting.
//!
//! The contracts speak of `Seq<char>`, the view of `str` and `String`. The
//! executable functions work on slices of `char`; `chars_of` and `string_of`
//! lead from one to the other.
use vstd::prelude::*;
use vstd::slice::slice_subrange;
use vstd::utf8::is_ascii_chars;

verus! {

/// `String::push` appends the given character to the end of the string.
pub assume_specification[ String::push ](s: &mut String, c: char)
    ensures
        final(s)@ == old(s)@.push(c),
;

/// The lower-case equivalent of a text, by Unicode's rules, as `str::to_lowercase` gives it.
pub uninterp spec fn lowercase(s: Seq<char>) -> Seq<char>;

/// `str::to_lowercase`: the result is a function of the text alone. Of an ASCII
/// text it is the text with `A` to `Z` mapped to `a` to `z`. What Unicode's
/// tables say of the other characters is left to the name.
#[verifier::external_body]
fn to_lowercase(s: &str) -> (r: String)
    ensures
        r@ == lowercase(s@),
        is_ascii_chars(s@) ==> r@ == ascii_lower(s@),
{
    s.to_lowercase()
}

/// A text in small letters: of an ASCII text with `A` to `Z` mapped to `a` to `z`, of another by
/// Unicode's rules.
pub open spec fn lowered(s: Seq<char>) -> Seq<char> {
    if is_ascii_chars(s) {
        ascii_lower(s)
    } else {
        lowercase(s)
    }
}

/// A text in small letters.
pub fn lower(s: &str) -> (r: String)
    ensures
        r@ == lowered(s@),
{
    to_lowercase(s)
}

/// A set of characters that a run of text may be made of.
#[derive(Clone, Copy)]
pub enum Class {
    /// Unicode white space.
    White,
    /// Anything but white space.
    Word,
    /// One character.
    Is(char),
    /// Anything but one character.
    Not(char),
    /// Anything but a blank or a comma.
    Field,
    /// An ASCII digit, a full stop or a minus sign.
    Number,
    /// An ASCII digit or a full stop.
    Figure,
}

/// The characters with Unicode's property White_Space.
pub open spec fn is_white(c: char) -> bool {
    let n = c as u32;
    ||| 0x9 <= n <= 0xd
    ||| n == 0x20
    ||| n == 0x85
    ||| n == 0xa0
    ||| n == 0x1680
    ||| 0x2000 <= n <= 0x200a
    ||| n == 0x2028
    ||| n == 0x2029
    ||| n == 0x202f
    ||| n == 0x205f
    ||| n == 0x3000
}

pub open spec fn is_digit(c: char) -> bool {
    '0' as u32 <= c as u32 <= '9' as u32
}

/// Whether a character belongs to a class.
pub open spec fn in_class(k: Class, c: char) -> bool {
    match k {
        Class::White => is_white(c),
        Class::Word => !is_white(c),
        Class::Is(d) => c == d,
        Class::Not(d) => c != d,
        Class::Field => c != ' ' && c != ',',
        Class::Number => is_digit(c) || c == '.' || c == '-',
        Class::Figure => is_digit(c) || c == '.',
    }
}

/// How many characters at the start of `s` belong to `k`.
pub open spec fn run(s: Seq<char>, k: Class) -> nat
    decreases s.len(),
{
    if s.len() > 0 && in_class(k, s[0]) {
        1 + run(s.skip(1), k)
    } else {
        0
    }
}

/// How many characters at the end of `s` belong to `k`.
pub open spec fn back_run(s: Seq<char>, k: Class) -> nat
    decreases s.len(),
{
    if s.len() > 0 && in_class(k, s.last()) {
        1 + back_run(s.drop_last(), k)
    } else {
        0
    }
}

/// `s` without the characters of `k` at its start.
pub open spec fn stripped_front(s: Seq<char>, k: Class) -> Seq<char> {
    s.skip(run(s, k) as int)
}

/// `s` without the characters of `k` at its end.
pub open spec fn stripped_back(s: Seq<char>, k: Class) -> Seq<char> {
    s.take(s.len() - back_run(s, k))
}

/// `s` without the characters of `k` at both ends.
pub open spec fn stripped(s: Seq<char>, k: Class) -> Seq<char> {
    stripped_back(stripped_front(s, k), k)
}

/// `s` without white space at both ends.
pub open spec fn trimmed(s: Seq<char>) -> Seq<char> {
    stripped(s, Class::White)
}

/// The part of `s` before the first `c`, or all of it.
pub open spec fn before(s: Seq<char>, c: char) -> Seq<char> {
    s.take(run(s, Class::Not(c)) as int)
}

/// The part of `s` behind the first `c`, if it holds one.
pub open spec fn behind(s: Seq<char>, c: char) -> Option<Seq<char>> {
    let n = run(s, Class::Not(c)) as int;
    if n < s.len() {
        Some(s.skip(n + 1))
    } else {
        None
    }
}

/// The longest runs of `k` in `s`, in order.
pub open spec fn pieces(s: Seq<char>, k: Class) -> Seq<Seq<char>>
    decreases s.len(),
{
    if s.len() == 0 {
        seq![]
    } else if !in_class(k, s[0]) {
        pieces(s.skip(1), k)
    } else {
        proof {
            lemma_run_bound(s, k);
        }
        let n = run(s, k) as int;
        seq![s.take(n)] + pieces(s.skip(n), k)
    }
}

/// The parts of `s` that white space separates.
pub open spec fn words(s: Seq<char>) -> Seq<Seq<char>> {
    pieces(s, Class::Word)
}

/// A line without the carriage return that stands before its line feed.
pub open spec fn without_return(s: Seq<char>) -> Seq<char> {
    if s.len() > 0 && s.last() == '\r' {
        s.drop_last()
    } else {
        s
    }
}

/// The lines of `s`. A line ends with a line feed, or a carriage return and a
/// line feed, which are no part of it; the last line may do without.
pub open spec fn lines(s: Seq<char>) -> Seq<Seq<char>>
    decreases s.len(),
{
    if s.len() == 0 {
        seq![]
    } else {
        proof {
            lemma_run_bound(s, Class::Not('\n'));
        }
        let n = run(s, Class::Not('\n')) as int;
        if n == s.len() {
            seq![s]
        } else {
            seq![without_return(s.take(n))] + lines(s.skip(n + 1))
        }
    }
}

/// `p` stands in `s` from index `i` on.
pub open spec fn matches_at(s: Seq<char>, p: Seq<char>, i: int) -> bool {
    &&& 0 <= i
    &&& i + p.len() <= s.len()
    &&& s.subrange(i, i + p.len()) == p
}

/// `p` stands somewhere in `s`.
pub open spec fn contains(s: Seq<char>, p: Seq<char>) -> bool {
    exists|i: int| matches_at(s, p, i)
}

pub open spec fn starts_with(s: Seq<char>, p: Seq<char>) -> bool {
    matches_at(s, p, 0)
}

pub open spec fn ends_with(s: Seq<char>, p: Seq<char>) -> bool {
    matches_at(s, p, s.len() - p.len())
}

/// Where `p` first stands in `s`.
pub open spec fn first_match(s: Seq<char>, p: Seq<char>) -> Option<int>
    decreases s.len(),
{
    if matches_at(s, p, 0) {
        Some(0)
    } else if s.len() == 0 {
        None
    } else {
        match first_match(s.skip(1), p) {
            Some(i) => Some(i + 1),
            None => None,
        }
    }
}

/// The part of `s` between the first `p` and the next, or the end, if `s` holds a `p`.
pub open spec fn second_part(s: Seq<char>, p: Seq<char>) -> Option<Seq<char>> {
    match first_match(s, p) {
        Some(i) => {
            let rest = s.skip(i + p.len());
            match first_match(rest, p) {
                Some(j) => Some(rest.take(j)),
                None => Some(rest),
            }
        },
        None => None,
    }
}

/// `s` with every occurrence of `p`, taken from the left, cut out.
pub open spec fn erased(s: Seq<char>, p: Seq<char>) -> Seq<char>
    decreases s.len(),
{
    if p.len() == 0 || s.len() == 0 {
        s
    } else if matches_at(s, p, 0) {
        erased(s.skip(p.len() as int), p)
    } else {
        seq![s[0]] + erased(s.skip(1), p)
    }
}

/// `s` with every `a` replaced by `b`.
pub open spec fn char_replaced(s: Seq<char>, a: char, b: char) -> Seq<char> {
    Seq::new(
        s.len(),
        |i: int|
            if s[i] == a {
                b
            } else {
                s[i]
            },
    )
}

/// A character with `A` to `Z` mapped to `a` to `z`.
pub open spec fn ascii_lower_char(c: char) -> char {
    if 'A' as u32 <= c as u32 <= 'Z' as u32 {
        ((c as u32) + 32) as char
    } else {
        c
    }
}

/// A character with `a` to `z` mapped to `A` to `Z`.
pub open spec fn ascii_upper_char(c: char) -> char {
    if 'a' as u32 <= c as u32 <= 'z' as u32 {
        ((c as u32) - 32) as char
    } else {
        c
    }
}

pub open spec fn ascii_lower(s: Seq<char>) -> Seq<char> {
    Seq::new(s.len(), |i: int| ascii_lower_char(s[i]))
}

/// What a list of texts holds.
pub open spec fn views(v: Seq<Vec<char>>) -> Seq<Seq<char>> {
    Seq::new(v.len(), |i: int| v[i]@)
}

pub open spec fn string_views(v: Seq<String>) -> Seq<Seq<char>> {
    Seq::new(v.len(), |i: int| v[i]@)
}

pub proof fn lemma_run_bound(s: Seq<char>, k: Class)
    ensures
        run(s, k) <= s.len(),
        s.len() > 0 && in_class(k, s[0]) ==> run(s, k) >= 1,
    decreases s.len(),
{
    if s.len() > 0 && in_class(k, s[0]) {
        lemma_run_bound(s.skip(1), k);
    }
}

/// A text that is in the class up to `n`, and not at `n`, has a run of `n`.
pub proof fn lemma_run_is(s: Seq<char>, k: Class, n: int)
    requires
        0 <= n <= s.len(),
        forall|i: int| 0 <= i < n ==> in_class(k, #[trigger] s[i]),
        n < s.len() ==> !in_class(k, s[n]),
    ensures
        run(s, k) == n,
    decreases n,
{
    if n > 0 {
        let t = s.skip(1);
        assert forall|i: int| 0 <= i < n - 1 implies in_class(k, #[trigger] t[i]) by {
            assert(t[i] == s[i + 1]);
        }
        if n < s.len() {
            assert(t[n - 1] == s[n]);
        }
        assert(in_class(k, s[0]));
        lemma_run_is(t, k, n - 1);
    }
}

pub proof fn lemma_back_run_is(s: Seq<char>, k: Class, n: int)
    requires
        0 <= n <= s.len(),
        forall|i: int| s.len() - n <= i < s.len() ==> in_class(k, #[trigger] s[i]),
        n < s.len() ==> !in_class(k, s[s.len() - n - 1]),
    ensures
        back_run(s, k) == n,
    decreases n,
{
    if n > 0 {
        let t = s.drop_last();
        assert forall|i: int| t.len() - (n - 1) <= i < t.len() implies in_class(k, #[trigger] t[i]) by {
            assert(t[i] == s[i]);
        }
        assert(in_class(k, s[s.len() - 1]));
        if n < s.len() {
            assert(t[t.len() - (n - 1) - 1] == s[s.len() - n - 1]);
        }
        lemma_back_run_is(t, k, n - 1);
    }
}

/// The first match is the one before which there is none.
pub proof fn lemma_first_match(s: Seq<char>, p: Seq<char>, i: int)
    requires
        matches_at(s, p, i),
        forall|j: int| 0 <= j < i ==> !#[trigger] matches_at(s, p, j),
    ensures
        first_match(s, p) == Some(i),
    decreases i,
{
    if i > 0 {
        assert(!matches_at(s, p, 0));
        let t = s.skip(1);
        assert(t.subrange(i - 1, i - 1 + p.len()) == s.subrange(i, i + p.len()));
        assert forall|j: int| 0 <= j < i - 1 implies !#[trigger] matches_at(t, p, j) by {
            if matches_at(t, p, j) {
                assert(t.subrange(j, j + p.len()) == s.subrange(j + 1, j + 1 + p.len()));
                assert(matches_at(s, p, j + 1));
            }
        }
        lemma_first_match(t, p, i - 1);
    }
}

/// Where there is no match there is no first one.
pub proof fn lemma_no_match(s: Seq<char>, p: Seq<char>)
    requires
        !contains(s, p),
    ensures
        first_match(s, p) is None,
    decreases s.len(),
{
    assert(!matches_at(s, p, 0));
    if s.len() > 0 {
        let t = s.skip(1);
        if contains(t, p) {
            let j = choose|j: int| matches_at(t, p, j);
            assert(t.subrange(j, j + p.len()) == s.subrange(j + 1, j + 1 + p.len()));
            assert(matches_at(s, p, j + 1));
        }
        lemma_no_match(t, p);
    }
}

/// The characters of a string.
pub fn chars_of(s: &str) -> (r: Vec<char>)
    ensures
        r@ == s@,
{
    let mut v: Vec<char> = Vec::new();
    for c in it: s.chars()
        invariant
            v@ == it.seq().take(it.index() as int),
            it.seq() == s@,
    {
        v.push(c);
    }
    v
}

/// The string made of the given characters.
pub fn string_of(cs: &[char]) -> (r: String)
    ensures
        r@ == cs@,
{
    let mut s = String::new();
    let mut i: usize = 0;
    while i < cs.len()
        invariant
            i <= cs.len(),
            s@ == cs@.take(i as int),
        decreases cs.len() - i,
    {
        s.push(cs[i]);
        i += 1;
    }
    s
}

/// A copy of a slice of characters.
pub fn copy_of(cs: &[char]) -> (r: Vec<char>)
    ensures
        r@ == cs@,
{
    let mut v: Vec<char> = Vec::new();
    let mut i: usize = 0;
    while i < cs.len()
        invariant
            i <= cs.len(),
            v@ == cs@.take(i as int),
        decreases cs.len() - i,
    {
        v.push(cs[i]);
        i += 1;
    }
    v
}

/// Two strings, one behind the other.
pub fn join2(a: &str, b: &str) -> (r: String)
    ensures
        r@ == a@ + b@,
{
    let mut s = a.to_string();
    s.append(b);
    s
}

/// Three strings, one behind the other.
pub fn join3(a: &str, b: &str, c: &str) -> (r: String)
    ensures
        r@ == a@ + b@ + c@,
{
    let mut s = a.to_string();
    s.append(b);
    s.append(c);
    s
}

/// Whether two slices hold the same characters.
pub fn same_chars(a: &[char], b: &[char]) -> (r: bool)
    ensures
        r == (a@ == b@),
{
    if a.len() != b.len() {
        return false;
    }
    let mut i: usize = 0;
    while i < a.len()
        invariant
            i <= a.len(),
            a.len() == b.len(),
            a@.take(i as int) == b@.take(i as int),
        decreases a.len() - i,
    {
        if a[i] != b[i] {
            return false;
        }
        proof {
            assert(a@.take(i + 1) == a@.take(i as int).push(a@[i as int]));
            assert(b@.take(i + 1) == b@.take(i as int).push(b@[i as int]));
        }
        i += 1;
    }
    proof {
        assert(a@.take(i as int) == a@);
        assert(b@.take(i as int) == b@);
    }
    true
}

/// Whether two strings are the same.
pub fn same(a: &str, b: &str) -> (r: bool)
    ensures
        r == (a@ == b@),
{
    let x = chars_of(a);
    let y = chars_of(b);
    same_chars(x.as_slice(), y.as_slice())
}

/// Whether a character is white space.
pub fn is_white_char(c: char) -> (r: bool)
    ensures
        r == is_white(c),
{
    let n = c as u32;
    (0x9 <= n && n <= 0xd) || n == 0x20 || n == 0x85 || n == 0xa0 || n == 0x1680 || (0x2000 <= n
        && n <= 0x200a) || n == 0x2028 || n == 0x2029 || n == 0x202f || n == 0x205f || n == 0x3000
}

/// Whether a character belongs to a class.
pub fn belongs(k: Class, c: char) -> (r: bool)
    ensures
        r == in_class(k, c),
{
    match k {
        Class::White => is_white_char(c),
        Class::Word => !is_white_char(c),
        Class::Is(d) => c == d,
        Class::Not(d) => c != d,
        Class::Field => c != ' ' && c != ',',
        Class::Number => ('0' <= c && c <= '9') || c == '.' || c == '-',
        Class::Figure => ('0' <= c && c <= '9') || c == '.',
    }
}

/// The length of the run of `k` at the start of `s`.
pub fn run_len(s: &[char], k: Class) -> (n: usize)
    ensures
        n == run(s@, k),
        n <= s.len(),
{
    let mut i: usize = 0;
    while i < s.len() && belongs(k, s[i])
        invariant
            i <= s.len(),
            forall|j: int| 0 <= j < i ==> in_class(k, #[trigger] s@[j]),
        decreases s.len() - i,
    {
        i += 1;
    }
    proof {
        lemma_run_is(s@, k, i as int);
    }
    i
}

/// The length of the run of `k` at the end of `s`.
pub fn back_run_len(s: &[char], k: Class) -> (n: usize)
    ensures
        n == back_run(s@, k),
        n <= s.len(),
{
    let mut i: usize = 0;
    while i < s.len() && belongs(k, s[s.len() - i - 1])
        invariant
            i <= s.len(),
            forall|j: int| s.len() - i <= j < s.len() ==> in_class(k, #[trigger] s@[j]),
        decreases s.len() - i,
    {
        i += 1;
    }
    proof {
        lemma_back_run_is(s@, k, i as int);
    }
    i
}

/// `s` without the characters of `k` at both ends.
pub fn strip(s: &[char], k: Class) -> (r: &[char])
    ensures
        r@ == stripped(s@, k),
{
    let a = run_len(s, k);
    let t = slice_subrange(s, a, s.len());
    assert(t@ == s@.skip(a as int));
    let b = back_run_len(t, k);
    let u = slice_subrange(t, 0, t.len() - b);
    assert(u@ == t@.take(t@.len() - b));
    u
}

/// `s` without white space at both ends.
pub fn trim(s: &[char]) -> (r: &[char])
    ensures
        r@ == trimmed(s@),
{
    strip(s, Class::White)
}

/// The part of `s` before the first `c`, or all of it.
pub fn cut_before(s: &[char], c: char) -> (r: &[char])
    ensures
        r@ == before(s@, c),
{
    let n = run_len(s, Class::Not(c));
    let r = slice_subrange(s, 0, n);
    assert(r@ == s@.take(n as int));
    r
}

/// The part of `s` behind the first `c`, if it holds one.
pub fn cut_behind(s: &[char], c: char) -> (r: Option<&[char]>)
    ensures
        match r {
            Some(t) => behind(s@, c) == Some(t@),
            None => behind(s@, c) is None,
        },
{
    let n = run_len(s, Class::Not(c));
    if n < s.len() {
        let r = slice_subrange(s, n + 1, s.len());
        assert(r@ == s@.skip(n + 1));
        Some(r)
    } else {
        None
    }
}

/// The longest runs of `k` in `s`, in order.
pub fn split_pieces(s: &[char], k: Class) -> (r: Vec<Vec<char>>)
    ensures
        views(r@) == pieces(s@, k),
{
    let mut out: Vec<Vec<char>> = Vec::new();
    let mut i: usize = 0;
    proof {
        assert(s@.skip(0) == s@);
        assert(views(out@) + pieces(s@, k) == pieces(s@, k));
    }
    while i < s.len()
        invariant
            i <= s.len(),
            views(out@) + pieces(s@.skip(i as int), k) == pieces(s@, k),
        decreases s.len() - i,
    {
        let ghost rest = s@.skip(i as int);
        let ghost sofar = out@;
        if !belongs(k, s[i]) {
            proof {
                assert(rest[0] == s@[i as int]);
                assert(rest.skip(1) == s@.skip(i + 1));
            }
            i += 1;
        } else {
            let t = slice_subrange(s, i, s.len());
            assert(t@ == rest);
            let n = run_len(t, k);
            proof {
                assert(rest[0] == s@[i as int]);
                lemma_run_bound(rest, k);
            }
            let w = copy_of(slice_subrange(t, 0, n));
            out.push(w);
            proof {
                assert(w@ == rest.take(n as int));
                assert(views(out@) == views(sofar) + seq![rest.take(n as int)]);
                assert(rest.skip(n as int) == s@.skip(i + n));
                assert(views(sofar) + (seq![rest.take(n as int)] + pieces(rest.skip(n as int), k))
                    == views(out@) + pieces(rest.skip(n as int), k));
            }
            i += n;
        }
    }
    proof {
        assert(s@.skip(i as int).len() == 0);
        assert(views(out@) + pieces(s@.skip(i as int), k) == views(out@));
    }
    out
}

/// The parts of `s` that white space separates.
pub fn split_words(s: &[char]) -> (r: Vec<Vec<char>>)
    ensures
        views(r@) == words(s@),
{
    split_pieces(s, Class::Word)
}

/// The lines of `s`.
pub fn split_lines(s: &[char]) -> (r: Vec<Vec<char>>)
    ensures
        views(r@) == lines(s@),
{
    let mut out: Vec<Vec<char>> = Vec::new();
    let mut i: usize = 0;
    proof {
        assert(s@.skip(0) == s@);
        assert(views(out@) + lines(s@) == lines(s@));
    }
    while i < s.len()
        invariant
            i <= s.len(),
            views(out@) + lines(s@.skip(i as int)) == lines(s@),
        decreases s.len() - i,
    {
        let ghost rest = s@.skip(i as int);
        let ghost sofar = out@;
        let t = slice_subrange(s, i, s.len());
        assert(t@ == rest);
        let n = run_len(t, Class::Not('\n'));
        if n == t.len() {
            out.push(copy_of(t));
            proof {
                assert(views(out@) == views(sofar) + seq![rest]);
                assert(s@.skip(s.len() as int).len() == 0);
                assert(views(out@) + lines(s@.skip(s.len() as int)) == views(out@));
            }
            i = s.len();
        } else {
            let m = if n > 0 && t[n - 1] == '\r' {
                n - 1
            } else {
                n
            };
            let w = copy_of(slice_subrange(t, 0, m));
            out.push(w);
            proof {
                let line = rest.take(n as int);
                assert(n > 0 ==> line.last() == rest[n - 1]);
                assert(w@ == without_return(line));
                assert(views(out@) == views(sofar) + seq![without_return(line)]);
                assert(rest.skip(n + 1) == s@.skip(i + n + 1));
                assert(views(sofar) + (seq![without_return(line)] + lines(rest.skip(n + 1)))
                    == views(out@) + lines(rest.skip(n + 1)));
            }
            i += n + 1;
        }
    }
    proof {
        assert(s@.skip(i as int).len() == 0);
        assert(views(out@) + lines(s@.skip(i as int)) == views(out@));
    }
    out
}

/// Whether `p` stands in `s` from index `i` on.
pub fn is_at(s: &[char], p: &[char], i: usize) -> (r: bool)
    ensures
        r == matches_at(s@, p@, i as int),
{
    if i > s.len() || s.len() - i < p.len() {
        return false;
    }
    let t = slice_subrange(s, i, i + p.len());
    same_chars(t, p)
}

/// Where `p` first stands in `s`.
pub fn find_chars(s: &[char], p: &[char]) -> (r: Option<usize>)
    ensures
        match r {
            Some(i) => first_match(s@, p@) == Some(i as int) && matches_at(s@, p@, i as int),
            None => first_match(s@, p@) is None && !contains(s@, p@),
        },
{
    let mut i: usize = 0;
    while i <= s.len() && s.len() - i >= p.len()
        invariant
            i <= s.len() + 1,
            forall|j: int| 0 <= j < i ==> !#[trigger] matches_at(s@, p@, j),
        decreases s.len() + 1 - i,
    {
        if is_at(s, p, i) {
            proof {
                lemma_first_match(s@, p@, i as int);
            }
            return Some(i);
        }
        if i == s.len() {
            proof {
                lemma_no_match(s@, p@);
            }
            return None;
        }
        i += 1;
    }
    proof {
        lemma_no_match(s@, p@);
    }
    None
}

/// The part of `s` between the first `p` and the next, or the end, if `s` holds a `p`.
pub fn cut_second_part<'a>(s: &'a [char], p: &[char]) -> (r: Option<&'a [char]>)
    ensures
        match r {
            Some(t) => second_part(s@, p@) == Some(t@),
            None => second_part(s@, p@) is None,
        },
{
    match find_chars(s, p) {
        Some(i) => {
            let n = s.len();
            let rest = slice_subrange(s, i + p.len(), n);
            assert(rest@ == s@.skip(i + p@.len()));
            match find_chars(rest, p) {
                Some(j) => {
                    let r = slice_subrange(rest, 0, j);
                    assert(r@ == rest@.take(j as int));
                    Some(r)
                },
                None => Some(rest),
            }
        },
        None => None,
    }
}

/// Whether `p` stands somewhere in `s`.
pub fn has_chars(s: &[char], p: &[char]) -> (r: bool)
    ensures
        r == contains(s@, p@),
{
    find_chars(s, p).is_some()
}

/// Whether `p` stands somewhere in `s`.
pub fn holds(s: &str, p: &str) -> (r: bool)
    ensures
        r == contains(s@, p@),
{
    let x = chars_of(s);
    let y = chars_of(p);
    has_chars(x.as_slice(), y.as_slice())
}

/// Whether `s` begins with `p`.
pub fn begins(s: &str, p: &str) -> (r: bool)
    ensures
        r == starts_with(s@, p@),
{
    let x = chars_of(s);
    let y = chars_of(p);
    is_at(x.as_slice(), y.as_slice(), 0)
}

/// `s` with every occurrence of `p`, taken from the left, cut out.
pub fn erase(s: &[char], p: &[char]) -> (r: Vec<char>)
    ensures
        r@ == erased(s@, p@),
{
    let mut out: Vec<char> = Vec::new();
    if p.len() == 0 {
        return copy_of(s);
    }
    let mut i: usize = 0;
    proof {
        assert(s@.skip(0) == s@);
        assert(out@ + erased(s@, p@) == erased(s@, p@));
    }
    while i < s.len()
        invariant
            i <= s.len(),
            p.len() > 0,
            out@ + erased(s@.skip(i as int), p@) == erased(s@, p@),
        decreases s.len() - i,
    {
        let ghost rest = s@.skip(i as int);
        let ghost sofar = out@;
        let here = is_at(s, p, i);
        proof {
            if i + p.len() <= s.len() {
                assert(rest.subrange(0, p.len() as int) == s@.subrange(i as int, i + p.len()));
            }
            assert(here == matches_at(rest, p@, 0));
        }
        if here {
            proof {
                assert(rest.skip(p.len() as int) == s@.skip(i + p.len()));
            }
            i += p.len();
        } else {
            out.push(s[i]);
            proof {
                assert(rest.skip(1) == s@.skip(i + 1));
                assert(sofar + (seq![rest[0]] + erased(rest.skip(1), p@)) == out@ + erased(
                    rest.skip(1),
                    p@,
                ));
            }
            i += 1;
        }
    }
    proof {
        assert(s@.skip(i as int).len() == 0);
        assert(out@ + erased(s@.skip(i as int), p@) == out@);
    }
    out
}

/// `s` with every `a` replaced by `b`.
pub fn replace_char(s: &str, a: char, b: char) -> (r: String)
    ensures
        r@ == char_replaced(s@, a, b),
{
    let cs = chars_of(s);
    let mut out = String::new();
    let mut i: usize = 0;
    while i < cs.len()
        invariant
            i <= cs.len(),
            cs@ == s@,
            out@ == char_replaced(s@, a, b).take(i as int),
        decreases cs.len() - i,
    {
        let c = cs[i];
        out.push(if c == a { b } else { c });
        i += 1;
    }
    out
}

/// `s` with `A` to `Z` mapped to `a` to `z`.
pub fn lower_ascii(s: &str) -> (r: String)
    ensures
        r@ == ascii_lower(s@),
{
    let cs = chars_of(s);
    let mut out = String::new();
    let mut i: usize = 0;
    while i < cs.len()
        invariant
            i <= cs.len(),
            cs@ == s@,
            out@ == ascii_lower(s@).take(i as int),
        decreases cs.len() - i,
    {
        out.push(lower_ascii_char(cs[i]));
        i += 1;
    }
    out
}

/// A character with `A` to `Z` mapped to `a` to `z`.
pub fn lower_ascii_char(c: char) -> (r: char)
    ensures
        r == ascii_lower_char(c),
{
    if 'A' <= c && c <= 'Z' {
        ((c as u8) + 32) as char
    } else {
        c
    }
}

/// A character with `a` to `z` mapped to `A` to `Z`.
pub fn upper_ascii_char(c: char) -> (r: char)
    ensures
        r == ascii_upper_char(c),
{
    if 'a' <= c && c <= 'z' {
        ((c as u8) - 32) as char
    } else {
        c
    }
}

} // verus!
