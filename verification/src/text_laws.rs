//! What holds of text: how it comes apart, and how the parts go together again.
use vstd::prelude::*;
use vstd::utf8::is_ascii_chars;
use crate::number::{
    all_digits, decimal, decimal_reads_back, digit_char, digit_value, digits_value, signed_number,
    unsigned_number,
};
use crate::text::{
    ascii_lower, ascii_lower_char, ascii_upper_char, back_run, before, behind, char_replaced,
    contains, ends_with, erased, first_match, in_class, is_digit, is_white, lemma_back_run_is,
    lemma_first_match, lemma_no_match, lemma_run_bound, lemma_run_is, lines, lowered, matches_at,
    pieces, run, second_part, starts_with, stripped, stripped_back, stripped_front, trimmed, words,
    Class,
};

verus! {

/// All characters of a text belong to a class.
pub open spec fn all_in(s: Seq<char>, k: Class) -> bool {
    forall|i: int| 0 <= i < s.len() ==> in_class(k, #[trigger] s[i])
}

/// A text holds no such character.
pub open spec fn free_of(s: Seq<char>, c: char) -> bool {
    forall|i: int| 0 <= i < s.len() ==> #[trigger] s[i] != c
}

/// A text without white space.
pub open spec fn is_word(s: Seq<char>) -> bool {
    s.len() > 0 && forall|i: int| 0 <= i < s.len() ==> !is_white(#[trigger] s[i])
}

/// White space is the blank, the tabulator, the ends of lines and the blanks of Unicode; letters,
/// digits and signs are none.
pub proof fn blanks_are_white(c: char)
    ensures
        is_white(' ') && is_white('\t') && is_white('\n') && is_white('\r'),
        '!' as u32 <= c as u32 <= '~' as u32 ==> !is_white(c),
        is_white(c) ==> c as u32 <= 0x3000,
        is_white(c) && c as u32 > 0x20 ==> c as u32 >= 0x85,
        is_white(c) <==> c == ' ' || c == '\t' || c == '\n' || c == '\u{b}' || c == '\u{c}' || c
            == '\r' || c == '\u{85}' || c == '\u{a0}' || c == '\u{1680}' || '\u{2000}' as u32 <= c
            as u32 <= '\u{200a}' as u32 || c == '\u{2028}' || c == '\u{2029}' || c == '\u{202f}' || c
            == '\u{205f}' || c == '\u{3000}',
{
}

/// There are ten digits, and each is the sign of its number.
pub proof fn digits_are_ten(d: nat, c: char)
    ensures
        d < 10 ==> is_digit(digit_char(d)) && digit_value(digit_char(d)) == d && digit_char(d) as u32
            == '0' as u32 + d,
        is_digit(c) ==> digit_value(c) < 10 && digit_char(digit_value(c)) == c,
{
}

/// The classes of characters.
pub proof fn classes_are_what_they_say(c: char, d: char)
    ensures
        in_class(Class::White, c) != in_class(Class::Word, c),
        in_class(Class::White, c) == is_white(c),
        in_class(Class::Is(d), c) <==> c == d,
        in_class(Class::Not(d), c) <==> c != d,
        !in_class(Class::Field, c) <==> c == ' ' || c == ',',
        in_class(Class::Figure, c) <==> is_digit(c) || c == '.',
        in_class(Class::Number, c) <==> is_digit(c) || c == '.' || c == '-',
{
}

/// A run of a class takes in all it can, and nothing else.
pub proof fn run_is_as_long_as_it_can_be(a: Seq<char>, b: Seq<char>, k: Class)
    requires
        all_in(a, k),
        b.len() > 0 ==> !in_class(k, b[0]),
    ensures
        run(a + b, k) == a.len(),
        back_run(a, k) == a.len(),
{
    assert forall|i: int| 0 <= i < a.len() implies in_class(k, #[trigger] (a + b)[i]) by {
        assert((a + b)[i] == a[i]);
    }
    lemma_run_is(a + b, k, a.len() as int);
    lemma_back_run_is(a, k, a.len() as int);
}

/// A text loses what it has of a class at both ends, and nothing else.
pub proof fn stripping_takes_both_ends(front: Seq<char>, s: Seq<char>, back: Seq<char>, k: Class)
    requires
        all_in(front, k),
        all_in(back, k),
        s.len() > 0 ==> !in_class(k, s[0]) && !in_class(k, s.last()),
    ensures
        stripped(front + s + back, k) == s,
        stripped_back(front + s + back, k) == (if s.len() > 0 {
            front + s
        } else {
            s
        }),
{
    let all = front + s + back;
    if s.len() > 0 {
        run_is_as_long_as_it_can_be(front, s + back, k);
        assert(front + (s + back) == all);
        assert(stripped_front(all, k) == s + back);
        assert forall|i: int| s.len() <= i < (s + back).len() implies in_class(
            k,
            #[trigger] (s + back)[i],
        ) by {
            assert((s + back)[i] == back[i - s.len()]);
        }
        lemma_back_run_is(s + back, k, back.len() as int);
        assert((s + back).take(s.len() as int) == s);
        assert forall|i: int| front.len() + s.len() <= i < all.len() implies in_class(
            k,
            #[trigger] all[i],
        ) by {
            assert(all[i] == back[i - front.len() - s.len()]);
        }
        lemma_back_run_is(all, k, back.len() as int);
        assert(all.take(all.len() - back.len()) == front + s);
    } else {
        assert forall|i: int| 0 <= i < all.len() implies in_class(k, #[trigger] all[i]) by {
            if i < front.len() {
                assert(all[i] == front[i]);
            } else {
                assert(all[i] == back[i - front.len()]);
            }
        }
        lemma_run_is(all, k, all.len() as int);
        assert(stripped_front(all, k) == s);
        assert(stripped(all, k) == s);
        lemma_back_run_is(all, k, all.len() as int);
        assert(stripped_back(all, k) == s);
    }
}

/// A text loses the white space round it, and nothing else.
pub proof fn trimming_takes_the_blanks(front: Seq<char>, s: Seq<char>, back: Seq<char>)
    requires
        all_in(front, Class::White),
        all_in(back, Class::White),
        s.len() > 0 ==> !is_white(s[0]) && !is_white(s.last()),
    ensures
        trimmed(front + s + back) == s,
{
    stripping_takes_both_ends(front, s, back, Class::White);
}

/// A text comes apart at the first of a character, and goes together again.
pub proof fn text_is_cut_at_the_first(a: Seq<char>, c: char, b: Seq<char>)
    requires
        free_of(a, c),
    ensures
        before(a + seq![c] + b, c) == a,
        behind(a + seq![c] + b, c) == Some(b),
        before(a, c) == a,
        behind(a, c) is None,
{
    let s = a + seq![c] + b;
    let k = Class::Not(c);
    assert forall|i: int| 0 <= i < a.len() implies in_class(k, #[trigger] a[i]) by {}
    run_is_as_long_as_it_can_be(a, seq![c] + b, k);
    assert(a + (seq![c] + b) == s);
    run_is_as_long_as_it_can_be(a, seq![], k);
    assert(a + Seq::<char>::empty() == a);
    assert(s.take(a.len() as int) == a);
    assert(s.skip((a.len() + 1) as int) == b);
    assert(a.take(a.len() as int) == a);
}

/// What is all of a class is one piece.
pub proof fn one_piece_stays_one(s: Seq<char>, k: Class)
    requires
        s.len() > 0,
        all_in(s, k),
    ensures
        pieces(s, k) == seq![s],
{
    run_is_as_long_as_it_can_be(s, seq![], k);
    assert(s + Seq::<char>::empty() == s);
    assert(s.take(s.len() as int) == s);
    assert(pieces(s.skip(s.len() as int), k) == Seq::<Seq<char>>::empty());
    assert(in_class(k, s[0]));
}

/// A character that is not of the class comes between the pieces: the pieces of the whole are
/// those before it and those behind it.
pub proof fn pieces_come_apart(a: Seq<char>, c: char, b: Seq<char>, k: Class)
    requires
        !in_class(k, c),
    ensures
        pieces(a + seq![c] + b, k) == pieces(a, k) + pieces(b, k),
        pieces(Seq::<char>::empty(), k).len() == 0,
    decreases a.len(),
{
    let s = a + seq![c] + b;
    if a.len() == 0 {
        assert(s[0] == c);
        assert(s.skip(1) == b);
        assert(pieces(a, k) + pieces(b, k) == pieces(b, k));
    } else if !in_class(k, a[0]) {
        assert(s[0] == a[0]);
        assert(s.skip(1) == a.skip(1) + seq![c] + b);
        pieces_come_apart(a.skip(1), c, b, k);
    } else {
        assert(s[0] == a[0]);
        let n = run(a, k) as int;
        lemma_run_bound(a, k);
        lemma_run_parts(a, k);
        let rest = a.skip(n) + seq![c] + b;
        assert(a.take(n) + rest == s);
        assert(rest[0] == (if n < a.len() {
            a[n]
        } else {
            c
        }));
        run_is_as_long_as_it_can_be(a.take(n), rest, k);
        assert(s.take(n) == a.take(n));
        assert(s.skip(n) == rest);
        pieces_come_apart(a.skip(n), c, b, k);
        assert(seq![a.take(n)] + (pieces(a.skip(n), k) + pieces(b, k)) == pieces(a, k) + pieces(
            b,
            k,
        ));
    }
}

proof fn lemma_run_parts(s: Seq<char>, k: Class)
    ensures
        run(s, k) <= s.len(),
        all_in(s.take(run(s, k) as int), k),
        run(s, k) < s.len() ==> !in_class(k, s[run(s, k) as int]),
    decreases s.len(),
{
    lemma_run_bound(s, k);
    if s.len() > 0 && in_class(k, s[0]) {
        let t = s.skip(1);
        lemma_run_parts(t, k);
        lemma_run_bound(t, k);
        let n = run(s, k) as int;
        assert forall|i: int| 0 <= i < n implies in_class(k, #[trigger] s.take(n)[i]) by {
            if i > 0 {
                assert(s.take(n)[i] == t.take(n - 1)[i - 1]);
            }
        }
        if n < s.len() {
            assert(s[n] == t[n - 1]);
        }
    }
}

/// White space comes between the words of a text, and a text without any is one word.
pub proof fn words_come_apart(a: Seq<char>, c: char, b: Seq<char>)
    requires
        is_white(c),
    ensures
        words(a + seq![c] + b) == words(a) + words(b),
        is_word(a) ==> words(a) == seq![a],
        words(Seq::<char>::empty()).len() == 0,
{
    pieces_come_apart(a, c, b, Class::Word);
    if is_word(a) {
        assert forall|i: int| 0 <= i < a.len() implies in_class(Class::Word, #[trigger] a[i]) by {}
        one_piece_stays_one(a, Class::Word);
    }
}

/// A line ends at its line feed, with a carriage return before it or without; the last one may do
/// without a line feed.
pub proof fn lines_come_apart(a: Seq<char>, b: Seq<char>)
    requires
        free_of(a, '\n'),
    ensures
        (a.len() == 0 || a.last() != '\r') ==> lines(a + seq!['\n'] + b) == seq![a] + lines(b),
        lines(a + seq!['\r', '\n'] + b) == seq![a] + lines(b),
        a.len() > 0 ==> lines(a) == seq![a],
        lines(Seq::<char>::empty()).len() == 0,
{
    let k = Class::Not('\n');
    assert forall|i: int| 0 <= i < a.len() implies in_class(k, #[trigger] a[i]) by {}
    let s = a + seq!['\n'] + b;
    run_is_as_long_as_it_can_be(a, seq!['\n'] + b, k);
    assert(a + (seq!['\n'] + b) == s);
    assert(s.take(a.len() as int) == a);
    assert(s.skip((a.len() + 1) as int) == b);
    let r = a.push('\r');
    assert forall|i: int| 0 <= i < r.len() implies in_class(k, #[trigger] r[i]) by {
        if i < a.len() {
            assert(r[i] == a[i]);
        }
    }
    let t = a + seq!['\r', '\n'] + b;
    run_is_as_long_as_it_can_be(r, seq!['\n'] + b, k);
    assert(r + (seq!['\n'] + b) == t);
    assert(t.take(r.len() as int) == r);
    assert(t.skip((r.len() + 1) as int) == b);
    assert(r.drop_last() == a);
    run_is_as_long_as_it_can_be(a, seq![], k);
    assert(a + Seq::<char>::empty() == a);
}

/// A text stands at a place of another where that has it between what is before and behind.
pub proof fn match_is_a_part(a: Seq<char>, p: Seq<char>, b: Seq<char>, s: Seq<char>, i: int)
    ensures
        matches_at(a + p + b, p, a.len() as int),
        matches_at(s, p, i) ==> 0 <= i && s == s.take(i) + p + s.skip(i + p.len()),
{
    let t = a + p + b;
    assert(t.subrange(a.len() as int, (a.len() + p.len()) as int) == p);
    if matches_at(s, p, i) {
        assert(s.take(i) + p + s.skip(i + p.len()) == s) by {
            assert forall|j: int| 0 <= j < s.len() implies #[trigger] (s.take(i) + p + s.skip(
                i + p.len(),
            ))[j] == s[j] by {
                if i <= j < i + p.len() {
                    assert(s.subrange(i, i + p.len())[j - i] == s[j]);
                }
            }
        }
    }
}

/// A text is contained in another that has it as a part, and in no other. At the start and at the
/// end it is the same.
pub proof fn contained_is_a_part(a: Seq<char>, p: Seq<char>, b: Seq<char>, s: Seq<char>)
    ensures
        contains(a + p + b, p),
        starts_with(p + b, p),
        ends_with(a + p, p),
        contains(s, p) ==> exists|x: Seq<char>, y: Seq<char>| s == #[trigger] (x + p + y),
        starts_with(s, p) ==> s == p + s.skip(p.len() as int),
        ends_with(s, p) ==> s == s.take(s.len() - p.len()) + p,
{
    match_is_a_part(a, p, b, s, 0);
    let e = Seq::<char>::empty();
    match_is_a_part(e, p, b, s, 0);
    assert(e + p + b == p + b);
    match_is_a_part(a, p, e, s, s.len() - p.len());
    assert(a + p + e == a + p);
    if contains(s, p) {
        let i = choose|i: int| matches_at(s, p, i);
        match_is_a_part(a, p, b, s, i);
        assert(s == s.take(i) + p + s.skip(i + p.len()));
    }
    if starts_with(s, p) {
        assert(s.take(0) + p + s.skip(p.len() as int) == p + s.skip(p.len() as int));
    }
    if ends_with(s, p) {
        assert(s.skip(s.len() as int) == e);
        assert(s.take(s.len() - p.len()) + p + e == s.take(s.len() - p.len()) + p);
    }
}

/// A text has another as a part.
pub open spec fn has_part(s: Seq<char>, p: Seq<char>) -> bool {
    exists|x: Seq<char>, y: Seq<char>| s == #[trigger] (x + p + y)
}

/// A text contains what it has as a part, and nothing else.
pub proof fn part_is_contained(s: Seq<char>, p: Seq<char>)
    ensures
        contains(s, p) <==> has_part(s, p),
{
    contained_is_a_part(s, p, s, s);
    if has_part(s, p) {
        let (x, y) = choose|x: Seq<char>, y: Seq<char>| s == #[trigger] (x + p + y);
        contained_is_a_part(x, p, y, s);
    }
}

/// Where a character stands first in a text that holds it.
pub proof fn first_of(s: Seq<char>, c: char) -> (n: int)
    requires
        !free_of(s, c),
    ensures
        0 <= n < s.len(),
        s[n] == c,
        free_of(s.take(n), c),
    decreases s.len(),
{
    let d = s.drop_last();
    if free_of(d, c) {
        let i = choose|i: int| 0 <= i < s.len() && s[i] == c;
        if i < s.len() - 1 {
            assert(d[i] == c);
        }
        assert(s.take(s.len() - 1) =~= d);
        s.len() - 1
    } else {
        let n = first_of(d, c);
        assert(d[n] == s[n]);
        assert(s.take(n) =~= d.take(n));
        n
    }
}

/// A character is contained in a text that holds it somewhere.
pub proof fn contained_character_stands_somewhere(s: Seq<char>, c: char)
    ensures
        contains(s, seq![c]) <==> !free_of(s, c),
{
    if contains(s, seq![c]) {
        let i = choose|i: int| matches_at(s, seq![c], i);
        assert(s.subrange(i, i + 1)[0] == s[i]);
    }
    if !free_of(s, c) {
        let i = choose|i: int| 0 <= i < s.len() && s[i] == c;
        assert(s.subrange(i, i + 1) == seq![c]);
        assert(matches_at(s, seq![c], i));
    }
}

/// What is erased is gone, from the first on, and all else stays.
pub proof fn erasing_takes_the_first_and_goes_on(a: Seq<char>, p: Seq<char>, b: Seq<char>)
    requires
        p.len() > 0,
        forall|j: int| 0 <= j < a.len() ==> !#[trigger] matches_at(a + p + b, p, j),
    ensures
        erased(a + p + b, p) == a + erased(b, p),
    decreases a.len(),
{
    let s = a + p + b;
    match_is_a_part(a, p, b, s, 0);
    if a.len() == 0 {
        assert(s.skip(p.len() as int) == b);
        assert(a + erased(b, p) == erased(b, p));
    } else {
        assert(!matches_at(s, p, 0));
        let t = a.skip(1) + p + b;
        assert(s.skip(1) == t);
        assert forall|j: int| 0 <= j < a.skip(1).len() implies !#[trigger] matches_at(t, p, j) by {
            if matches_at(t, p, j) {
                assert(t.subrange(j, j + p.len()) == s.subrange(j + 1, j + 1 + p.len()));
                assert(matches_at(s, p, j + 1));
            }
        }
        erasing_takes_the_first_and_goes_on(a.skip(1), p, b);
        assert(seq![s[0]] + (a.skip(1) + erased(b, p)) == a + erased(b, p));
    }
}

/// A text that does not hold what is erased stays as it is.
pub proof fn erasing_leaves_the_rest(s: Seq<char>, p: Seq<char>)
    requires
        !contains(s, p),
    ensures
        erased(s, p) == s,
    decreases s.len(),
{
    assert(!matches_at(s, p, 0));
    if s.len() > 0 && p.len() > 0 {
        let t = s.skip(1);
        if contains(t, p) {
            let j = choose|j: int| matches_at(t, p, j);
            assert(t.subrange(j, j + p.len()) == s.subrange(j + 1, j + 1 + p.len()));
            assert(matches_at(s, p, j + 1));
        }
        erasing_leaves_the_rest(t, p);
        assert(seq![s[0]] + t == s);
    }
}

/// The second part of a text is what stands between the first and the second of a mark, or all
/// behind the first.
pub proof fn second_part_stands_between(a: Seq<char>, p: Seq<char>, m: Seq<char>, b: Seq<char>)
    requires
        p.len() > 0,
        !contains(m, p),
        forall|j: int| 0 <= j < a.len() ==> !#[trigger] matches_at(a + p + m, p, j),
        forall|j: int| 0 <= j < a.len() ==> !#[trigger] matches_at(a + p + (m + p + b), p, j),
        forall|j: int| 0 <= j < m.len() ==> !#[trigger] matches_at(m + p + b, p, j),
    ensures
        second_part(a + p + m, p) == Some(m),
        second_part(a + p + (m + p + b), p) == Some(m),
{
    let s = a + p + m;
    match_is_a_part(a, p, m, s, 0);
    lemma_first_match(s, p, a.len() as int);
    assert(s.skip((a.len() + p.len()) as int) == m);
    lemma_no_match(m, p);
    let r = m + p + b;
    let t = a + p + r;
    match_is_a_part(a, p, r, t, 0);
    lemma_first_match(t, p, a.len() as int);
    assert(t.skip((a.len() + p.len()) as int) == r);
    match_is_a_part(m, p, b, r, 0);
    lemma_first_match(r, p, m.len() as int);
    assert(r.take(m.len() as int) == m);
}

/// The first match has none before it.
pub proof fn first_match_has_none_before_it(s: Seq<char>, p: Seq<char>)
    ensures
        match first_match(s, p) {
            Some(i) => matches_at(s, p, i) && forall|j: int|
                0 <= j < i ==> !#[trigger] matches_at(s, p, j),
            None => !contains(s, p),
        },
    decreases s.len(),
{
    if !matches_at(s, p, 0) {
        if s.len() == 0 {
            assert forall|i: int| !matches_at(s, p, i) by {}
        } else {
            let t = s.skip(1);
            first_match_has_none_before_it(t, p);
            assert forall|i: int| #![trigger matches_at(t, p, i)] 0 <= i implies matches_at(t, p, i)
                == matches_at(s, p, i + 1) by {
                if i + p.len() <= t.len() {
                    assert(t.subrange(i, i + p.len()) == s.subrange(i + 1, i + 1 + p.len()));
                }
            }
            if first_match(s, p) is None {
                if contains(s, p) {
                    let i = choose|i: int| matches_at(s, p, i);
                    assert(matches_at(t, p, i - 1));
                }
            } else {
                let i = first_match(s, p)->Some_0;
                assert(matches_at(t, p, i - 1));
                assert forall|j: int| 0 <= j < i implies !#[trigger] matches_at(s, p, j) by {
                    if j > 0 {
                        assert(!matches_at(t, p, j - 1));
                    }
                }
            }
        }
    }
}

/// A character that is replaced leaves all others where they are.
pub proof fn replacing_touches_one_character(s: Seq<char>, a: char, b: char, i: int)
    requires
        0 <= i < s.len(),
    ensures
        char_replaced(s, a, b).len() == s.len(),
        s[i] == a ==> char_replaced(s, a, b)[i] == b,
        s[i] != a ==> char_replaced(s, a, b)[i] == s[i],
        a != b ==> free_of(char_replaced(s, a, b), a),
{
}

/// The letters `A` to `Z` and `a` to `z` go in pairs; nothing else has a case here.
pub proof fn letters_go_in_pairs(k: int, c: char)
    requires
        0 <= k < 26,
    ensures
        ascii_lower_char((65 + k) as char) == (97 + k) as char,
        ascii_upper_char((97 + k) as char) == (65 + k) as char,
        ascii_lower_char((97 + k) as char) == (97 + k) as char,
        ascii_upper_char((65 + k) as char) == (65 + k) as char,
        !(65 <= c as u32 <= 90) ==> ascii_lower_char(c) == c,
        !(97 <= c as u32 <= 122) ==> ascii_upper_char(c) == c,
{
}

/// A text in small letters has a small letter for each large one, and all else as it was.
pub proof fn small_letters_keep_their_places(s: Seq<char>, i: int)
    requires
        0 <= i < s.len(),
    ensures
        ascii_lower(s).len() == s.len(),
        65 <= s[i] as u32 <= 90 ==> ascii_lower(s)[i] as u32 == s[i] as u32 + 32,
        !(65 <= s[i] as u32 <= 90) ==> ascii_lower(s)[i] == s[i],
        is_ascii_chars(s) ==> lowered(s) == ascii_lower(s),
{
}

/// Digits count in tens: one more at the end is ten times the number before, and itself.
pub proof fn digits_count_in_tens(s: Seq<char>, c: char)
    ensures
        digits_value(s.push(c)) == 10 * digits_value(s) + digit_value(c),
        digits_value(Seq::<char>::empty()) == 0,
{
    assert(s.push(c).drop_last() == s);
}

/// A number has as few digits as it can: below ten one, and one more for each ten times as much.
pub proof fn number_has_no_digit_too_many(n: nat)
    ensures
        n < 10 ==> decimal(n) == seq![digit_char(n)],
        n > 0 ==> decimal(n)[0] != '0',
        decimal(10 * n + 3).len() == (if n == 0 {
            1
        } else {
            decimal(n).len() + 1
        }),
    decreases n,
{
    if n >= 10 {
        number_has_no_digit_too_many(n / 10);
    }
    decimal_reads_back(n);
    if n > 0 {
        assert((10 * n + 3) / 10 == n);
    }
}

/// A text is a number where it is made of digits, with a plus sign before them or not, and the
/// number is in its range; nothing else is one.
pub proof fn numbers_are_made_of_digits(s: Seq<char>, max: nat)
    ensures
        s.len() > 0 && all_digits(s) && digits_value(s) <= max ==> unsigned_number(s, max) == Some(
            digits_value(s),
        ) && unsigned_number(seq!['+'] + s, max) == Some(digits_value(s)),
        unsigned_number(s, max) matches Some(n) ==> n <= max && s.len() > 0 && all_digits(
            s.skip(1),
        ) && (is_digit(s[0]) || (s[0] == '+' && s.len() > 1)),
{
    let p = seq!['+'] + s;
    assert(p.skip(1) == s);
    if s.len() > 0 && all_digits(s) {
        assert(is_digit(s[0]));
    }
    if unsigned_number(s, max) is Some && s[0] != '+' {
        assert(is_digit(s[0]));
        assert forall|i: int| 0 <= i < s.skip(1).len() implies is_digit(#[trigger] s.skip(1)[i]) by {
            assert(s.skip(1)[i] == s[i + 1]);
        }
    }
}

/// A number with a sign reads back, and none out of range is read.
pub proof fn signed_numbers_read_back(n: nat, s: Seq<char>)
    ensures
        n <= 0x7fff_ffff ==> signed_number(decimal(n)) == Some(n as int),
        n <= 0x8000_0000 ==> signed_number(seq!['-'] + decimal(n)) == Some(-(n as int)),
        n > 0x7fff_ffff ==> signed_number(decimal(n)) is None,
        n > 0x8000_0000 ==> signed_number(seq!['-'] + decimal(n)) is None,
        signed_number(s) matches Some(v) ==> -0x8000_0000 <= v <= 0x7fff_ffff,
{
    decimal_reads_back(n);
    assert(is_digit(decimal(n)[0]));
    let m = seq!['-'] + decimal(n);
    assert(m.skip(1) == decimal(n));
}

} // verus!
