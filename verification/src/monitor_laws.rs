//! What holds of the readings: every counter is read whole, and shown as what it counts.
use vstd::prelude::*;
use crate::bytes::{
    as_double, double_step, half_even, hundredths, rounding_is_to_the_nearest,
    small_counts_are_exact, tenths, total_text,
};
use crate::monitor::{
    cpu_stats, cpu_total, devices_text, joined, less, load_text, mem_value, net_bytes,
    number_or_zero, sensor_label, sensor_text, sensors_text, uptime_text, CpuReading, SpeedReading,
    SystemMonitor, MAX_SPEED_NANOS, MIN_SPEED_NANOS,
};
use crate::number::{all_digits, decimal, decimal_reads_back, digit_char, digits_value};
use crate::text::{
    before, contains, erased, is_digit, is_white, lines, lowered, matches_at, starts_with, words,
    Class,
};
use crate::text_laws::{
    all_in, contained_character_stands_somewhere, contained_is_a_part, erasing_leaves_the_rest,
    erasing_takes_the_first_and_goes_on, first_of, free_of, is_word, lines_come_apart,
    text_is_cut_at_the_first, trimming_takes_the_blanks, words_come_apart,
};

verus! {

/// A field that holds a number is that number, as large as a counter can be; a field without a
/// digit, or with a number that no counter can have, is none.
pub proof fn field_is_its_number(n: nat, s: Seq<char>)
    ensures
        n <= 0xffff_ffff_ffff_ffff ==> number_or_zero(decimal(n)) == n,
        n > 0xffff_ffff_ffff_ffff ==> number_or_zero(decimal(n)) == 0,
        s.len() > 0 && all_digits(s) && digits_value(s) <= 0xffff_ffff_ffff_ffff ==> number_or_zero(
            s,
        ) == digits_value(s),
        (forall|i: int| 0 <= i < s.len() ==> !is_digit(#[trigger] s[i])) ==> number_or_zero(s) == 0,
{
    decimal_reads_back(n);
    assert(is_digit(decimal(n)[0]));
    if s.len() > 0 && all_digits(s) {
        assert(is_digit(s[0]));
    }
    if s.len() > 1 && all_digits(s.skip(1)) {
        assert(is_digit(s.skip(1)[0]));
        assert(s.skip(1)[0] == s[1]);
    }
}

/// Words with a blank between two are the words of the text.
pub proof fn joined_words_come_apart(parts: Seq<Seq<char>>)
    requires
        forall|i: int| 0 <= i < parts.len() ==> is_word(#[trigger] parts[i]),
    ensures
        words(joined(parts)) == parts,
    decreases parts.len(),
{
    reveal_strlit(" ");
    assert(" "@ =~= seq![' ']);
    if parts.len() == 0 {
        words_come_apart(seq![], ' ', seq![]);
        assert(words(Seq::<char>::empty()) =~= parts);
    } else if parts.len() == 1 {
        assert(is_word(parts[0]));
        words_come_apart(parts[0], ' ', seq![]);
        assert(parts =~= seq![parts[0]]);
    } else {
        let front = parts.drop_last();
        assert forall|i: int| 0 <= i < front.len() implies is_word(#[trigger] front[i]) by {
            assert(front[i] == parts[i]);
        }
        joined_words_come_apart(front);
        assert(is_word(parts[parts.len() - 1]));
        words_come_apart(joined(front), ' ', parts.last());
        words_come_apart(parts.last(), ' ', seq![]);
        assert(front + seq![parts.last()] =~= parts);
    }
}

/// One more text comes behind the others, with one blank before it.
pub proof fn joined_texts_stand_in_a_row(parts: Seq<Seq<char>>, p: Seq<char>)
    ensures
        joined(seq![p]) == p,
        parts.len() > 0 ==> joined(parts.push(p)) == joined(parts) + seq![' '] + p,
{
    reveal_strlit(" ");
    assert(" "@ =~= seq![' ']);
    assert(parts.push(p).drop_last() =~= parts);
}

/// A line is not of an interface, or has not all fields: its first word is neither the name nor
/// begins with the name and a colon, or it stops before the bytes that were sent.
pub open spec fn tells_nothing_of(line: Seq<char>, interface: Seq<char>) -> bool {
    ||| words(line).len() < 10
    ||| words(line)[0] == interface && words(line).len() == 10
    ||| words(line)[0] != interface && !starts_with(words(line)[0], interface + seq![':'])
}

proof fn lemma_first_word(w: Seq<char>, interface: Seq<char>)
    requires
        free_of(interface, ':'),
    ensures
        before(w, ':') == interface <==> w == interface || starts_with(w, interface + seq![':']),
        w == interface ==> !contains(w, ":"@),
        starts_with(w, interface + seq![':']) ==> contains(w, ":"@),
{
    reveal_strlit(":");
    assert(":"@ =~= seq![':']);
    let p = interface + seq![':'];
    contained_character_stands_somewhere(w, ':');
    contained_is_a_part(w, p, w, w);
    text_is_cut_at_the_first(interface, ':', w.skip(p.len() as int));
    if starts_with(w, p) {
        assert(w[interface.len() as int] == ':') by {
            assert(w.subrange(0, p.len() as int)[interface.len() as int] == ':');
        }
    }
    if before(w, ':') == interface {
        if free_of(w, ':') {
            text_is_cut_at_the_first(w, ':', w);
        } else {
            let n = first_of(w, ':');
            let a = w.take(n);
            assert(w =~= a + seq![':'] + w.skip(n + 1));
            text_is_cut_at_the_first(a, ':', w.skip(n + 1));
            assert(w =~= p + w.skip(n + 1));
            contained_is_a_part(w, p, w.skip(n + 1), w);
        }
    }
}

proof fn lemma_nothing_above(
    above: Seq<Seq<char>>,
    rest: Seq<Seq<char>>,
    interface: Seq<char>,
)
    requires
        free_of(interface, ':'),
        forall|i: int| 0 <= i < above.len() ==> tells_nothing_of(#[trigger] above[i], interface),
    ensures
        net_bytes(above + rest, interface) == net_bytes(rest, interface),
    decreases above.len(),
{
    if above.len() == 0 {
        assert(above + rest =~= rest);
    } else {
        let tail = above.skip(1);
        assert forall|i: int| 0 <= i < tail.len() implies tells_nothing_of(
            #[trigger] tail[i],
            interface,
        ) by {
            assert(tail[i] == above[i + 1]);
        }
        lemma_nothing_above(tail, rest, interface);
        assert((above + rest).skip(1) =~= tail + rest);
        assert((above + rest)[0] == above[0]);
        assert(tells_nothing_of(above[0], interface));
        if words(above[0]).len() > 0 {
            lemma_first_word(words(above[0])[0], interface);
        }
    }
}

/// The bytes of an interface are its counters, whole: where its first full line has the name with
/// a colon, the first and the ninth field behind it; where the colon stands alone, the same fields
/// behind the colon.
pub proof fn counters_are_read_whole(
    above: Seq<Seq<char>>,
    line: Seq<char>,
    below: Seq<Seq<char>>,
    interface: Seq<char>,
    rx: nat,
    tx: nat,
)
    requires
        free_of(interface, ':'),
        forall|i: int| 0 <= i < above.len() ==> tells_nothing_of(#[trigger] above[i], interface),
        rx <= 0xffff_ffff_ffff_ffff,
        tx <= 0xffff_ffff_ffff_ffff,
    ensures
        words(line).len() >= 10 && starts_with(words(line)[0], interface + seq![':'])
            && words(line)[1] == decimal(rx) && words(line)[9] == decimal(tx) ==> net_bytes(
            above + seq![line] + below,
            interface,
        ) == (rx, tx),
        words(line).len() >= 11 && words(line)[0] == interface && words(line)[2] == decimal(rx)
            && words(line)[10] == decimal(tx) ==> net_bytes(
            above + seq![line] + below,
            interface,
        ) == (rx, tx),
        net_bytes(above, interface) == (0nat, 0nat),
{
    let rest = seq![line] + below;
    assert(above + seq![line] + below =~= above + rest);
    lemma_nothing_above(above, rest, interface);
    lemma_nothing_above(above, seq![], interface);
    assert(above + Seq::<Seq<char>>::empty() =~= above);
    field_is_its_number(rx, seq![]);
    field_is_its_number(tx, seq![]);
    assert(rest[0] == line);
    if words(line).len() > 0 {
        lemma_first_word(words(line)[0], interface);
    }
}

/// So it is for a line that was written out: the name with a colon, and the fields behind it.
pub proof fn written_counters_are_read_back(
    above: Seq<Seq<char>>,
    fields: Seq<Seq<char>>,
    below: Seq<Seq<char>>,
    interface: Seq<char>,
    rx: nat,
    tx: nat,
)
    requires
        is_word(interface),
        free_of(interface, ':'),
        forall|i: int| 0 <= i < above.len() ==> tells_nothing_of(#[trigger] above[i], interface),
        fields.len() >= 9,
        forall|i: int| 0 <= i < fields.len() ==> is_word(#[trigger] fields[i]),
        fields[0] == decimal(rx),
        fields[8] == decimal(tx),
        rx <= 0xffff_ffff_ffff_ffff,
        tx <= 0xffff_ffff_ffff_ffff,
    ensures
        net_bytes(
            above + seq![joined(seq![interface + seq![':']] + fields)] + below,
            interface,
        ) == (rx, tx),
{
    let name = interface + seq![':'];
    let all = seq![name] + fields;
    assert forall|i: int| 0 <= i < all.len() implies is_word(#[trigger] all[i]) by {
        if i > 0 {
            assert(all[i] == fields[i - 1]);
        } else {
            assert forall|j: int| 0 <= j < name.len() implies !is_white(
                #[trigger] name[j],
            ) by {
                if j < interface.len() {
                    assert(name[j] == interface[j]);
                }
            }
        }
    }
    joined_words_come_apart(all);
    contained_is_a_part(name, name, seq![], name);
    assert(name + Seq::<char>::empty() =~= name);
    assert(all[1] == fields[0] && all[9] == fields[8]);
    counters_are_read_whole(above, joined(all), below, interface, rx, tx);
}

/// The sum of some numbers.
pub open spec fn sum_of(ns: Seq<nat>) -> nat
    decreases ns.len(),
{
    if ns.len() == 0 {
        0
    } else {
        sum_of(ns.drop_last()) + ns.last()
    }
}

/// The time of the processor is the sum of the first seven counters of its line, or of as many as
/// there are; the fourth counts its idle time. What stands below does not count.
pub proof fn processor_time_adds_up(line: Seq<char>, ns: Seq<nat>, below: Seq<char>)
    requires
        free_of(line, '\n'),
        line.last() != '\r',
        starts_with(line, "cpu "@),
        ns.len() >= 4,
        words(line).len() == ns.len() + 1,
        forall|i: int|
            0 <= i < ns.len() ==> ns[i] <= 0xffff_ffff_ffff_ffff && #[trigger] words(line)[i + 1]
                == decimal(ns[i]),
    ensures
        cpu_stats(line + seq!['\n'] + below).1 == ns[3],
        ns.len() >= 7 ==> cpu_stats(line + seq!['\n'] + below).0 == sum_of(ns.take(7)),
        ns.len() < 7 ==> cpu_stats(line + seq!['\n'] + below).0 == sum_of(ns),
{
    lines_come_apart(line, below);
    let content = line + seq!['\n'] + below;
    assert(lines(content)[0] == line);
    let p = words(line);
    assert forall|i: int| 0 <= i < ns.len() implies number_or_zero(#[trigger] p[i + 1]) == ns[i] by {
        field_is_its_number(ns[i], seq![]);
    }
    if ns.len() > 0 {
        assert(p[0int + 1] == decimal(ns[0]));
        assert(p[1int + 1] == decimal(ns[1]));
        assert(p[2int + 1] == decimal(ns[2]));
        assert(p[3int + 1] == decimal(ns[3]));
    }
    if ns.len() > 4 {
        assert(p[4int + 1] == decimal(ns[4]));
    }
    if ns.len() > 5 {
        assert(p[5int + 1] == decimal(ns[5]));
    }
    if ns.len() > 6 {
        assert(p[6int + 1] == decimal(ns[6]));
    }
    let k = if ns.len() >= 7 {
        ns.take(7)
    } else {
        assert(ns.take(ns.len() as int) =~= ns);
        ns
    };
    lemma_sum(k);
    assert(cpu_total(p) == sum_of(k));
}

proof fn lemma_sum(ns: Seq<nat>)
    requires
        4 <= ns.len() <= 7,
    ensures
        sum_of(ns) == ns[0] + ns[1] + ns[2] + ns[3] + (if ns.len() > 4 {
            ns[4]
        } else {
            0
        }) + (if ns.len() > 5 {
            ns[5]
        } else {
            0
        }) + (if ns.len() > 6 {
            ns[6]
        } else {
            0
        }),
{
    reveal_with_fuel(sum_of, 8);
}

/// A file that does not begin with the line of all processors counts no time.
pub proof fn other_lines_are_no_processor(line: Seq<char>, below: Seq<char>)
    requires
        free_of(line, '\n'),
        line.len() > 0 ==> line.last() != '\r',
        !starts_with(line, seq!['c', 'p', 'u', ' ']) || words(line).len() < 5,
    ensures
        cpu_stats(line + seq!['\n'] + below) == (0nat, 0nat),
{
    reveal_strlit("cpu ");
    assert("cpu "@ =~= seq!['c', 'p', 'u', ' ']);
    lines_come_apart(line, below);
    assert(lines(line + seq!['\n'] + below)[0] == line);
}

/// A line tells nothing of a key: it does not begin with it, or has no value.
pub open spec fn has_no_value_of(line: Seq<char>, key: Seq<char>) -> bool {
    words(line).len() < 2 || words(line)[0] != key
}

/// The value of a key is the second word of its last line; without such a line there is none.
pub proof fn last_value_counts(
    above: Seq<Seq<char>>,
    line: Seq<char>,
    below: Seq<Seq<char>>,
    key: Seq<char>,
)
    requires
        words(line).len() >= 2,
        words(line)[0] == key,
        forall|i: int| 0 <= i < below.len() ==> has_no_value_of(#[trigger] below[i], key),
    ensures
        mem_value(above + seq![line] + below, key) == Some(words(line)[1]),
        mem_value(below, key) is None,
    decreases below.len(),
{
    let all = above + seq![line] + below;
    if below.len() == 0 {
        assert(all.last() == line);
    } else {
        let front = below.drop_last();
        assert forall|i: int| 0 <= i < front.len() implies has_no_value_of(
            #[trigger] front[i],
            key,
        ) by {
            assert(front[i] == below[i]);
        }
        last_value_counts(above, line, front, key);
        assert(all.drop_last() =~= above + seq![line] + front);
        assert(all.last() == below[below.len() - 1]);
    }
}

/// A system that has been up for so many days, hours, minutes and seconds shows the days and the
/// hours; in its first day the hours and the minutes; in its first hour the minutes.
pub proof fn uptime_shows_its_largest_units(d: nat, h: nat, m: nat, s: nat)
    requires
        h < 24,
        m < 60,
        s < 60,
    ensures
        d > 0 ==> uptime_text(d * 86400 + h * 3600 + m * 60 + s) == seq!['U', 'p', ':'] + decimal(d)
            + seq!['d'] + decimal(h) + seq!['h'],
        h > 0 ==> uptime_text(h * 3600 + m * 60 + s) == seq!['U', 'p', ':'] + decimal(h) + seq!['h']
            + decimal(m) + seq!['m'],
        uptime_text(m * 60 + s) == seq!['U', 'p', ':'] + decimal(m) + seq!['m'],
{
    reveal_strlit("Up:");
    reveal_strlit("d");
    reveal_strlit("h");
    reveal_strlit("m");
    assert("Up:"@ =~= seq!['U', 'p', ':']);
    assert("d"@ =~= seq!['d']);
    assert("h"@ =~= seq!['h']);
    assert("m"@ =~= seq!['m']);
    let day: nat = h * 3600 + m * 60 + s;
    assert(day < 86400 && day / 3600 == h && (day % 3600) / 60 == m);
    let all: nat = d * 86400 + day;
    assert(all / 86400 == d && all % 86400 == day);
}

/// What a counter has grown by since it was last looked at. One that has begun anew has not grown.
pub proof fn growth_is_what_was_added(seen: u64, more: u64)
    requires
        seen + more <= u64::MAX,
    ensures
        less((seen + more) as u64, seen) == more,
        less(seen, (seen + more) as u64) == 0,
{
}

/// A speed is taken over a tenth of a second at least, and half a minute at most.
pub proof fn speed_is_taken_over_a_while()
    ensures
        MIN_SPEED_NANOS * 10 == 1_000_000_000,
        MAX_SPEED_NANOS == 30_000_000_000,
{
}

/// `q` is the whole number next to `a / b`, the even one where two are as near.
pub open spec fn is_nearest(q: nat, a: nat, b: nat) -> bool {
    &&& 2 * (q * b - a) <= b
    &&& 2 * (a - q * b) <= b
    &&& 2 * (q * b - a) == b || 2 * (a - q * b) == b ==> q % 2 == 0
}

proof fn lemma_nearest(a: nat, b: nat)
    requires
        b > 0,
    ensures
        is_nearest(half_even(a, b), a, b),
{
    rounding_is_to_the_nearest(a, b);
    let q = a / b;
    let r = a % b;
    assert(a == q * b + r && r < b) by (nonlinear_arith)
        requires
            b > 0,
            q == a / b,
            r == a % b,
    ;
    assert((q + 1) * b == q * b + b) by (nonlinear_arith);
}

/// Some hundredths, with a decimal point and two places, and some tenths, with one.
pub open spec fn with_places(q: nat, places: nat) -> Seq<char> {
    if places == 2 {
        decimal(q / 100) + seq!['.', digit_char((q / 10) % 10), digit_char(q % 10)]
    } else if places == 1 {
        decimal(q / 10) + seq!['.', digit_char(q % 10)]
    } else {
        decimal(q)
    }
}

/// A count in hundredths, in tenths, or as it is.
pub open spec fn in_places(count: nat, places: nat) -> nat {
    if places == 2 {
        count * 100
    } else if places == 1 {
        count * 10
    } else {
        count
    }
}

/// A text is a count of bytes in a unit: so many times the unit, to the nearest place.
pub open spec fn tells(text: Seq<char>, count: nat, unit: nat, places: nat, sign: char) -> bool {
    exists|q: nat| #[trigger]
        is_nearest(q, in_places(count, places), unit) && text == with_places(q, places) + seq![sign]
}

/// A count of bytes is shown in the largest unit that it exceeds, rounded to the nearest: with two
/// places in T and G, one in M, and none in K.
pub proof fn count_is_shown_in_its_unit(n: nat)
    ensures
        as_double(n) > 1_099_511_627_776 ==> tells(
            total_text(n),
            as_double(n),
            1_099_511_627_776,
            2,
            'T',
        ),
        1_073_741_824 < as_double(n) <= 1_099_511_627_776 ==> tells(
            total_text(n),
            as_double(n),
            1_073_741_824,
            2,
            'G',
        ),
        1_048_576 < as_double(n) <= 1_073_741_824 ==> tells(
            total_text(n),
            as_double(n),
            1_048_576,
            1,
            'M',
        ),
        as_double(n) <= 1_048_576 ==> tells(total_text(n), as_double(n), 1024, 0, 'K'),
        n < 9_007_199_254_740_992 ==> as_double(n) == n,
{
    reveal_strlit("T");
    reveal_strlit("G");
    reveal_strlit("M");
    reveal_strlit("K");
    assert("T"@ =~= seq!['T']);
    assert("G"@ =~= seq!['G']);
    assert("M"@ =~= seq!['M']);
    assert("K"@ =~= seq!['K']);
    let b = as_double(n);
    if n < 9_007_199_254_740_992 {
        small_counts_are_exact(n);
    }
    lemma_two_places(b, 1_099_511_627_776, 'T');
    lemma_two_places(b, 1_073_741_824, 'G');
    lemma_one_place(b, 1_048_576, 'M');
    lemma_no_place(b, 1024, 'K');
}

proof fn lemma_two_places(b: nat, unit: nat, sign: char)
    requires
        unit > 0,
    ensures
        tells(hundredths(half_even(b * 100, unit)) + seq![sign], b, unit, 2, sign),
{
    let q = half_even(b * 100, unit);
    lemma_nearest(b * 100, unit);
    assert(hundredths(q) =~= with_places(q, 2));
    assert(is_nearest(q, in_places(b, 2), unit));
}

proof fn lemma_one_place(b: nat, unit: nat, sign: char)
    requires
        unit > 0,
    ensures
        tells(tenths(half_even(b * 10, unit)) + seq![sign], b, unit, 1, sign),
{
    let q = half_even(b * 10, unit);
    lemma_nearest(b * 10, unit);
    assert(tenths(q) =~= with_places(q, 1));
    assert(is_nearest(q, in_places(b, 1), unit));
}

proof fn lemma_no_place(b: nat, unit: nat, sign: char)
    requires
        unit > 0,
    ensures
        tells(decimal(half_even(b, unit)) + seq![sign], b, unit, 0, sign),
{
    let q = half_even(b, unit);
    lemma_nearest(b, unit);
    assert(is_nearest(q, in_places(b, 0), unit));
}

/// The double-precision numbers are all whole numbers below 2^53, every second one below 2^54,
/// and so on; a count beyond is rounded to the nearest of them.
pub proof fn large_counts_are_rounded(n: nat)
    ensures
        n < 0x20_0000_0000_0000 ==> double_step(n) == 1,
        0x20_0000_0000_0000 <= n < 0x40_0000_0000_0000 ==> double_step(n) == 2,
        n >= 0x20_0000_0000_0000 ==> double_step(n) == 2 * double_step(n / 2),
        as_double(n) % double_step(n) == 0,
        is_nearest(as_double(n) / double_step(n), n, double_step(n)),
    decreases n,
{
    if n >= 0x20_0000_0000_0000 {
        large_counts_are_rounded(n / 2);
    }
    lemma_step_positive(n);
    let step = double_step(n);
    let q = half_even(n, step);
    lemma_nearest(n, step);
    vstd::arithmetic::div_mod::lemma_fundamental_div_mod_converse(
        (q * step) as int,
        step as int,
        q as int,
        0,
    );
}

proof fn lemma_step_positive(n: nat)
    ensures
        double_step(n) >= 1,
    decreases n,
{
    if n >= 0x20_0000_0000_0000 {
        lemma_step_positive(n / 2);
    }
}

/// A speed is what the counter has grown by since the last look, over the time that has passed: the
/// received bytes in mode 0, the sent ones in any other. Each look that counts is the last one for
/// the next.
pub proof fn speed_is_the_growth_over_the_time(
    m: SystemMonitor,
    mode: u8,
    rx: u64,
    tx: u64,
    nanos: u64,
)
    requires
        m.last_rx_bytes > 0,
        m.last_tx_bytes > 0,
        m.last_rx_bytes + rx <= u64::MAX,
        m.last_tx_bytes + tx <= u64::MAX,
        m.last_net_check + nanos <= u64::MAX,
        100_000_000 <= nanos <= 30_000_000_000,
    ensures
        ({
            let net = ((m.last_rx_bytes + rx) as u64, (m.last_tx_bytes + tx) as u64);
            let now = (m.last_net_check + nanos) as u64;
            let (next, r) = m.looked(mode, net, now);
            &&& mode == 0 ==> r == SpeedReading::Rate(rx, nanos)
            &&& mode != 0 ==> r == SpeedReading::Rate(tx, nanos)
            &&& next == (SystemMonitor {
                last_rx_bytes: net.0,
                last_tx_bytes: net.1,
                last_net_check: now,
                ..m
            })
        }),
{
}

/// A look within a tenth of a second is none. One that comes after half a minute, and one without
/// counters to compare with, only begins anew. Counters that have begun anew have not grown.
pub proof fn look_too_soon_or_too_late_tells_no_speed(
    m: SystemMonitor,
    mode: u8,
    net: (u64, u64),
    now: u64,
)
    requires
        m.last_net_check <= now,
    ensures
        now - m.last_net_check < 100_000_000 ==> m.looked(mode, net, now) == (
            m,
            SpeedReading::TooSoon,
        ),
        now - m.last_net_check > 30_000_000_000 ==> m.looked(mode, net, now).1
            == SpeedReading::Baseline,
        now - m.last_net_check >= 100_000_000 ==> {
            &&& m.last_rx_bytes == 0 || m.last_tx_bytes == 0 ==> m.looked(mode, net, now).1
                == SpeedReading::Baseline
            &&& m.looked(mode, net, now).0 == (SystemMonitor {
                last_rx_bytes: net.0,
                last_tx_bytes: net.1,
                last_net_check: now,
                ..m
            })
            &&& net.0 < m.last_rx_bytes && net.1 < m.last_tx_bytes && now - m.last_net_check
                <= 30_000_000_000 ==> m.looked(mode, net, now).1 == SpeedReading::Rate(
                0,
                (now - m.last_net_check) as u64,
            )
        },
{
}

/// The use of the processor is the idle time since the last look, of all the time since. Where no
/// time has passed there is none.
pub proof fn processor_use_is_the_time_since(m: SystemMonitor, total: u64, idle: u64)
    requires
        m.last_cpu_total + total <= u64::MAX,
        m.last_cpu_idle + idle <= u64::MAX,
    ensures
        ({
            let cpu = ((m.last_cpu_total + total) as u64, (m.last_cpu_idle + idle) as u64);
            let (next, r) = m.timed(cpu);
            &&& total > 0 ==> r == CpuReading::Usage(idle, total)
            &&& total == 0 ==> r == CpuReading::Still
            &&& next == (SystemMonitor { last_cpu_total: cpu.0, last_cpu_idle: cpu.1, ..m })
        }),
{
}

/// The load is the first word of its file, whatever stands behind it.
pub proof fn load_is_the_first_word(w: Seq<char>, rest: Seq<char>)
    requires
        is_word(w),
    ensures
        load_text(w + seq![' '] + rest) == seq!['L', ':'] + w,
        load_text(w) == seq!['L', ':'] + w,
        load_text(Seq::<char>::empty()) == "L:Err"@,
{
    reveal_strlit("L:");
    assert("L:"@ =~= seq!['L', ':']);
    words_come_apart(w, ' ', rest);
    assert((seq![w] + words(rest))[0] == w);
}

/// There are as many devices as lines behind the first.
pub proof fn devices_are_counted(head: Seq<char>, devices: Seq<Seq<char>>)
    ensures
        devices_text(seq![head] + devices) == seq!['D', 'e', 'v', ':'] + decimal(devices.len()),
        devices_text(Seq::<Seq<char>>::empty()) == seq!['D', 'e', 'v', ':', '0'],
{
    reveal_strlit("Dev:");
    reveal_strlit("Dev:0");
    assert("Dev:"@ =~= seq!['D', 'e', 'v', ':']);
    assert("Dev:0"@ =~= seq!['D', 'e', 'v', ':', '0']);
    if devices.len() == 0 {
        assert(decimal(0) =~= seq!['0']);
        assert(seq!['D', 'e', 'v', ':'] + seq!['0'] =~= seq!['D', 'e', 'v', ':', '0']);
    }
}

/// A sensor is shown under its name in small letters, without the word that all sensors have.
pub proof fn sensor_has_its_short_name(
    front: Seq<char>,
    name: Seq<char>,
    back: Seq<char>,
    short: Seq<char>,
)
    requires
        all_in(front, Class::White),
        all_in(back, Class::White),
        name.len() > 0,
        !is_white(name[0]),
        !is_white(name.last()),
    ensures
        !contains(lowered(name), "-thermal"@) ==> sensor_label(front + name + back) == lowered(name),
        free_of(short, '-') && lowered(name) == short + "-thermal"@ ==> sensor_label(
            front + name + back,
        ) == short,
{
    trimming_takes_the_blanks(front, name, back);
    if !contains(lowered(name), "-thermal"@) {
        erasing_leaves_the_rest(lowered(name), "-thermal"@);
    }
    if free_of(short, '-') {
        lemma_last_part_goes(short);
    }
}

proof fn lemma_last_part_goes(short: Seq<char>)
    requires
        free_of(short, '-'),
    ensures
        erased(short + "-thermal"@, "-thermal"@) == short,
{
    reveal_strlit("-thermal");
    let p = "-thermal"@;
    let e = Seq::<char>::empty();
    let s = short + p + e;
    assert(s =~= short + p);
    assert forall|j: int| 0 <= j < short.len() implies !#[trigger] matches_at(s, p, j) by {
        if matches_at(s, p, j) {
            assert(s.subrange(j, j + p.len())[0] == s[j]);
            assert(s[j] == short[j]);
        }
    }
    erasing_takes_the_first_and_goes_on(short, p, e);
    assert(erased(e, p) =~= e);
    assert(short + e =~= short);
}

/// A temperature is shown behind the name of its sensor, with its unit; several have a blank between
/// them, and without any there is a mark for that.
pub proof fn temperatures_stand_in_a_row(
    label: Seq<char>,
    degrees: Seq<char>,
    entries: Seq<Seq<char>>,
    e: Seq<char>,
)
    ensures
        sensor_text(label, degrees) == label + seq![':'] + degrees + seq!['℃'],
        sensors_text(Seq::<Seq<char>>::empty()) == "Temp:--"@,
        sensors_text(seq![e]) == e,
        entries.len() > 0 ==> sensors_text(entries.push(e)) == sensors_text(entries) + seq![' ']
            + e,
{
    reveal_strlit(":");
    reveal_strlit("℃");
    assert(":"@ =~= seq![':']);
    assert("℃"@ =~= seq!['℃']);
    joined_texts_stand_in_a_row(entries, e);
}

/// A look that came too soon has dots for a speed; no bytes are no speed.
pub proof fn no_bytes_are_no_speed(bytes: u64, nanos: u64)
    ensures
        SpeedReading::TooSoon.shown() == Some("..."@),
        SpeedReading::Baseline.shown() == Some("0B"@),
        SpeedReading::Rate(0, nanos).shown() == Some("0B"@),
        bytes > 0 ==> SpeedReading::Rate(bytes, nanos).shown() is None,
{
}

/// All that came down has one mark, all that went up another.
pub proof fn totals_have_their_marks(rx: u64, tx: u64)
    ensures
        SystemMonitor::totals((rx, tx)).0 == seq!['T', 'D', ':'] + total_text(rx as nat),
        SystemMonitor::totals((rx, tx)).1 == seq!['T', 'U', ':'] + total_text(tx as nat),
{
    reveal_strlit("TD:");
    reveal_strlit("TU:");
    assert("TD:"@ =~= seq!['T', 'D', ':']);
    assert("TU:"@ =~= seq!['T', 'U', ':']);
}

} // verus!
