//! What holds of the chips and pins: which chip is chosen, and when a key counts as pressed.
use vstd::prelude::*;
use crate::gpio::{
    backend_named, backend_setting, base_setting, best, best_chip_is_chosen, better, cdev_candidate,
    cdev_candidates, dark_lamps, file_label, file_number, line_names, line_pressed, listing_pressed,
    main_label, pin_names, pin_setting, sysfs_candidate, sysfs_candidates, Candidate, CdevChip,
    GpioBackend, SysfsChip, DEFAULT_BASE,
};
use crate::led_screen::{line_offset_spec, BusKind, LedScreen, Line};
use crate::number::{all_digits, decimal, decimal_reads_back};
use crate::text::{
    back_run, contains, ends_with, in_class, is_digit, is_white, lemma_back_run_is, lines, lowered,
    starts_with, stripped_back, Class,
};
use crate::text_laws::{
    all_in, contained_is_a_part, free_of, has_part, lines_come_apart, part_is_contained,
    trimming_takes_the_blanks,
};

verus! {

/// The chip that is chosen is a main one if there is any. Of those of its kind none has more lines,
/// and each that stands before it has fewer.
pub proof fn main_chip_with_most_lines_is_chosen(c: Seq<Candidate>)
    ensures
        best(c) matches Some(b) ==> (b.main <==> exists|j: int|
            0 <= j < c.len() && (#[trigger] c[j]).main),
        best(c) matches Some(b) ==> exists|i: int|
            0 <= i < c.len() && #[trigger] c[i] == b && (forall|j: int|
                0 <= j < c.len() && (#[trigger] c[j]).main == b.main ==> c[j].lines <= b.lines) && (
            forall|j: int|
                0 <= j < i && (#[trigger] c[j]).main == b.main ==> c[j].lines < b.lines),
        best(c) is None <==> c.len() == 0,
{
    best_chip_is_chosen(c);
    if c.len() > 0 {
        let i = choose|i: int|
            0 <= i < c.len() && best(c) == Some(#[trigger] c[i]) && (forall|j: int|
                0 <= j < c.len() ==> !better(#[trigger] c[j], c[i])) && (forall|j: int|
                0 <= j < i ==> better(c[i], #[trigger] c[j]));
        let b = c[i];
        assert forall|j: int| 0 <= j < c.len() && (#[trigger] c[j]).main == b.main implies c[j].lines
            <= b.lines by {
            assert(!better(c[j], c[i]));
        }
        assert forall|j: int| 0 <= j < i && (#[trigger] c[j]).main == b.main implies c[j].lines
            < b.lines by {
            assert(better(c[i], c[j]));
        }
        if exists|j: int| 0 <= j < c.len() && (#[trigger] c[j]).main {
            let j = choose|j: int| 0 <= j < c.len() && (#[trigger] c[j]).main;
            assert(!better(c[j], c[i]));
        }
        assert(c[i] == b);
    }
}

/// A main chip has one of two words in its label.
pub proof fn main_chip_is_known_by_its_label(label: Seq<char>)
    ensures
        main_label(label) <==> has_part(label, seq!['p', 'i', 'n', 'c', 't', 'r', 'l']) || has_part(
            label,
            seq!['t', 'l', 'm', 'm'],
        ),
{
    reveal_strlit("pinctrl");
    reveal_strlit("tlmm");
    assert("pinctrl"@ =~= seq!['p', 'i', 'n', 'c', 't', 'r', 'l']);
    assert("tlmm"@ =~= seq!['t', 'l', 'm', 'm']);
    part_is_contained(label, "pinctrl"@);
    part_is_contained(label, "tlmm"@);
}

proof fn lemma_decimal_is_no_blank(n: nat)
    ensures
        decimal(n).len() > 0,
        !is_white(decimal(n)[0]),
        !is_white(decimal(n).last()),
{
    decimal_reads_back(n);
    assert(is_digit(decimal(n)[0]));
    assert(is_digit(decimal(n)[decimal(n).len() - 1]));
}

/// A file holds the number that is written in it, blanks and line ends round it or not.
pub proof fn file_holds_its_number(front: Seq<char>, n: nat, back: Seq<char>, text: String)
    requires
        all_in(front, Class::White),
        all_in(back, Class::White),
        text@ == front + decimal(n) + back,
    ensures
        n <= 0xffff_ffff_ffff_ffff ==> file_number(Some(text)) == Some(n),
        n > 0xffff_ffff_ffff_ffff ==> file_number(Some(text)) is None,
        file_number(None) is None,
{
    lemma_decimal_is_no_blank(n);
    trimming_takes_the_blanks(front, decimal(n), back);
    decimal_reads_back(n);
    assert(is_digit(decimal(n)[0]));
}

/// A file holds its label without the blanks and line ends round it, in small letters.
pub proof fn file_holds_its_label(front: Seq<char>, s: Seq<char>, back: Seq<char>, text: String)
    requires
        all_in(front, Class::White),
        all_in(back, Class::White),
        s.len() > 0 ==> !is_white(s[0]) && !is_white(s.last()),
        text@ == front + s + back,
    ensures
        file_label(Some(text)) == lowered(s),
        file_label(None) == lowered(Seq::<char>::empty()),
{
    trimming_takes_the_blanks(front, s, back);
}

/// A directory whose name begins as those of chips do, and that has a base, is a chip: it is found
/// by its base. Where it does not say how many lines it has, it has none. Nothing else is a chip.
pub proof fn chip_is_found_by_its_base(e: SysfsChip)
    ensures
        sysfs_candidate(e) is Some <==> starts_with(
            e.name@,
            seq!['g', 'p', 'i', 'o', 'c', 'h', 'i', 'p'],
        ) && file_number(e.base) is Some,
        sysfs_candidate(e) matches Some(c) ==> {
            &&& file_number(e.base) == Some(c.key as nat)
            &&& file_number(e.ngpio) matches Some(n) ==> c.lines == n
            &&& file_number(e.ngpio) is None ==> c.lines == 0
            &&& c.main == main_label(file_label(e.label))
        },
{
    reveal_strlit("gpiochip");
    assert("gpiochip"@ =~= seq!['g', 'p', 'i', 'o', 'c', 'h', 'i', 'p']);
}

/// A device file whose name begins as those of chips do, and that answers as one, is a chip: it is
/// found by its place in the listing.
pub proof fn device_is_found_by_its_place(e: CdevChip, i: int)
    requires
        0 <= i <= u64::MAX,
    ensures
        cdev_candidate(e, i) is Some <==> starts_with(
            e.name@,
            seq!['g', 'p', 'i', 'o', 'c', 'h', 'i', 'p'],
        ) && e.info is Some,
        cdev_candidate(e, i) matches Some(c) ==> {
            &&& c.key == i
            &&& e.info matches Some(info) && c.lines == info.1 && c.main == main_label(
                lowered(info.0@),
            )
        },
{
    reveal_strlit("gpiochip");
    assert("gpiochip"@ =~= seq!['g', 'p', 'i', 'o', 'c', 'h', 'i', 'p']);
}

/// The chips of a listing are those of its parts, in order.
pub proof fn chips_of_a_listing_stand_in_order(a: Seq<SysfsChip>, e: SysfsChip, b: Seq<SysfsChip>)
    ensures
        sysfs_candidates(a + b) == sysfs_candidates(a) + sysfs_candidates(b),
        sysfs_candidate(e) matches Some(c) ==> sysfs_candidates(seq![e]) == seq![c],
        sysfs_candidate(e) is None ==> sysfs_candidates(seq![e]).len() == 0,
    decreases b.len(),
{
    assert(seq![e].drop_last() =~= Seq::<SysfsChip>::empty());
    assert(sysfs_candidates(Seq::<SysfsChip>::empty()) =~= Seq::<Candidate>::empty());
    if let Some(c) = sysfs_candidate(e) {
        assert(Seq::<Candidate>::empty().push(c) =~= seq![c]);
    }
    if b.len() == 0 {
        assert(a + b =~= a);
        assert(sysfs_candidates(a) + sysfs_candidates(b) =~= sysfs_candidates(a));
    } else {
        chips_of_a_listing_stand_in_order(a, e, b.drop_last());
        assert((a + b).drop_last() =~= a + b.drop_last());
        assert((a + b).last() == b.last());
        assert(sysfs_candidates(a + b) =~= sysfs_candidates(a) + sysfs_candidates(b));
    }
}

/// The device files that are chips are all there, and each is found again at its place.
pub proof fn devices_are_found_again(entries: Seq<CdevChip>, i: int, k: int)
    requires
        entries.len() <= u64::MAX,
    ensures
        0 <= k < cdev_candidates(entries).len() ==> {
            let c = cdev_candidates(entries)[k];
            c.key < entries.len() && cdev_candidate(entries[c.key as int], c.key as int) == Some(c)
        },
        0 <= i < entries.len() ==> (cdev_candidate(entries[i], i) matches Some(c)
            ==> cdev_candidates(entries).contains(c)),
    decreases entries.len(),
{
    if entries.len() > 0 {
        let d = entries.drop_last();
        let n = entries.len() - 1;
        let rest = cdev_candidates(d);
        devices_are_found_again(d, i, k);
        if 0 <= k < rest.len() {
            let c = rest[k];
            assert(cdev_candidates(entries)[k] == c);
            assert(d[c.key as int] == entries[c.key as int]);
        }
        if 0 <= i < n {
            assert(d[i] == entries[i]);
            if let Some(c) = cdev_candidate(entries[i], i) {
                let j = choose|j: int| 0 <= j < rest.len() && rest[j] == c;
                assert(cdev_candidates(entries)[j] == c);
            }
        } else if i == n {
            if let Some(c) = cdev_candidate(entries[i], i) {
                assert(cdev_candidates(entries)[rest.len() as int] == c);
            }
        }
    }
}

/// Where no chip is found, the lines begin at 512.
pub proof fn lines_begin_at_the_default()
    ensures
        DEFAULT_BASE == 512,
        best(sysfs_candidates(Seq::<SysfsChip>::empty())) is None,
        best(cdev_candidates(Seq::<CdevChip>::empty())) is None,
{
}

/// The three backends have their names, and no other name is one.
pub proof fn backends_have_their_names(s: Seq<char>)
    ensures
        backend_named(seq!['a', 'u', 't', 'o']) == Some(GpioBackend::Auto),
        backend_named(seq!['c', 'd', 'e', 'v']) == Some(GpioBackend::Cdev),
        backend_named(seq!['s', 'y', 's', 'f', 's']) == Some(GpioBackend::Sysfs),
        s != seq!['a', 'u', 't', 'o'] && s != seq!['c', 'd', 'e', 'v'] && s != seq![
            's',
            'y',
            's',
            'f',
            's',
        ] ==> backend_named(s) is None,
{
    reveal_strlit("auto");
    reveal_strlit("cdev");
    reveal_strlit("sysfs");
    assert("auto"@ =~= seq!['a', 'u', 't', 'o']);
    assert("cdev"@ =~= seq!['c', 'd', 'e', 'v']);
    assert("sysfs"@ =~= seq!['s', 'y', 's', 'f', 's']);
    assert("auto"@[0] == 'a');
    assert("cdev"@[0] == 'c');
    assert("sysfs"@[0] == 's');
}

/// A line names a pin by its offset on the chip, `gpio7  :` or `gpio-7 `, or by its number in the
/// system, `gpio-519 ` or `gpio-519(`, and in no other way.
pub proof fn pin_is_named_in_four_ways(line: Seq<char>, pin: nat, number: nat)
    ensures
        line_names(line, pin_names(pin, number)) <==> {
            ||| has_part(line, "gpio"@ + decimal(pin) + "  :"@)
            ||| has_part(line, "gpio-"@ + decimal(pin) + " "@)
            ||| has_part(line, "gpio-"@ + decimal(number) + " "@)
            ||| has_part(line, "gpio-"@ + decimal(number) + "("@)
        },
{
    let n = pin_names(pin, number);
    part_is_contained(line, "gpio"@ + decimal(pin) + "  :"@);
    part_is_contained(line, "gpio-"@ + decimal(pin) + " "@);
    part_is_contained(line, "gpio-"@ + decimal(number) + " "@);
    part_is_contained(line, "gpio-"@ + decimal(number) + "("@);
    assert(n.len() == 4);
    assert(n[0] == "gpio"@ + decimal(pin) + "  :"@);
    assert(n[1] == "gpio-"@ + decimal(pin) + " "@);
    assert(n[2] == "gpio-"@ + decimal(number) + " "@);
    assert(n[3] == "gpio-"@ + decimal(number) + "("@);
    if line_names(line, n) {
        let i = choose|i: int| 0 <= i < n.len() && contains(line, #[trigger] n[i]);
        assert(i == 0 || i == 1 || i == 2 || i == 3);
    }
}

/// The word for a low pin ends a line, but for blanks.
pub open spec fn ends_low(line: Seq<char>) -> bool {
    exists|x: Seq<char>, blanks: Seq<char>|
        all_in(blanks, Class::White) && line == #[trigger] (x + " lo"@ + blanks)
}

/// A line says that its pin is pressed where it says that the pin is an input, and that it is low.
pub proof fn pressed_key_is_a_low_input(line: Seq<char>)
    ensures
        line_pressed(line) <==> has_part(line, seq![' ', 'i', 'n', ' ']) && (has_part(
            line,
            seq![' ', 'l', 'o', 'w'],
        ) || has_part(line, seq![' ', 'l', 'o', ' ']) || ends_low(line)),
{
    reveal_strlit(" in ");
    reveal_strlit(" low");
    reveal_strlit(" lo ");
    assert(" in "@ =~= seq![' ', 'i', 'n', ' ']);
    assert(" low"@ =~= seq![' ', 'l', 'o', 'w']);
    assert(" lo "@ =~= seq![' ', 'l', 'o', ' ']);
    part_is_contained(line, " in "@);
    part_is_contained(line, " low"@);
    part_is_contained(line, " lo "@);
    lemma_ends_low(line);
}

proof fn lemma_back_run(s: Seq<char>, k: Class)
    ensures
        back_run(s, k) <= s.len(),
        all_in(s.skip(s.len() - back_run(s, k)), k),
    decreases s.len(),
{
    if s.len() > 0 && in_class(k, s.last()) {
        let d = s.drop_last();
        lemma_back_run(d, k);
        let n = d.len() - back_run(d, k);
        assert forall|i: int| 0 <= i < s.skip(n).len() implies in_class(
            k,
            #[trigger] s.skip(n)[i],
        ) by {
            if n + i < s.len() - 1 {
                assert(d.skip(n)[i] == s.skip(n)[i]);
            }
        }
    }
}

proof fn lemma_ends_low(line: Seq<char>)
    ensures
        ends_low(line) <==> ends_with(stripped_back(line, Class::White), " lo"@),
{
    if ends_with(stripped_back(line, Class::White), " lo"@) {
        lemma_low_is_found(line);
    }
    if ends_low(line) {
        reveal_strlit(" lo");
        let (x, blanks) = choose|x: Seq<char>, blanks: Seq<char>|
            all_in(blanks, Class::White) && line == #[trigger] (x + " lo"@ + blanks);
        lemma_cut(x, " lo"@, blanks);
        contained_is_a_part(x, " lo"@, blanks, x);
    }
}

proof fn lemma_low_is_found(line: Seq<char>)
    requires
        ends_with(stripped_back(line, Class::White), " lo"@),
    ensures
        ends_low(line),
{
    let p = " lo"@;
    let cut = stripped_back(line, Class::White);
    lemma_back_run(line, Class::White);
    let n = (line.len() - back_run(line, Class::White)) as int;
    assert(cut == line.take(n));
    let blanks = line.skip(n);
    let k = (n - p.len()) as int;
    assert(cut.subrange(k, n) == p);
    let x = line.take(k);
    assert(cut =~= x + p) by {
        assert(cut.subrange(0, k) =~= x);
        assert(cut =~= cut.subrange(0, k) + cut.subrange(k, n));
    }
    assert(line =~= cut + blanks);
    assert(line == x + p + blanks);
}

proof fn lemma_cut(x: Seq<char>, p: Seq<char>, blanks: Seq<char>)
    requires
        p.len() > 0,
        !is_white(p.last()),
        all_in(blanks, Class::White),
    ensures
        stripped_back(x + p + blanks, Class::White) == x + p,
{
    let s = x + p + blanks;
    assert forall|i: int| s.len() - blanks.len() <= i < s.len() implies in_class(
        Class::White,
        #[trigger] s[i],
    ) by {
        assert(s[i] == blanks[i - x.len() - p.len()]);
    }
    assert(s[s.len() - blanks.len() - 1] == p.last());
    lemma_back_run_is(s, Class::White, blanks.len() as int);
    assert(s.take(s.len() - blanks.len()) =~= x + p);
}

/// A listing says that a pin is pressed where one of its lines does, that of the pin.
pub proof fn listing_is_read_line_by_line(
    line: Seq<char>,
    rest: Seq<char>,
    names: Seq<Seq<char>>,
)
    requires
        free_of(line, '\n'),
        line.len() > 0 ==> line.last() != '\r',
    ensures
        listing_pressed(line + seq!['\n'] + rest, names) <==> (line_names(line, names)
            && line_pressed(line)) || listing_pressed(rest, names),
        !listing_pressed(Seq::<char>::empty(), names),
{
    lines_come_apart(line, rest);
    let all = lines(line + seq!['\n'] + rest);
    let below = lines(rest);
    assert(all =~= seq![line] + below);
    assert(lines(Seq::<char>::empty()).len() == 0);
    if listing_pressed(line + seq!['\n'] + rest, names) {
        let i = choose|i: int|
            0 <= i < all.len() && line_names(#[trigger] all[i], names) && line_pressed(all[i]);
        if i > 0 {
            assert(all[i] == below[i - 1]);
        }
    }
    if line_names(line, names) && line_pressed(line) {
        assert(all[0] == line);
    }
    if listing_pressed(rest, names) {
        let i = choose|i: int|
            0 <= i < below.len() && line_names(#[trigger] below[i], names) && line_pressed(
                below[i],
            );
        assert(all[i + 1] == below[i]);
    }
}

/// Each of the four status lamps has its own bit, and stays dark where it is disabled: the clock's
/// is the first, the medal's the second, then those for what goes up and what comes down.
pub proof fn each_lamp_has_its_bit(clock: bool, medal: bool, up: bool, down: bool)
    ensures
        ({
            let mask = dark_lamps(clock, medal, up, down);
            &&& 0 <= mask < 16
            &&& mask % 2 == 1 <==> clock
            &&& (mask / 2) % 2 == 1 <==> medal
            &&& (mask / 4) % 2 == 1 <==> up
            &&& mask / 8 == 1 <==> down
        }),
{
}

/// A setting is the backend that it names, blanks round it or not; with any other text it leaves the
/// choice open.
pub proof fn setting_names_its_backend(front: Seq<char>, s: Seq<char>, back: Seq<char>)
    requires
        all_in(front, Class::White),
        all_in(back, Class::White),
        s.len() > 0,
        !is_white(s[0]),
        !is_white(s.last()),
    ensures
        s == seq!['c', 'd', 'e', 'v'] ==> backend_setting(front + s + back) == GpioBackend::Cdev,
        s == seq!['s', 'y', 's', 'f', 's'] ==> backend_setting(front + s + back)
            == GpioBackend::Sysfs,
        s != seq!['c', 'd', 'e', 'v'] && s != seq!['s', 'y', 's', 'f', 's'] ==> backend_setting(
            front + s + back,
        ) == GpioBackend::Auto,
{
    trimming_takes_the_blanks(front, s, back);
    backends_have_their_names(s);
}

/// A setting is the pin whose number it holds, blanks round it or not; a number that no pin has, and
/// a text without a digit, leave the default.
pub proof fn setting_is_its_pin(
    front: Seq<char>,
    n: nat,
    s: Seq<char>,
    back: Seq<char>,
    default: u32,
)
    requires
        all_in(front, Class::White),
        all_in(back, Class::White),
        s.len() > 0 ==> !is_white(s[0]) && !is_white(s.last()),
        forall|i: int| 0 <= i < s.len() ==> !is_digit(#[trigger] s[i]),
    ensures
        n <= 0xffff_ffff ==> pin_setting(front + decimal(n) + back, default) == n,
        n > 0xffff_ffff ==> pin_setting(front + decimal(n) + back, default) == default,
        pin_setting(front + s + back, default) == default,
{
    lemma_decimal_is_no_blank(n);
    trimming_takes_the_blanks(front, decimal(n), back);
    trimming_takes_the_blanks(front, s, back);
    decimal_reads_back(n);
    assert(is_digit(decimal(n)[0]));
    if s.len() > 0 && all_digits(s) {
        assert(is_digit(s[0]));
    }
    if s.len() > 1 && all_digits(s.skip(1)) {
        assert(is_digit(s.skip(1)[0]));
        assert(s.skip(1)[0] == s[1]);
    }
}

/// The offsets of the four lines of the screen, and the buses that are tried: the one of the
/// setting, or, where the choice is open, the character device and behind it sysfs.
pub proof fn screen_has_four_lines(screen: LedScreen)
    ensures
        line_offset_spec(Line::StbLeft) == 69 && line_offset_spec(Line::StbRight) == 70,
        line_offset_spec(Line::Clk) == 73 && line_offset_spec(Line::Dio) == 74,
        screen.backend == GpioBackend::Auto ==> screen.buses() == seq![
            BusKind::Cdev,
            BusKind::Sysfs,
        ],
        screen.backend == GpioBackend::Cdev ==> screen.buses() == seq![BusKind::Cdev],
        screen.backend == GpioBackend::Sysfs ==> screen.buses() == seq![BusKind::Sysfs],
{
}

/// A setting is the base whose number it holds, blanks round it or not. A text without a digit
/// leaves the base to be found out.
pub proof fn setting_is_its_base(front: Seq<char>, n: nat, s: Seq<char>, back: Seq<char>)
    requires
        all_in(front, Class::White),
        all_in(back, Class::White),
        s.len() > 0 ==> !is_white(s[0]) && !is_white(s.last()),
        forall|i: int| 0 <= i < s.len() ==> !is_digit(#[trigger] s[i]),
    ensures
        n <= 0xffff_ffff_ffff_ffff ==> base_setting(front + decimal(n) + back) == Some(n),
        n > 0xffff_ffff_ffff_ffff ==> base_setting(front + decimal(n) + back) is None,
        base_setting(front + s + back) is None,
{
    lemma_decimal_is_no_blank(n);
    trimming_takes_the_blanks(front, decimal(n), back);
    trimming_takes_the_blanks(front, s, back);
    decimal_reads_back(n);
    assert(is_digit(decimal(n)[0]));
    if s.len() > 0 && all_digits(s) {
        assert(is_digit(s[0]));
    }
    if s.len() > 1 && all_digits(s.skip(1)) {
        assert(is_digit(s.skip(1)[0]));
        assert(s.skip(1)[0] == s[1]);
    }
}

} // verus!
