//! GPIO chips and pins: which backend and which chip to use, and what the
//! kernel's listing says of a pin.
use vstd::prelude::*;
use vstd::slice::slice_subrange;
use crate::number::{decimal, decimal_string, read_u32, read_u64, unsigned_number};
use crate::text::{
    ascii_lower, back_run_len, begins, chars_of, contains, ends_with, holds, has_chars, is_at, join2,
    join3, lines, lower_ascii, lower, lowered, same, split_lines, starts_with, string_of,
    string_views, stripped_back, trim, trimmed, views, Class,
};

verus! {

/// How the lines of the screen are reached.
#[derive(Clone, Copy, Debug, PartialEq, Eq, Structural)]
pub enum GpioBackend {
    /// The character device, or sysfs where that fails.
    Auto,
    /// The character device.
    Cdev,
    /// The sysfs interface.
    Sysfs,
}

/// The backend that a name in small letters stands for.
pub open spec fn backend_named(s: Seq<char>) -> Option<GpioBackend> {
    if s == "auto"@ {
        Some(GpioBackend::Auto)
    } else if s == "cdev"@ {
        Some(GpioBackend::Cdev)
    } else if s == "sysfs"@ {
        Some(GpioBackend::Sysfs)
    } else {
        None
    }
}

/// The backend of a setting.
pub open spec fn backend_setting(s: Seq<char>) -> GpioBackend {
    match backend_named(trimmed(s)) {
        Some(b) => b,
        None => GpioBackend::Auto,
    }
}

/// The pin that a setting gives, or `default` where it gives none.
pub open spec fn pin_setting(s: Seq<char>, default: u32) -> u32 {
    match unsigned_number(trimmed(s), u32::MAX as nat) {
        Some(n) => n as u32,
        None => default,
    }
}

impl GpioBackend {
    /// The backend of a name, in large or small letters, or a message that holds the name in
    /// small letters.
    pub fn from_str(s: &str) -> (r: Result<GpioBackend, String>)
        ensures
            match r {
                Ok(b) => backend_named(ascii_lower(s@)) == Some(b),
                Err(e) => backend_named(ascii_lower(s@)) is None && e@ == "unknown gpio backend: "@
                    + ascii_lower(s@),
            },
    {
        let name = lower_ascii(s);
        if same(name.as_str(), "auto") {
            Ok(GpioBackend::Auto)
        } else if same(name.as_str(), "cdev") {
            Ok(GpioBackend::Cdev)
        } else if same(name.as_str(), "sysfs") {
            Ok(GpioBackend::Sysfs)
        } else {
            Err(join2("unknown gpio backend: ", name.as_str()))
        }
    }

    /// The backend of a setting: the name of one, blanks round it or not, or else `Auto`.
    pub fn from_setting(s: &str) -> (r: GpioBackend)
        ensures
            r == backend_setting(s@),
            r == (match backend_named(trimmed(s@)) {
                Some(b) => b,
                None => GpioBackend::Auto,
            }),
    {
        let cs = chars_of(s);
        let name = string_of(trim(cs.as_slice()));
        proof {
            reveal_strlit("auto");
            reveal_strlit("cdev");
            reveal_strlit("sysfs");
            assert("auto"@[0] == 'a');
            assert("cdev"@[0] == 'c');
            assert("sysfs"@[0] == 's');
        }
        if same(name.as_str(), "cdev") {
            GpioBackend::Cdev
        } else if same(name.as_str(), "sysfs") {
            GpioBackend::Sysfs
        } else {
            GpioBackend::Auto
        }
    }
}

/// What makes one chip the better choice, and the number by which it is found again.
#[derive(Clone, Copy, Debug, PartialEq, Eq, Structural)]
pub struct Candidate {
    pub key: u64,
    pub lines: u64,
    pub main: bool,
}

/// `a` is a better choice than `b`: the main chip before any other, then the one with more lines.
pub open spec fn better(a: Candidate, b: Candidate) -> bool {
    (a.main && !b.main) || (a.main == b.main && a.lines > b.lines)
}

/// The best of some candidates; the first of them where several are as good.
pub open spec fn best(c: Seq<Candidate>) -> Option<Candidate>
    decreases c.len(),
{
    if c.len() == 0 {
        None
    } else {
        match best(c.drop_last()) {
            Some(b) => if better(c.last(), b) {
                Some(c.last())
            } else {
                Some(b)
            },
            None => Some(c.last()),
        }
    }
}

/// The chip that is chosen is one of those offered. None is better, and of those before it each
/// is worse.
pub proof fn best_chip_is_chosen(c: Seq<Candidate>)
    ensures
        best(c) is None <==> c.len() == 0,
        c.len() > 0 ==> exists|i: int|
            0 <= i < c.len() && best(c) == Some(#[trigger] c[i]) && (forall|j: int|
                0 <= j < c.len() ==> !better(#[trigger] c[j], c[i])) && (forall|j: int|
                0 <= j < i ==> better(c[i], #[trigger] c[j])),
    decreases c.len(),
{
    if c.len() > 0 {
        let d = c.drop_last();
        best_chip_is_chosen(d);
        if d.len() == 0 {
            assert(best(c) == Some(c[0]));
        } else {
            let i = choose|i: int|
                0 <= i < d.len() && best(d) == Some(#[trigger] d[i]) && (forall|j: int|
                    0 <= j < d.len() ==> !better(#[trigger] d[j], d[i])) && (forall|j: int|
                    0 <= j < i ==> better(d[i], #[trigger] d[j]));
            assert(d[i] == c[i]);
            let n = c.len() - 1;
            if better(c.last(), d[i]) {
                assert(best(c) == Some(c[n]));
                assert forall|j: int| 0 <= j < c.len() implies !better(#[trigger] c[j], c[n]) by {
                    if j < n {
                        assert(!better(d[j], d[i]));
                    }
                }
                assert forall|j: int| 0 <= j < n implies better(c[n], #[trigger] c[j]) by {
                    assert(!better(d[j], d[i]));
                }
            } else {
                assert(best(c) == Some(c[i]));
                assert forall|j: int| 0 <= j < c.len() implies !better(#[trigger] c[j], c[i]) by {
                    if j < n {
                        assert(!better(d[j], d[i]));
                    }
                }
                assert forall|j: int| 0 <= j < i implies better(c[i], #[trigger] c[j]) by {
                    assert(better(d[i], d[j]));
                }
            }
        }
    }
}

/// Whether a label, in small letters, is that of the main chip.
pub open spec fn main_label(label: Seq<char>) -> bool {
    contains(label, "pinctrl"@) || contains(label, "tlmm"@)
}

/// Whether a label, in small letters, is that of the main chip.
pub fn is_main_label(label: &str) -> (r: bool)
    ensures
        r == main_label(label@),
{
    holds(label, "pinctrl") || holds(label, "tlmm")
}

/// A directory under `/sys/class/gpio`: its name, and what its files hold where they can be read.
pub struct SysfsChip {
    pub name: String,
    pub base: Option<String>,
    pub ngpio: Option<String>,
    pub label: Option<String>,
}

/// A file under `/dev`: its name and, where it answers as a chip, the chip's label and how many
/// lines it has.
pub struct CdevChip {
    pub name: String,
    pub info: Option<(String, u32)>,
}

/// The number that a file holds.
pub open spec fn file_number(text: Option<String>) -> Option<nat> {
    match text {
        Some(t) => unsigned_number(trimmed(t@), u64::MAX as nat),
        None => None,
    }
}

/// The label that a file holds, in small letters.
pub open spec fn file_label(text: Option<String>) -> Seq<char> {
    match text {
        Some(t) => lowered(trimmed(t@)),
        None => lowered(seq![]),
    }
}

/// What a directory says of a chip, if it is one and has a base.
pub open spec fn sysfs_candidate(e: SysfsChip) -> Option<Candidate> {
    if !starts_with(e.name@, "gpiochip"@) {
        None
    } else {
        match file_number(e.base) {
            Some(base) => Some(
                Candidate {
                    key: base as u64,
                    lines: match file_number(e.ngpio) {
                        Some(n) => n as u64,
                        None => 0,
                    },
                    main: main_label(file_label(e.label)),
                },
            ),
            None => None,
        }
    }
}

/// What a device file says of a chip, if it is one. Its key is its place in the listing.
pub open spec fn cdev_candidate(e: CdevChip, i: int) -> Option<Candidate> {
    if !starts_with(e.name@, "gpiochip"@) {
        None
    } else {
        match e.info {
            Some(info) => Some(
                Candidate {
                    key: i as u64,
                    lines: info.1 as u64,
                    main: main_label(lowered(info.0@)),
                },
            ),
            None => None,
        }
    }
}

/// The chips of a listing of `/sys/class/gpio`.
pub open spec fn sysfs_candidates(entries: Seq<SysfsChip>) -> Seq<Candidate>
    decreases entries.len(),
{
    if entries.len() == 0 {
        seq![]
    } else {
        let rest = sysfs_candidates(entries.drop_last());
        match sysfs_candidate(entries.last()) {
            Some(c) => rest.push(c),
            None => rest,
        }
    }
}

/// The chips of a listing of `/dev`.
pub open spec fn cdev_candidates(entries: Seq<CdevChip>) -> Seq<Candidate>
    decreases entries.len(),
{
    if entries.len() == 0 {
        seq![]
    } else {
        let rest = cdev_candidates(entries.drop_last());
        match cdev_candidate(entries.last(), entries.len() - 1) {
            Some(c) => rest.push(c),
            None => rest,
        }
    }
}

/// The base that is taken where no chip is found.
pub const DEFAULT_BASE: u64 = 512;

/// Keeps the better of a new candidate and the best so far.
fn keep_better(sofar: Option<Candidate>, c: Candidate) -> (r: Option<Candidate>)
    ensures
        r == Some(
            match sofar {
                Some(b) => if better(c, b) {
                    c
                } else {
                    b
                },
                None => c,
            },
        ),
{
    match sofar {
        None => Some(c),
        Some(b) => {
            if (c.main && !b.main) || (c.main == b.main && c.lines > b.lines) {
                Some(c)
            } else {
                Some(b)
            }
        },
    }
}

/// The number that a file holds.
fn read_file_number(text: &Option<String>) -> (r: Option<u64>)
    ensures
        match r {
            Some(n) => file_number(*text) == Some(n as nat),
            None => file_number(*text) is None,
        },
{
    match text {
        Some(t) => {
            let cs = chars_of(t.as_str());
            read_u64(trim(cs.as_slice()))
        },
        None => None,
    }
}

/// What a directory says of a chip, if it is one and has a base.
fn read_sysfs_chip(e: &SysfsChip) -> (r: Option<Candidate>)
    ensures
        r == sysfs_candidate(*e),
{
    if !begins(e.name.as_str(), "gpiochip") {
        return None;
    }
    let base = match read_file_number(&e.base) {
        Some(b) => b,
        None => {
            return None;
        },
    };
    let ngpio = match read_file_number(&e.ngpio) {
        Some(n) => n,
        None => 0,
    };
    let label = match &e.label {
        Some(t) => {
            let cs = chars_of(t.as_str());
            string_of(trim(cs.as_slice()))
        },
        None => String::new(),
    };
    let small = lower(label.as_str());
    Some(Candidate { key: base, lines: ngpio, main: is_main_label(small.as_str()) })
}

/// The base of the main chip, from a listing of `/sys/class/gpio`.
pub fn detect_gpio_base(entries: &Vec<SysfsChip>) -> (r: u64)
    ensures
        r == (match best(sysfs_candidates(entries@)) {
            Some(c) => c.key,
            None => DEFAULT_BASE,
        }),
{
    let mut sofar: Option<Candidate> = None;
    let mut i: usize = 0;
    proof {
        assert(entries@.take(0) == Seq::<SysfsChip>::empty());
    }
    while i < entries.len()
        invariant
            i <= entries.len(),
            sofar == best(sysfs_candidates(entries@.take(i as int))),
        decreases entries.len() - i,
    {
        proof {
            let longer = entries@.take(i + 1);
            assert(longer.drop_last() == entries@.take(i as int));
            assert(longer.last() == entries@[i as int]);
        }
        if let Some(c) = read_sysfs_chip(&entries[i]) {
            proof {
                let rest = sysfs_candidates(entries@.take(i as int));
                assert(rest.push(c).drop_last() == rest);
            }
            sofar = keep_better(sofar, c);
        }
        i += 1;
    }
    proof {
        assert(entries@.take(i as int) == entries@);
    }
    match sofar {
        Some(c) => c.key,
        None => DEFAULT_BASE,
    }
}

/// The main chip, as its place in a listing of `/dev`.
pub fn find_main_chip(entries: &Vec<CdevChip>) -> (r: Option<usize>)
    ensures
        match best(cdev_candidates(entries@)) {
            Some(c) => r == Some(c.key as usize) && c.key < entries@.len(),
            None => r is None,
        },
{
    let mut sofar: Option<Candidate> = None;
    let mut i: usize = 0;
    proof {
        assert(entries@.take(0) == Seq::<CdevChip>::empty());
    }
    while i < entries.len()
        invariant
            i <= entries.len(),
            sofar == best(cdev_candidates(entries@.take(i as int))),
            sofar matches Some(c) ==> c.key < i,
        decreases entries.len() - i,
    {
        proof {
            let longer = entries@.take(i + 1);
            assert(longer.drop_last() == entries@.take(i as int));
            assert(longer.last() == entries@[i as int]);
        }
        let e = &entries[i];
        if begins(e.name.as_str(), "gpiochip") {
            if let Some(info) = &e.info {
                let small = lower(info.0.as_str());
                let c = Candidate {
                    key: i as u64,
                    lines: info.1 as u64,
                    main: is_main_label(small.as_str()),
                };
                proof {
                    let rest = cdev_candidates(entries@.take(i as int));
                    assert(rest.push(c).drop_last() == rest);
                }
                sofar = keep_better(sofar, c);
            }
        }
        i += 1;
    }
    proof {
        assert(entries@.take(i as int) == entries@);
    }
    match sofar {
        Some(c) => Some(c.key as usize),
        None => None,
    }
}

/// The base that a setting gives.
pub open spec fn base_setting(s: Seq<char>) -> Option<nat> {
    unsigned_number(trimmed(s), u64::MAX as nat)
}

/// The base that a setting gives, blanks round it or not. With `auto`, nothing, or anything that
/// is no number, the base is to be found out.
pub fn listener_gpio_base(setting: &str) -> (r: Option<u64>)
    ensures
        match r {
            Some(n) => base_setting(setting@) == Some(n as nat),
            None => base_setting(setting@) is None,
        },
        match r {
            Some(n) => unsigned_number(trimmed(setting@), u64::MAX as nat) == Some(n as nat),
            None => unsigned_number(trimmed(setting@), u64::MAX as nat) is None,
        },
{
    let cs = chars_of(setting);
    read_u64(trim(cs.as_slice()))
}

/// The base that a setting gives for the screen. With `auto`, or anything else that is no number,
/// the base is to be found out.
pub fn screen_gpio_base(setting: &str) -> (r: Option<u64>)
    ensures
        match r {
            Some(n) => unsigned_number(setting@, u64::MAX as nat) == Some(n as nat),
            None => unsigned_number(setting@, u64::MAX as nat) is None,
        },
{
    let cs = chars_of(setting);
    read_u64(cs.as_slice())
}

/// The pin that a setting gives, or `default` where it gives none.
pub fn button_pin(setting: &str, default: u32) -> (r: u32)
    ensures
        r == pin_setting(setting@, default),
        r == (match unsigned_number(trimmed(setting@), u32::MAX as nat) {
            Some(n) => n as u32,
            None => default,
        }),
{
    let cs = chars_of(setting);
    match read_u32(trim(cs.as_slice())) {
        Some(n) => n,
        None => default,
    }
}

/// The four ways in which the kernel's listing names a pin, by its offset on the chip and by its
/// number in the system.
pub open spec fn pin_names(pin: nat, number: nat) -> Seq<Seq<char>> {
    seq![
        "gpio"@ + decimal(pin) + "  :"@,
        "gpio-"@ + decimal(pin) + " "@,
        "gpio-"@ + decimal(number) + " "@,
        "gpio-"@ + decimal(number) + "("@,
    ]
}

/// The four ways in which the kernel's listing names a pin on a chip with the given base.
pub fn pin_patterns(pin: u32, base: u64) -> (r: Vec<String>)
    requires
        base + pin <= u64::MAX,
    ensures
        string_views(r@) == pin_names(pin as nat, (base + pin) as nat),
{
    let local = decimal_string(pin as u64);
    let global = decimal_string(base + pin as u64);
    let mut v: Vec<String> = Vec::new();
    v.push(join3("gpio", local.as_str(), "  :"));
    v.push(join3("gpio-", local.as_str(), " "));
    v.push(join3("gpio-", global.as_str(), " "));
    v.push(join3("gpio-", global.as_str(), "("));
    v
}

/// A line of the kernel's listing says that its pin is an input, and low: a pressed key pulls it
/// down.
pub open spec fn line_pressed(line: Seq<char>) -> bool {
    &&& contains(line, " in "@)
    &&& contains(line, " low"@) || contains(line, " lo "@) || ends_with(
        stripped_back(line, Class::White),
        " lo"@,
    )
}

/// A line names the pin, in one of several ways.
pub open spec fn line_names(line: Seq<char>, names: Seq<Seq<char>>) -> bool {
    exists|i: int| 0 <= i < names.len() && contains(line, #[trigger] names[i])
}

/// The kernel's listing says that the pin is pressed.
pub open spec fn listing_pressed(content: Seq<char>, names: Seq<Seq<char>>) -> bool {
    exists|i: int|
        0 <= i < lines(content).len() && line_names(#[trigger] lines(content)[i], names)
            && line_pressed(lines(content)[i])
}

/// Whether a line of the kernel's listing says that its pin is an input, and low.
pub fn line_is_pressed(line: &[char]) -> (r: bool)
    ensures
        r == line_pressed(line@),
{
    let as_input = chars_of(" in ");
    if !has_chars(line, as_input.as_slice()) {
        return false;
    }
    let low = chars_of(" low");
    let lo_blank = chars_of(" lo ");
    let lo = chars_of(" lo");
    let n = back_run_len(line, Class::White);
    let cut = slice_subrange(line, 0, line.len() - n);
    assert(cut@ == stripped_back(line@, Class::White));
    has_chars(line, low.as_slice()) || has_chars(line, lo_blank.as_slice()) || (lo.len()
        <= cut.len() && is_at(cut, lo.as_slice(), cut.len() - lo.len()))
}

/// Whether a line names the pin, in one of several ways.
fn names_pin(line: &[char], names: &Vec<String>) -> (r: bool)
    ensures
        r == line_names(line@, string_views(names@)),
{
    let ghost views = string_views(names@);
    let mut i: usize = 0;
    while i < names.len()
        invariant
            i <= names.len(),
            views == string_views(names@),
            forall|j: int| 0 <= j < i ==> !contains(line@, #[trigger] views[j]),
        decreases names.len() - i,
    {
        let name = chars_of(names[i].as_str());
        if has_chars(line, name.as_slice()) {
            assert(contains(line@, views[i as int]));
            return true;
        }
        i += 1;
    }
    false
}

/// Whether the kernel's listing says that the pin is pressed.
pub fn listing_is_pressed(content: &str, names: &Vec<String>) -> (r: bool)
    ensures
        r == listing_pressed(content@, string_views(names@)),
{
    let cs = chars_of(content);
    let all = split_lines(cs.as_slice());
    let mut i: usize = 0;
    while i < all.len()
        invariant
            i <= all.len(),
            views(all@) == lines(content@),
            forall|j: int|
                0 <= j < i ==> !(line_names(#[trigger] lines(content@)[j], string_views(names@))
                    && line_pressed(lines(content@)[j])),
        decreases all.len() - i,
    {
        let line = all[i].as_slice();
        assert(line@ == views(all@)[i as int]);
        if names_pin(line, names) && line_is_pressed(line) {
            return true;
        }
        i += 1;
    }
    false
}

/// The mask of the status lamps that stay dark.
pub open spec fn dark_lamps(clock: bool, medal: bool, up: bool, down: bool) -> int {
    (if clock {
        1int
    } else {
        0
    }) + (if medal {
        2int
    } else {
        0
    }) + (if up {
        4int
    } else {
        0
    }) + (if down {
        8int
    } else {
        0
    })
}

/// The mask of the status lamps that stay dark.
pub fn disabled_led_mask(clock: bool, medal: bool, up: bool, down: bool) -> (r: u8)
    ensures
        r == dark_lamps(clock, medal, up, down),
        r == (if clock {
            1int
        } else {
            0
        }) + (if medal {
            2int
        } else {
            0
        }) + (if up {
            4int
        } else {
            0
        }) + (if down {
            8int
        } else {
            0
        }),
{
    let mut mask: u8 = 0;
    if clock {
        mask += 0x01;
    }
    if medal {
        mask += 0x02;
    }
    if up {
        mask += 0x04;
    }
    if down {
        mask += 0x08;
    }
    mask
}

} // verus!
