//! The state of the router: network traffic, processor, memory, uptime,
//! temperatures and devices, from the files of `/proc` and `/sys`.
use vstd::prelude::*;
use crate::bytes::{format_bytes_total, total_text};
use crate::button::{elapsed, since};
use crate::number::{decimal, decimal_string, read_u64, unsigned_number};
use crate::text::{
    before, chars_of, contains, cut_before, erase, erased, has_chars, is_at, join2, join3, lines,
    lower, lowered, pieces, same, same_chars, split_lines, split_pieces, split_words, starts_with,
    string_of, string_views, trim, trimmed, views, words, Class,
};

verus! {

/// The number that a field holds, or none where it holds no number.
pub open spec fn number_or_zero(s: Seq<char>) -> nat {
    match unsigned_number(s, u64::MAX as nat) {
        Some(n) => n,
        None => 0,
    }
}

fn read_number_or_zero(s: &[char]) -> (r: u64)
    ensures
        r == number_or_zero(s@),
{
    match read_u64(s) {
        Some(n) => n,
        None => 0,
    }
}

/// A line of `/proc/net/dev` is the one of an interface: its first word is the name, with a colon
/// and what follows it or without.
pub open spec fn is_line_of(line: Seq<char>, interface: Seq<char>) -> bool {
    words(line).len() > 0 && before(words(line)[0], ':') == interface
}

/// The received and sent bytes of an interface, from the lines of `/proc/net/dev`. The first line
/// of the interface that has all fields counts; without one there are no bytes.
pub open spec fn net_bytes(all: Seq<Seq<char>>, interface: Seq<char>) -> (nat, nat)
    decreases all.len(),
{
    if all.len() == 0 {
        (0, 0)
    } else {
        let parts = words(all[0]);
        let rx: int = if contains(parts[0], ":"@) {
            1
        } else {
            2
        };
        if is_line_of(all[0], interface) && parts.len() > rx + 8 {
            (number_or_zero(parts[rx]), number_or_zero(parts[rx + 8]))
        } else {
            net_bytes(all.skip(1), interface)
        }
    }
}

/// A field of the processor line, or 0 where it has fewer.
pub open spec fn cpu_field(parts: Seq<Seq<char>>, i: int) -> nat {
    if i < parts.len() {
        number_or_zero(parts[i])
    } else {
        0
    }
}

/// All the time that the processor line counts.
pub open spec fn cpu_total(parts: Seq<Seq<char>>) -> nat {
    cpu_field(parts, 1) + cpu_field(parts, 2) + cpu_field(parts, 3) + cpu_field(parts, 4)
        + cpu_field(parts, 5) + cpu_field(parts, 6) + cpu_field(parts, 7)
}

/// The total and the idle time of the processor, from `/proc/stat`: its first line, if that is
/// the one of all processors.
pub open spec fn cpu_stats(content: Seq<char>) -> (nat, nat) {
    let all = lines(content);
    if all.len() > 0 && starts_with(all[0], "cpu "@) && words(all[0]).len() >= 5 {
        (cpu_total(words(all[0])), cpu_field(words(all[0]), 4))
    } else {
        (0, 0)
    }
}

/// The value of a key of `/proc/meminfo`: the second word of the last line whose first word is
/// the key.
pub open spec fn mem_value(all: Seq<Seq<char>>, key: Seq<char>) -> Option<Seq<char>>
    decreases all.len(),
{
    if all.len() == 0 {
        None
    } else {
        let parts = words(all.last());
        if parts.len() >= 2 && parts[0] == key {
            Some(parts[1])
        } else {
            mem_value(all.drop_last(), key)
        }
    }
}

/// How long the system has been up, in its two largest units.
pub open spec fn uptime_text(secs: nat) -> Seq<char> {
    let d = secs / 86400;
    let h = (secs % 86400) / 3600;
    let m = (secs % 3600) / 60;
    if d > 0 {
        "Up:"@ + decimal(d) + "d"@ + decimal(h) + "h"@
    } else if h > 0 {
        "Up:"@ + decimal(h) + "h"@ + decimal(m) + "m"@
    } else {
        "Up:"@ + decimal(m) + "m"@
    }
}

/// Texts with a blank between two.
pub open spec fn joined(parts: Seq<Seq<char>>) -> Seq<char>
    decreases parts.len(),
{
    if parts.len() == 0 {
        seq![]
    } else if parts.len() == 1 {
        parts[0]
    } else {
        joined(parts.drop_last()) + " "@ + parts.last()
    }
}

/// An icon of the weather in its other shape.
pub open spec fn other_icon(s: Seq<char>) -> Seq<char> {
    if s == "☀"@ {
        "☼"@
    } else if s == "☂"@ {
        "☔"@
    } else if s == "☁"@ {
        "🌥"@
    } else if s == "❄"@ {
        "❅"@
    } else if s == "⚡"@ {
        "☇"@
    } else {
        s
    }
}

/// The received and sent bytes of an interface, from `/proc/net/dev`.
fn net_bytes_of(content: &str, interface: &str) -> (r: (u64, u64))
    ensures
        r.0 == net_bytes(lines(content@), interface@).0,
        r.1 == net_bytes(lines(content@), interface@).1,
{
    let cs = chars_of(content);
    let all = split_lines(cs.as_slice());
    let name = chars_of(interface);
    let colon = chars_of(":");
    let mut i: usize = 0;
    proof {
        assert(lines(content@).skip(0) == lines(content@));
    }
    while i < all.len()
        invariant
            i <= all.len(),
            views(all@) == lines(content@),
            name@ == interface@,
            colon@ == ":"@,
            net_bytes(lines(content@).skip(i as int), interface@) == net_bytes(
                lines(content@),
                interface@,
            ),
        decreases all.len() - i,
    {
        let line = all[i].as_slice();
        let ghost rest = lines(content@).skip(i as int);
        proof {
            assert(line@ == views(all@)[i as int]);
            assert(rest[0] == line@);
            assert(rest.skip(1) == lines(content@).skip(i + 1));
        }
        let parts = split_words(line);
        if parts.len() > 0 {
            assert(views(parts@)[0] == parts@[0]@);
            let rx: usize = if has_chars(parts[0].as_slice(), colon.as_slice()) {
                1
            } else {
                2
            };
            let tx: usize = rx + 8;
            if same_chars(cut_before(parts[0].as_slice(), ':'), name.as_slice()) && parts.len()
                > tx {
                proof {
                    assert(views(parts@)[rx as int] == parts@[rx as int]@);
                    assert(views(parts@)[tx as int] == parts@[tx as int]@);
                }
                return (
                    read_number_or_zero(parts[rx].as_slice()),
                    read_number_or_zero(parts[tx].as_slice()),
                );
            }
        }
        i += 1;
    }
    proof {
        assert(lines(content@).skip(i as int).len() == 0);
    }
    (0, 0)
}

/// The traffic of an interface does not depend on the lines of others, wherever they stand.
pub proof fn other_interfaces_do_not_count(
    above: Seq<Seq<char>>,
    line: Seq<char>,
    below: Seq<Seq<char>>,
    interface: Seq<char>,
)
    requires
        !is_line_of(line, interface),
    ensures
        net_bytes(above + seq![line] + below, interface) == net_bytes(above + below, interface),
    decreases above.len(),
{
    let all = above + seq![line] + below;
    if above.len() == 0 {
        assert(all.skip(1) == below);
        assert(above + below == below);
    } else {
        other_interfaces_do_not_count(above.skip(1), line, below, interface);
        assert(all.skip(1) == above.skip(1) + seq![line] + below);
        assert((above + below).skip(1) == above.skip(1) + below);
    }
}

/// A field of the processor line, or 0 where it has fewer.
fn read_cpu_field(parts: &Vec<Vec<char>>, i: usize) -> (r: u64)
    ensures
        r == cpu_field(views(parts@), i as int),
{
    if i < parts.len() {
        assert(views(parts@)[i as int] == parts@[i as int]@);
        read_number_or_zero(parts[i].as_slice())
    } else {
        0
    }
}

/// The total and the idle time of the processor, from `/proc/stat`. There is no answer where the
/// total is out of range.
pub fn read_cpu_stats(content: &str) -> (r: Option<(u64, u64)>)
    ensures
        if cpu_stats(content@).0 <= u64::MAX {
            r matches Some(n) && n.0 == cpu_stats(content@).0 && n.1 == cpu_stats(content@).1
        } else {
            r is None
        },
{
    let cs = chars_of(content);
    let all = split_lines(cs.as_slice());
    if all.len() == 0 {
        return Some((0, 0));
    }
    let first = all[0].as_slice();
    assert(first@ == views(all@)[0]);
    let label = chars_of("cpu ");
    if !is_at(first, label.as_slice(), 0) {
        return Some((0, 0));
    }
    let parts = split_words(first);
    if parts.len() < 5 {
        return Some((0, 0));
    }
    let mut total: u64 = 0;
    let mut i: usize = 1;
    let ghost p = views(parts@);
    while i < 8
        invariant
            1 <= i <= 8,
            p == views(parts@),
            p == words(first@),
            total == (if i > 1 {
                cpu_field(p, 1)
            } else {
                0
            }) + (if i > 2 {
                cpu_field(p, 2)
            } else {
                0
            }) + (if i > 3 {
                cpu_field(p, 3)
            } else {
                0
            }) + (if i > 4 {
                cpu_field(p, 4)
            } else {
                0
            }) + (if i > 5 {
                cpu_field(p, 5)
            } else {
                0
            }) + (if i > 6 {
                cpu_field(p, 6)
            } else {
                0
            }) + (if i > 7 {
                cpu_field(p, 7)
            } else {
                0
            }),
            cpu_stats(content@) == (cpu_total(p), cpu_field(p, 4)),
        decreases 8 - i,
    {
        match total.checked_add(read_cpu_field(&parts, i)) {
            Some(t) => {
                total = t;
            },
            None => {
                return None;
            },
        }
        i += 1;
    }
    Some((total, read_cpu_field(&parts, 4)))
}

/// The values of `MemTotal:` and `MemAvailable:` in `/proc/meminfo`.
pub fn read_mem_fields(content: &str) -> (r: (Option<String>, Option<String>))
    ensures
        match r.0 {
            Some(s) => mem_value(lines(content@), "MemTotal:"@) == Some(s@),
            None => mem_value(lines(content@), "MemTotal:"@) is None,
        },
        match r.1 {
            Some(s) => mem_value(lines(content@), "MemAvailable:"@) == Some(s@),
            None => mem_value(lines(content@), "MemAvailable:"@) is None,
        },
{
    let cs = chars_of(content);
    let all = split_lines(cs.as_slice());
    (last_value(&all, "MemTotal:"), last_value(&all, "MemAvailable:"))
}

/// The second word of the last line whose first word is the key.
fn last_value(all: &Vec<Vec<char>>, key: &str) -> (r: Option<String>)
    ensures
        match r {
            Some(s) => mem_value(views(all@), key@) == Some(s@),
            None => mem_value(views(all@), key@) is None,
        },
{
    let k = chars_of(key);
    let mut n: usize = all.len();
    proof {
        assert(views(all@).take(n as int) == views(all@));
    }
    while n > 0
        invariant
            n <= all.len(),
            k@ == key@,
            mem_value(views(all@).take(n as int), key@) == mem_value(views(all@), key@),
        decreases n,
    {
        let line = all[n - 1].as_slice();
        proof {
            let t = views(all@).take(n as int);
            assert(t.drop_last() == views(all@).take(n - 1));
            assert(t.last() == line@);
        }
        let parts = split_words(line);
        if parts.len() >= 2 {
            proof {
                assert(views(parts@)[0] == parts@[0]@);
                assert(views(parts@)[1] == parts@[1]@);
            }
            if same_chars(parts[0].as_slice(), k.as_slice()) {
                return Some(string_of(parts[1].as_slice()));
            }
        }
        n -= 1;
    }
    None
}

/// The load of the last minute, as it is shown.
pub open spec fn load_text(content: Seq<char>) -> Seq<char> {
    if words(content).len() > 0 {
        "L:"@ + words(content)[0]
    } else {
        "L:Err"@
    }
}

/// How many devices are online, as it is shown: one for each line but the first.
pub open spec fn devices_text(all: Seq<Seq<char>>) -> Seq<char> {
    if all.len() > 1 {
        "Dev:"@ + decimal((all.len() - 1) as nat)
    } else {
        "Dev:0"@
    }
}

/// The name under which a sensor is shown.
pub open spec fn sensor_label(name: Seq<char>) -> Seq<char> {
    erased(lowered(trimmed(name)), "-thermal"@)
}

/// The temperature of a sensor, as it is shown.
pub open spec fn sensor_text(label: Seq<char>, degrees: Seq<char>) -> Seq<char> {
    label + ":"@ + degrees + "℃"@
}

/// The temperatures of some sensors, as they are shown.
pub open spec fn sensors_text(entries: Seq<Seq<char>>) -> Seq<char> {
    if entries.len() == 0 {
        "Temp:--"@
    } else {
        joined(entries)
    }
}

/// The load of the last minute, from `/proc/loadavg`.
pub fn get_load_string(content: &str) -> (r: String)
    ensures
        r@ == load_text(content@),
        r@ == (if words(content@).len() > 0 {
            "L:"@ + words(content@)[0]
        } else {
            "L:Err"@
        }),
{
    match first_word(content) {
        Some(w) => join2("L:", w.as_str()),
        None => "L:Err".to_string(),
    }
}

/// The first word of a text.
fn first_word(content: &str) -> (r: Option<String>)
    ensures
        match r {
            Some(w) => words(content@).len() > 0 && w@ == words(content@)[0],
            None => words(content@).len() == 0,
        },
{
    let cs = chars_of(content);
    let parts = split_words(cs.as_slice());
    if parts.len() == 0 {
        return None;
    }
    assert(views(parts@)[0] == parts@[0]@);
    Some(string_of(parts[0].as_slice()))
}

/// The field of `/proc/uptime` that holds the seconds since the start, if the file can be read
/// and has one.
pub fn read_uptime_field(content: Option<&str>) -> (r: Option<String>)
    ensures
        match r {
            Some(w) => content matches Some(c) && words(c@).len() > 0 && w@ == words(c@)[0],
            None => content matches Some(c) ==> words(c@).len() == 0,
        },
{
    match content {
        Some(c) => first_word(c),
        None => None,
    }
}

/// How long the system has been up, from the whole seconds since its start.
pub fn get_uptime_string(seconds: Option<u64>) -> (r: String)
    ensures
        r@ == (match seconds {
            Some(secs) => uptime_text(secs as nat),
            None => "Up:Err"@,
        }),
{
    let secs = match seconds {
        Some(s) => s,
        None => {
            return "Up:Err".to_string();
        },
    };
    let d: u64 = secs / 86400;
    let h: u64 = (secs % 86400) / 3600;
    let m: u64 = (secs % 3600) / 60;
    let mut s = "Up:".to_string();
    if d > 0 {
        s.append(decimal_string(d).as_str());
        s.append("d");
        s.append(decimal_string(h).as_str());
        s.append("h");
    } else if h > 0 {
        s.append(decimal_string(h).as_str());
        s.append("h");
        s.append(decimal_string(m).as_str());
        s.append("m");
    } else {
        s.append(decimal_string(m).as_str());
        s.append("m");
    }
    s
}

/// The sensors of a setting: what blanks and commas separate.
pub fn thermal_ids(ids: &str) -> (r: Vec<String>)
    ensures
        string_views(r@) == pieces(ids@, Class::Field),
{
    let cs = chars_of(ids);
    let parts = split_pieces(cs.as_slice(), Class::Field);
    let mut out: Vec<String> = Vec::new();
    let mut i: usize = 0;
    while i < parts.len()
        invariant
            i <= parts.len(),
            out.len() == i,
            forall|j: int| 0 <= j < i ==> (#[trigger] out@[j])@ == parts@[j]@,
        decreases parts.len() - i,
    {
        out.push(string_of(parts[i].as_slice()));
        i += 1;
    }
    assert(string_views(out@) == views(parts@));
    out
}

/// The file that holds the name of a sensor.
pub fn thermal_type_path(id: &str) -> (r: String)
    ensures
        r@ == "/sys/class/thermal/thermal_zone"@ + id@ + "/type"@,
{
    join3("/sys/class/thermal/thermal_zone", id, "/type")
}

/// The file that holds the temperature of a sensor.
pub fn thermal_temp_path(id: &str) -> (r: String)
    ensures
        r@ == "/sys/class/thermal/thermal_zone"@ + id@ + "/temp"@,
{
    join3("/sys/class/thermal/thermal_zone", id, "/temp")
}

/// The name of a sensor, in small letters, without the word that all of them have.
pub fn short_label(name: &str) -> (r: String)
    ensures
        r@ == erased(name@, "-thermal"@),
{
    let cs = chars_of(name);
    let p = chars_of("-thermal");
    let kept = erase(cs.as_slice(), p.as_slice());
    string_of(kept.as_slice())
}

/// The name under which a sensor is shown.
pub fn thermal_label(sensor_name: &str) -> (r: String)
    ensures
        r@ == sensor_label(sensor_name@),
        r@ == erased(lowered(trimmed(sensor_name@)), "-thermal"@),
{
    let cs = chars_of(sensor_name);
    let name = string_of(trim(cs.as_slice()));
    short_label(lower(name.as_str()).as_str())
}

/// The temperature of a sensor, as it is shown.
pub fn temp_entry(label: &str, degrees: &str) -> (r: String)
    ensures
        r@ == sensor_text(label@, degrees@),
        r@ == label@ + ":"@ + degrees@ + "℃"@,
{
    join2(join3(label, ":", degrees).as_str(), "℃")
}

/// The temperatures of the sensors that could be read.
pub fn get_temps_by_ids(entries: &Vec<String>) -> (r: String)
    ensures
        r@ == sensors_text(string_views(entries@)),
        r@ == (if entries@.len() == 0 {
            "Temp:--"@
        } else {
            joined(string_views(entries@))
        }),
{
    if entries.len() == 0 {
        return "Temp:--".to_string();
    }
    let mut s = entries[0].clone();
    let mut i: usize = 1;
    let ghost all = string_views(entries@);
    proof {
        assert(all.take(1)[0] == entries@[0]@);
    }
    while i < entries.len()
        invariant
            1 <= i <= entries.len(),
            all == string_views(entries@),
            s@ == joined(all.take(i as int)),
        decreases entries.len() - i,
    {
        proof {
            let longer = all.take(i + 1);
            assert(longer.drop_last() == all.take(i as int));
            assert(longer.last() == entries@[i as int]@);
        }
        s.append(" ");
        s.append(entries[i].as_str());
        i += 1;
    }
    assert(all.take(i as int) == all);
    s
}

/// How many devices are online, from `/proc/net/arp`: one for each line but the first.
pub fn get_online_devices(content: Option<&str>) -> (r: String)
    ensures
        r@ == devices_text(
            match content {
                Some(c) => lines(c@),
                None => seq![],
            },
        ),
        r@ == (match content {
            Some(c) => if lines(c@).len() > 1 {
                "Dev:"@ + decimal((lines(c@).len() - 1) as nat)
            } else {
                "Dev:0"@
            },
            None => "Dev:0"@,
        }),
{
    if let Some(c) = content {
        let cs = chars_of(c);
        let all = split_lines(cs.as_slice());
        assert(all@.len() == views(all@).len());
        let n = all.len();
        if n > 1 {
            return join2("Dev:", decimal_string((n - 1) as u64).as_str());
        }
    }
    "Dev:0".to_string()
}

/// What the traffic since the last look comes to.
#[derive(Clone, Copy, Debug, PartialEq, Eq, Structural)]
pub enum SpeedReading {
    /// The last look was too short a time ago.
    TooSoon,
    /// There was no last look that counts.
    Baseline,
    /// So many bytes, in so many nanoseconds.
    Rate(u64, u64),
}

impl SpeedReading {
    /// The text of a reading that takes no division.
    pub open spec fn shown(self) -> Option<Seq<char>> {
        match self {
            SpeedReading::TooSoon => Some("..."@),
            SpeedReading::Baseline => Some("0B"@),
            SpeedReading::Rate(bytes, _) => if bytes == 0 {
                Some("0B"@)
            } else {
                None
            },
        }
    }

    /// The text of a reading that takes no division: no bytes are no speed, over any time.
    pub fn text(&self) -> (r: Option<&'static str>)
        ensures
            match r {
                Some(s) => self.shown() == Some(s@),
                None => self.shown() is None,
            },
            match *self {
                SpeedReading::TooSoon => r matches Some(s) && s@ == "..."@,
                SpeedReading::Baseline => r matches Some(s) && s@ == "0B"@,
                SpeedReading::Rate(bytes, _) => if bytes == 0 {
                    r matches Some(s) && s@ == "0B"@
                } else {
                    r is None
                },
            },
    {
        match self {
            SpeedReading::TooSoon => Some("..."),
            SpeedReading::Baseline => Some("0B"),
            SpeedReading::Rate(bytes, _) => if *bytes == 0 {
                Some("0B")
            } else {
                None
            },
        }
    }
}

/// What the processor did since the last look.
#[derive(Clone, Copy, Debug, PartialEq, Eq, Structural)]
pub enum CpuReading {
    /// No time has passed.
    Still,
    /// So much idle time, of so much in all.
    Usage(u64, u64),
}

impl CpuReading {
    /// The text of a reading that takes no division.
    pub fn text(&self) -> (r: Option<&'static str>)
        ensures
            match *self {
                CpuReading::Still => r matches Some(s) && s@ == "CPU:-"@,
                CpuReading::Usage(..) => r is None,
            },
    {
        match self {
            CpuReading::Still => Some("CPU:-"),
            CpuReading::Usage(_, _) => None,
        }
    }
}

/// The shortest time, in nanoseconds, over which a speed is taken.
pub const MIN_SPEED_NANOS: u64 = 100_000_000;

/// The longest.
pub const MAX_SPEED_NANOS: u64 = 30_000_000_000;

/// What was seen at the last look.
#[derive(Debug)]
pub struct SystemMonitor {
    /// The interface whose traffic counts.
    pub net_interface: String,
    pub last_rx_bytes: u64,
    pub last_tx_bytes: u64,
    /// When the traffic was looked at, in nanoseconds of a clock that never goes back.
    pub last_net_check: u64,
    pub last_cpu_total: u64,
    pub last_cpu_idle: u64,
}

pub open spec fn less(a: u64, b: u64) -> u64 {
    if a >= b {
        (a - b) as u64
    } else {
        0
    }
}

impl SystemMonitor {
    /// The monitor behind a look at the traffic, and what that comes to.
    pub open spec fn looked(self, mode: u8, net: (u64, u64), now: u64) -> (
        SystemMonitor,
        SpeedReading,
    ) {
        let nanos = since(self.last_net_check, now);
        let next = SystemMonitor {
            last_rx_bytes: net.0,
            last_tx_bytes: net.1,
            last_net_check: now,
            ..self
        };
        if nanos < MIN_SPEED_NANOS {
            (self, SpeedReading::TooSoon)
        } else if self.last_rx_bytes == 0 || self.last_tx_bytes == 0 || nanos > MAX_SPEED_NANOS {
            (next, SpeedReading::Baseline)
        } else if mode == 0 {
            (next, SpeedReading::Rate(less(net.0, self.last_rx_bytes), nanos as u64))
        } else {
            (next, SpeedReading::Rate(less(net.1, self.last_tx_bytes), nanos as u64))
        }
    }

    /// The monitor behind a look at the processor, and what that comes to.
    pub open spec fn timed(self, cpu: (u64, u64)) -> (SystemMonitor, CpuReading) {
        let total = less(cpu.0, self.last_cpu_total);
        let next = SystemMonitor { last_cpu_total: cpu.0, last_cpu_idle: cpu.1, ..self };
        if total == 0 {
            (next, CpuReading::Still)
        } else {
            (next, CpuReading::Usage(less(cpu.1, self.last_cpu_idle), total))
        }
    }

    /// A monitor that has seen nothing.
    pub fn new(net_dev: String, now: u64) -> (m: SystemMonitor)
        ensures
            m == (SystemMonitor {
                net_interface: net_dev,
                last_rx_bytes: 0,
                last_tx_bytes: 0,
                last_net_check: now,
                last_cpu_total: 0,
                last_cpu_idle: 0,
            }),
    {
        SystemMonitor {
            net_interface: net_dev,
            last_rx_bytes: 0,
            last_tx_bytes: 0,
            last_net_check: now,
            last_cpu_total: 0,
            last_cpu_idle: 0,
        }
    }

    /// Takes in the first look: received and sent bytes, total and idle time.
    pub fn init(&mut self, net: (u64, u64), cpu: (u64, u64))
        ensures
            *final(self) == (SystemMonitor {
                last_rx_bytes: net.0,
                last_tx_bytes: net.1,
                last_cpu_total: cpu.0,
                last_cpu_idle: cpu.1,
                ..*old(self)
            }),
    {
        self.last_rx_bytes = net.0;
        self.last_tx_bytes = net.1;
        self.last_cpu_total = cpu.0;
        self.last_cpu_idle = cpu.1;
    }

    /// An icon of the weather in one of its two shapes. An icon without a second shape stays as it
    /// is.
    pub fn get_animated_icon(&self, s: &str, f: bool) -> (r: String)
        ensures
            r@ == (if f {
                s@
            } else {
                other_icon(s@)
            }),
    {
        if f {
            return s.to_string();
        }
        if same(s, "☀") {
            "☼".to_string()
        } else if same(s, "☂") {
            "☔".to_string()
        } else if same(s, "☁") {
            "🌥".to_string()
        } else if same(s, "❄") {
            "❅".to_string()
        } else if same(s, "⚡") {
            "☇".to_string()
        } else {
            s.to_string()
        }
    }

    /// The received and sent bytes of the interface, from `/proc/net/dev`.
    pub fn read_net_bytes(&self, content: &str) -> (r: (u64, u64))
        ensures
            r.0 == net_bytes(lines(content@), self.net_interface@).0,
            r.1 == net_bytes(lines(content@), self.net_interface@).1,
    {
        net_bytes_of(content, self.net_interface.as_str())
    }

    /// The traffic since the last look: received where `mode` is 0, else sent. A look that comes
    /// within a tenth of a second is no look. One that comes after half a minute, or the first
    /// of all, only begins anew.
    pub fn get_speed_string(&mut self, mode: u8, net: (u64, u64), now: u64) -> (r: SpeedReading)
        ensures
            (*final(self), r) == old(self).looked(mode, net, now),
            ({
                let nanos = since(old(self).last_net_check, now);
                let looked = SystemMonitor {
                    last_rx_bytes: net.0,
                    last_tx_bytes: net.1,
                    last_net_check: now,
                    ..*old(self)
                };
                if nanos < MIN_SPEED_NANOS {
                    r == SpeedReading::TooSoon && *final(self) == *old(self)
                } else if old(self).last_rx_bytes == 0 || old(self).last_tx_bytes == 0 || nanos
                    > MAX_SPEED_NANOS {
                    r == SpeedReading::Baseline && *final(self) == looked
                } else {
                    &&& *final(self) == looked
                    &&& r == SpeedReading::Rate(
                        if mode == 0 {
                            less(net.0, old(self).last_rx_bytes)
                        } else {
                            less(net.1, old(self).last_tx_bytes)
                        },
                        nanos as u64,
                    )
                }
            }),
    {
        let nanos = elapsed(self.last_net_check, now);
        if nanos < MIN_SPEED_NANOS {
            return SpeedReading::TooSoon;
        }
        if self.last_rx_bytes == 0 || self.last_tx_bytes == 0 || nanos > MAX_SPEED_NANOS {
            self.last_rx_bytes = net.0;
            self.last_tx_bytes = net.1;
            self.last_net_check = now;
            return SpeedReading::Baseline;
        }
        let bytes: u64 = if mode == 0 {
            net.0.saturating_sub(self.last_rx_bytes)
        } else {
            net.1.saturating_sub(self.last_tx_bytes)
        };
        self.last_rx_bytes = net.0;
        self.last_tx_bytes = net.1;
        self.last_net_check = now;
        SpeedReading::Rate(bytes, nanos)
    }

    /// What the processor did since the last look, from its total and idle time.
    pub fn get_cpu_usage_string(&mut self, cpu: (u64, u64)) -> (r: CpuReading)
        ensures
            (*final(self), r) == old(self).timed(cpu),
            *final(self) == (SystemMonitor {
                last_cpu_total: cpu.0,
                last_cpu_idle: cpu.1,
                ..*old(self)
            }),
            ({
                let total = less(cpu.0, old(self).last_cpu_total);
                let idle = less(cpu.1, old(self).last_cpu_idle);
                r == (if total == 0 {
                    CpuReading::Still
                } else {
                    CpuReading::Usage(idle, total)
                })
            }),
    {
        let total = cpu.0.saturating_sub(self.last_cpu_total);
        let idle = cpu.1.saturating_sub(self.last_cpu_idle);
        self.last_cpu_total = cpu.0;
        self.last_cpu_idle = cpu.1;
        if total == 0 {
            CpuReading::Still
        } else {
            CpuReading::Usage(idle, total)
        }
    }

    /// All that was received, and all that was sent, in a short notation.
    pub open spec fn totals(net: (u64, u64)) -> (Seq<char>, Seq<char>) {
        ("TD:"@ + total_text(net.0 as nat), "TU:"@ + total_text(net.1 as nat))
    }

    /// All that was received, in a short notation.
    pub fn get_total_rx_string(net: (u64, u64)) -> (r: String)
        ensures
            r@ == Self::totals(net).0,
            r@ == "TD:"@ + total_text(net.0 as nat),
    {
        join2("TD:", format_bytes_total(net.0).as_str())
    }

    /// All that was sent, in a short notation.
    pub fn get_total_tx_string(net: (u64, u64)) -> (r: String)
        ensures
            r@ == Self::totals(net).1,
            r@ == "TU:"@ + total_text(net.1 as nat),
    {
        join2("TU:", format_bytes_total(net.1).as_str())
    }
}

/// The parts of an uptime are what a clock shows: fewer than 24 hours, fewer than 60 minutes,
/// and together with the days no minute is lost.
pub proof fn uptime_parts_fit(secs: nat)
    ensures
        (secs % 86400) / 3600 < 24,
        (secs % 3600) / 60 < 60,
        (secs / 86400) * 1440 + ((secs % 86400) / 3600) * 60 + (secs % 3600) / 60 == secs / 60,
{
    assert((secs % 86400) % 3600 == secs % 3600);
}

} // verus!
