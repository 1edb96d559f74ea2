//! The modules: what each of them shows.
use vstd::prelude::*;
use vstd::slice::slice_subrange;
use crate::args::Args;
use crate::clock::{moment_text, ClockFormat, Moment};
use crate::control::Signal;
use crate::monitor::{other_icon, SystemMonitor};
use crate::net_agent::NetSnapshot;
use crate::scheduler::{Animation, Show, ShowPhase};
use crate::text::{
    before, behind, char_replaced, chars_of, cut_before, cut_behind, join2, replace_char, run, run_len,
    same, string_of, trim, trimmed, Class,
};

verus! {

/// The weather as it is shown: as it came, or an icon that moves and what stands behind it.
#[derive(Debug)]
pub enum WeatherFace {
    Plain(String),
    Moving(String, String),
}

/// What a module shows, or where that is to be read.
#[derive(Debug)]
pub enum Content {
    /// This of the time.
    Clock(ClockFormat),
    /// The time, with a colon that blinks.
    BlinkingClock,
    Uptime,
    Cpu,
    Mem,
    Load,
    Temp,
    SpeedDown,
    SpeedUp,
    Devices,
    TotalDown,
    TotalUp,
    /// This text.
    Text(String),
    Weather(WeatherFace),
    /// Nothing: there is no such module.
    Nothing,
}

/// The status lamp of the clock.
pub const LAMP_CLOCK: u8 = 1;

/// The status lamp of what goes up.
pub const LAMP_UP: u8 = 4;

/// The status lamp of what comes down.
pub const LAMP_DOWN: u8 = 8;

/// The text that blanks the screen.
pub open spec fn blank() -> Seq<char> {
    "        "@
}

/// The text that blanks the screen.
pub fn blank_text() -> (r: &'static str)
    ensures
        r@ == blank(),
{
    "        "
}

/// The digits of a temperature at the start of a text, with a minus sign before them or not.
pub open spec fn leading_temperature(s: Seq<char>) -> Seq<char> {
    if s.len() > 0 && s[0] == '-' {
        s.take((1 + run(s.skip(1), Class::Figure)) as int)
    } else {
        s.take(run(s, Class::Figure) as int)
    }
}

/// What stands behind the icon. In the simple format it is the temperature, with its unit unless
/// it is below zero; else it is everything.
pub open spec fn weather_tail(rest: Seq<char>, format: Seq<char>) -> Seq<char> {
    if format == "simple"@ {
        let t = leading_temperature(trimmed(rest));
        if t.len() > 0 && t[0] == '-' {
            t
        } else {
            t + "℃"@
        }
    } else {
        " "@ + trimmed(rest)
    }
}

/// `face` shows a line of weather.
pub open spec fn shows_weather(face: WeatherFace, line: Seq<char>, format: Seq<char>) -> bool {
    match behind(line, ' ') {
        Some(rest) => face matches WeatherFace::Moving(icon, tail) && icon@ == before(line, ' ')
            && tail@ == weather_tail(rest, format),
        None => face matches WeatherFace::Plain(text) && text@ == line,
    }
}

/// How a line of weather is shown.
pub fn weather_face(line: &str, format: &str) -> (r: WeatherFace)
    ensures
        shows_weather(r, line@, format@),
{
    let cs = chars_of(line);
    let rest = match cut_behind(cs.as_slice(), ' ') {
        Some(rest) => rest,
        None => {
            return WeatherFace::Plain(line.to_string());
        },
    };
    let icon = string_of(cut_before(cs.as_slice(), ' '));
    let clean = trim(rest);
    if !same(format, "simple") {
        return WeatherFace::Moving(icon, join2(" ", string_of(clean).as_str()));
    }
    let negative = clean.len() > 0 && clean[0] == '-';
    let t = if negative {
        let digits = slice_subrange(clean, 1, clean.len());
        assert(digits@ == clean@.skip(1));
        let n = run_len(digits, Class::Figure);
        let t = slice_subrange(clean, 0, n + 1);
        assert(t@ == clean@.take(n + 1));
        t
    } else {
        let n = run_len(clean, Class::Figure);
        let t = slice_subrange(clean, 0, n);
        assert(t@ == clean@.take(n as int));
        t
    };
    let shown = string_of(t);
    if negative {
        WeatherFace::Moving(icon, shown)
    } else {
        WeatherFace::Moving(icon, join2(shown.as_str(), "℃"))
    }
}

/// One picture of the weather.
pub open spec fn weather_picture(icon: Seq<char>, tail: Seq<char>, flag: bool) -> Seq<char> {
    if flag {
        icon + tail
    } else {
        other_icon(icon) + tail
    }
}

/// One picture of the blinking clock.
pub open spec fn blink_picture(time: Seq<char>, flag: bool) -> Seq<char> {
    if flag {
        char_replaced(time, ':', ';')
    } else {
        time
    }
}

/// One picture of the weather: the icon in one of its two shapes, and what stands behind it.
pub fn weather_frame(monitor: &SystemMonitor, icon: &str, tail: &str, flag: bool) -> (r: String)
    ensures
        r@ == weather_picture(icon@, tail@, flag),
        r@ == (if flag {
            icon@
        } else {
            other_icon(icon@)
        }) + tail@,
{
    join2(monitor.get_animated_icon(icon, flag).as_str(), tail)
}

/// One picture of the blinking clock: with `;`, which draws no dots, for the colon, or as it is.
pub fn blink_frame(time: &str, flag: bool) -> (r: String)
    ensures
        r@ == blink_picture(time@, flag),
        r@ == (if flag {
            char_replaced(time@, ':', ';')
        } else {
            time@
        }),
{
    if flag {
        replace_char(time, ':', ';')
    } else {
        time.to_string()
    }
}

/// The two pictures of the blinking clock differ in the colon, and in nothing else.
pub proof fn only_the_colon_blinks(m: Moment)
    requires
        m.is_real(),
    ensures
        ({
            let time = moment_text(m, ClockFormat::Time);
            &&& time[2] == ':'
            &&& char_replaced(time, ':', ';') == time.update(2, ';')
        }),
{
    crate::clock::time_shown_reads_back(m);
    let time = moment_text(m, ClockFormat::Time);
    assert(time.len() == 5);
}

/// The status lamp of a module.
pub open spec fn module_lamp(name: Seq<char>) -> u8 {
    if name == "time"@ || name == "timeBlink"@ {
        LAMP_CLOCK
    } else if name == "netspeed_down"@ || name == "traffic_down"@ {
        LAMP_DOWN
    } else if name == "netspeed_up"@ || name == "traffic_up"@ {
        LAMP_UP
    } else {
        0
    }
}

/// The status lamp of a module.
pub fn lamp_of(name: &str) -> (r: u8)
    ensures
        r == module_lamp(name@),
{
    if same(name, "time") || same(name, "timeBlink") {
        LAMP_CLOCK
    } else if same(name, "netspeed_down") || same(name, "traffic_down") {
        LAMP_DOWN
    } else if same(name, "netspeed_up") || same(name, "traffic_up") {
        LAMP_UP
    } else {
        0
    }
}

/// `c` is what the module `name` shows.
pub open spec fn shows(c: Content, name: Seq<char>, args: Args, snap: NetSnapshot) -> bool {
    if name == "year"@ {
        c == Content::Clock(ClockFormat::Year)
    } else if name == "date"@ {
        c == Content::Clock(ClockFormat::Date)
    } else if name == "time"@ {
        c == Content::Clock(ClockFormat::Time)
    } else if name == "timeBlink"@ {
        c is BlinkingClock
    } else if name == "uptime"@ {
        c is Uptime
    } else if name == "cpu"@ {
        c is Cpu
    } else if name == "mem"@ {
        c is Mem
    } else if name == "load"@ {
        c is Load
    } else if name == "temp"@ {
        c is Temp
    } else if name == "ip"@ || name == "wan_ip"@ {
        c matches Content::Text(t) && t@ == snap.ip@
    } else if name == "netspeed_down"@ {
        c is SpeedDown
    } else if name == "netspeed_up"@ {
        c is SpeedUp
    } else if name == "dev"@ || name == "arp"@ {
        c is Devices
    } else if name == "banner"@ || name == "custom_text"@ {
        c matches Content::Text(t) && t@ == (if args.custom_text@.len() > 0 {
            args.custom_text@
        } else {
            "Welcome"@
        })
    } else if name == "http_custom"@ {
        c matches Content::Text(t) && t@ == snap.http_text@
    } else if name == "traffic_down"@ {
        c is TotalDown
    } else if name == "traffic_up"@ {
        c is TotalUp
    } else if name == "weather"@ {
        c matches Content::Weather(face) && shows_weather(
            face,
            snap.weather@,
            args.weather_format@,
        )
    } else if name == "stock"@ {
        c matches Content::Text(t) && t@ == snap.stock_text@
    } else {
        c is Nothing
    }
}

/// What a module shows, or where that is to be read.
pub fn content_of(name: &str, args: &Args, snap: &NetSnapshot) -> (r: Content)
    ensures
        shows(r, name@, *args, *snap),
{
    if same(name, "year") {
        Content::Clock(ClockFormat::Year)
    } else if same(name, "date") {
        Content::Clock(ClockFormat::Date)
    } else if same(name, "time") {
        Content::Clock(ClockFormat::Time)
    } else if same(name, "timeBlink") {
        Content::BlinkingClock
    } else if same(name, "uptime") {
        Content::Uptime
    } else if same(name, "cpu") {
        Content::Cpu
    } else if same(name, "mem") {
        Content::Mem
    } else if same(name, "load") {
        Content::Load
    } else if same(name, "temp") {
        Content::Temp
    } else if same(name, "ip") || same(name, "wan_ip") {
        Content::Text(snap.ip.clone())
    } else if same(name, "netspeed_down") {
        Content::SpeedDown
    } else if same(name, "netspeed_up") {
        Content::SpeedUp
    } else if same(name, "dev") || same(name, "arp") {
        Content::Devices
    } else if same(name, "banner") || same(name, "custom_text") {
        if !args.custom_text.as_str().is_empty() {
            Content::Text(args.custom_text.clone())
        } else {
            Content::Text("Welcome".to_string())
        }
    } else if same(name, "http_custom") {
        Content::Text(snap.http_text.clone())
    } else if same(name, "traffic_down") {
        Content::TotalDown
    } else if same(name, "traffic_up") {
        Content::TotalUp
    } else if same(name, "weather") {
        Content::Weather(weather_face(snap.weather.as_str(), args.weather_format.as_str()))
    } else if same(name, "stock") {
        Content::Text(snap.stock_text.clone())
    } else {
        Content::Nothing
    }
}

/// How a module is shown whose content is `c`.
pub open spec fn show_for(c: Content, now: u64, current: Signal) -> Option<Show> {
    let seen = current.number;
    match c {
        Content::Nothing => None,
        Content::BlinkingClock => Some(
            Show {
                phase: ShowPhase::Moving(
                    Animation {
                        flag: false,
                        naps_left: 0,
                        napped: false,
                        naps: 5,
                        nap_millis: 200,
                    },
                ),
                start: now,
                seen,
            },
        ),
        Content::Weather(WeatherFace::Moving(_, _)) => Some(
            Show {
                phase: ShowPhase::Moving(
                    Animation {
                        flag: true,
                        naps_left: 0,
                        napped: false,
                        naps: 2,
                        nap_millis: 250,
                    },
                ),
                start: now,
                seen,
            },
        ),
        Content::Weather(WeatherFace::Plain(_)) => Some(
            Show { phase: ShowPhase::Fresh(false), start: now, seen },
        ),
        _ => Some(Show { phase: ShowPhase::Fresh(true), start: now, seen }),
    }
}

/// How a module is shown whose content is `c`, from the moment `now` on, at which `current` is the
/// latest signal. Weather without an icon stands as it came, and a key does not count that comes
/// while it is drawn. What is nothing is not shown.
pub fn show_of(c: &Content, now: u64, current: Signal) -> (r: Option<Show>)
    ensures
        r == show_for(*c, now, current),
        r == (match *c {
            Content::Nothing => None,
            Content::BlinkingClock => Some(
                Show {
                    phase: ShowPhase::Moving(
                        Animation {
                            flag: false,
                            naps_left: 0,
                            napped: false,
                            naps: 5,
                            nap_millis: 200,
                        },
                    ),
                    start: now,
                    seen: current.number,
                },
            ),
            Content::Weather(WeatherFace::Moving(_, _)) => Some(
                Show {
                    phase: ShowPhase::Moving(
                        Animation {
                            flag: true,
                            naps_left: 0,
                            napped: false,
                            naps: 2,
                            nap_millis: 250,
                        },
                    ),
                    start: now,
                    seen: current.number,
                },
            ),
            Content::Weather(WeatherFace::Plain(_)) => Some(
                Show { phase: ShowPhase::Fresh(false), start: now, seen: current.number },
            ),
            _ => Some(Show { phase: ShowPhase::Fresh(true), start: now, seen: current.number }),
        }),
{
    match c {
        Content::Nothing => None,
        Content::BlinkingClock => Some(Show::moving(Animation::blinking_clock(), now, current)),
        Content::Weather(WeatherFace::Moving(_, _)) => Some(
            Show::moving(Animation::moving_weather(), now, current),
        ),
        Content::Weather(WeatherFace::Plain(_)) => Some(Show::still(false, now, current)),
        _ => Some(Show::still(true, now, current)),
    }
}

} // verus!
