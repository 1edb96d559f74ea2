//! What holds of the modules: each name has its own content and its own lamp.
use vstd::prelude::*;
use crate::args::Args;
use crate::button::since;
use crate::clock::ClockFormat;
use crate::control::Signal;
use crate::modules::{
    blank, blink_picture, module_lamp, show_for, shows, weather_picture, Content, WeatherFace,
    LAMP_CLOCK, LAMP_DOWN, LAMP_UP,
};
use crate::monitor::other_icon;
use crate::net_agent::NetSnapshot;
use crate::schedule_laws::{
    in_its_time, moving_module_draws_in_turns, no_signal, wanted, Look,
};
use crate::scheduler::{Show, ShowPhase, ShowStep};
use crate::text::{is_white, Class};
use crate::text_laws::{all_in, free_of};
use crate::weather::forecast;
use crate::weather_laws::{
    line_without_a_blank_stands, moves, simple_format_shows_the_temperature,
};

verus! {

/// What shows the text.
pub open spec fn shows_text(c: Content, s: Seq<char>) -> bool {
    c matches Content::Text(t) && t@ == s
}

/// The names of the modules.
pub open spec fn module_names() -> Seq<Seq<char>> {
    seq![
        "year"@,
        "date"@,
        "time"@,
        "timeBlink"@,
        "uptime"@,
        "cpu"@,
        "mem"@,
        "load"@,
        "temp"@,
        "ip"@,
        "wan_ip"@,
        "netspeed_down"@,
        "netspeed_up"@,
        "dev"@,
        "arp"@,
        "banner"@,
        "custom_text"@,
        "http_custom"@,
        "traffic_down"@,
        "traffic_up"@,
        "weather"@,
        "stock"@,
    ]
}

/// The names of the modules differ from one another.
pub proof fn names_differ(i: int, j: int)
    requires
        0 <= i < j < 22,
    ensures
        module_names().len() == 22,
        module_names()[i] != module_names()[j],
{
    lemma_signs();
    let a = module_names()[i];
    let b = module_names()[j];
    assert(a.len() != b.len() || a[0] != b[0] || a[1] != b[1] || a[a.len() - 1] != b[a.len() - 1]
        || a[3] != b[3]);
}

/// By these characters a name is told from the others.
proof fn lemma_signs()
    ensures
        ({
            let n = module_names();
            &&& n[0].len() == 4 && n[0][0] == 'y'
            &&& n[1].len() == 4 && n[1][0] == 'd'
            &&& n[2].len() == 4 && n[2][0] == 't' && n[2][1] == 'i'
            &&& n[3].len() == 9
            &&& n[4].len() == 6 && n[4][0] == 'u'
            &&& n[5].len() == 3 && n[5][0] == 'c'
            &&& n[6].len() == 3 && n[6][0] == 'm'
            &&& n[7].len() == 4 && n[7][0] == 'l'
            &&& n[8].len() == 4 && n[8][0] == 't' && n[8][1] == 'e'
            &&& n[9].len() == 2
            &&& n[10].len() == 6 && n[10][0] == 'w'
            &&& n[11].len() == 13
            &&& n[12].len() == 11 && n[12][0] == 'n'
            &&& n[13].len() == 3 && n[13][0] == 'd'
            &&& n[14].len() == 3 && n[14][0] == 'a'
            &&& n[15].len() == 6 && n[15][0] == 'b'
            &&& n[16].len() == 11 && n[16][0] == 'c'
            &&& n[17].len() == 11 && n[17][0] == 'h'
            &&& n[18].len() == 12
            &&& n[19].len() == 10
            &&& n[20].len() == 7
            &&& n[21].len() == 5
        }),
{
    reveal_strlit("year");
    reveal_strlit("date");
    reveal_strlit("time");
    reveal_strlit("timeBlink");
    reveal_strlit("uptime");
    reveal_strlit("cpu");
    reveal_strlit("mem");
    reveal_strlit("load");
    reveal_strlit("temp");
    reveal_strlit("ip");
    reveal_strlit("wan_ip");
    reveal_strlit("netspeed_down");
    reveal_strlit("netspeed_up");
    reveal_strlit("dev");
    reveal_strlit("arp");
    reveal_strlit("banner");
    reveal_strlit("custom_text");
    reveal_strlit("http_custom");
    reveal_strlit("traffic_down");
    reveal_strlit("traffic_up");
    reveal_strlit("weather");
    reveal_strlit("stock");
}

/// A name shows its own content; what came over the network, and the user's text, are shown whole.
/// Two pairs of names, and three for a text, show the same.
pub proof fn names_show_their_content(c: Content, args: Args, snap: NetSnapshot)
    ensures
        shows(c, "year"@, args, snap) ==> c == Content::Clock(ClockFormat::Year),
        shows(c, "date"@, args, snap) ==> c == Content::Clock(ClockFormat::Date),
        shows(c, "time"@, args, snap) ==> c == Content::Clock(ClockFormat::Time),
        shows(c, "timeBlink"@, args, snap) ==> c == Content::BlinkingClock,
        shows(c, "uptime"@, args, snap) ==> c == Content::Uptime,
        shows(c, "cpu"@, args, snap) ==> c == Content::Cpu,
        shows(c, "mem"@, args, snap) ==> c == Content::Mem,
        shows(c, "load"@, args, snap) ==> c == Content::Load,
        shows(c, "temp"@, args, snap) ==> c == Content::Temp,
        shows(c, "ip"@, args, snap) ==> shows_text(c, snap.ip@),
        shows(c, "wan_ip"@, args, snap) ==> shows_text(c, snap.ip@),
        shows(c, "netspeed_down"@, args, snap) ==> c == Content::SpeedDown,
        shows(c, "netspeed_up"@, args, snap) ==> c == Content::SpeedUp,
        shows(c, "dev"@, args, snap) ==> c == Content::Devices,
        shows(c, "arp"@, args, snap) ==> c == Content::Devices,
        shows(c, "http_custom"@, args, snap) ==> shows_text(c, snap.http_text@),
        shows(c, "traffic_down"@, args, snap) ==> c == Content::TotalDown,
        shows(c, "traffic_up"@, args, snap) ==> c == Content::TotalUp,
        shows(c, "stock"@, args, snap) ==> shows_text(c, snap.stock_text@),
        shows(c, "weather"@, args, snap) ==> c is Weather,
{
    lemma_signs();
    lemma_apart();
}

proof fn lemma_apart()
    ensures
        forall|i: int, j: int|
            0 <= i < j < 22 ==> #[trigger] module_names()[i] != #[trigger] module_names()[j],
{
    assert forall|i: int, j: int| 0 <= i < j < 22 implies #[trigger] module_names()[i]
        != #[trigger] module_names()[j] by {
        names_differ(i, j);
    }
}

/// The user's text is shown whole; only where there is none, a welcome is.
pub proof fn own_text_is_shown(c: Content, args: Args, snap: NetSnapshot)
    ensures
        args.custom_text@.len() > 0 && shows(c, "banner"@, args, snap) ==> shows_text(
            c,
            args.custom_text@,
        ),
        args.custom_text@.len() > 0 && shows(c, "custom_text"@, args, snap) ==> shows_text(
            c,
            args.custom_text@,
        ),
        args.custom_text@.len() == 0 && shows(c, "banner"@, args, snap) ==> shows_text(
            c,
            "Welcome"@,
        ),
        args.custom_text@.len() == 0 && shows(c, "custom_text"@, args, snap) ==> shows_text(
            c,
            "Welcome"@,
        ),
{
    lemma_signs();
    lemma_apart();
}

/// A name that no module has shows nothing and lights no lamp.
pub proof fn other_names_show_nothing(
    c: Content,
    name: Seq<char>,
    args: Args,
    snap: NetSnapshot,
)
    requires
        forall|i: int| 0 <= i < 22 ==> name != #[trigger] module_names()[i],
    ensures
        shows(c, name, args, snap) ==> c == Content::Nothing,
        module_lamp(name) == 0,
{
    let n = module_names();
    assert(name != n[0] && name != n[1] && name != n[2] && name != n[3] && name != n[4]);
    assert(name != n[5] && name != n[6] && name != n[7] && name != n[8] && name != n[9]);
    assert(name != n[10] && name != n[11] && name != n[12] && name != n[13] && name != n[14]);
    assert(name != n[15] && name != n[16] && name != n[17] && name != n[18] && name != n[19]);
    assert(name != n[20] && name != n[21]);
}

/// The clock has the first lamp, what goes up the third, what comes down the fourth. No other
/// module has one.
pub proof fn lamps_are_told_apart(name: Seq<char>)
    ensures
        module_lamp("time"@) == 0b0001 && module_lamp("timeBlink"@) == 0b0001,
        module_lamp("netspeed_up"@) == 0b0100 && module_lamp("traffic_up"@) == 0b0100,
        module_lamp("netspeed_down"@) == 0b1000 && module_lamp("traffic_down"@) == 0b1000,
        name != "time"@ && name != "timeBlink"@ && name != "netspeed_up"@ && name != "traffic_up"@
            && name != "netspeed_down"@ && name != "traffic_down"@ ==> module_lamp(name) == 0,
        LAMP_CLOCK == 1 && LAMP_UP == 4 && LAMP_DOWN == 8,
{
    lemma_signs();
    lemma_apart();
    let n = module_names();
    assert(n[2] != n[11] && n[2] != n[18] && n[3] != n[18]);
    assert(n[11] != n[12] && n[12] != n[18] && n[11] != n[19] && n[18] != n[19]);
    assert(n[2] != n[12] && n[3] != n[12] && n[2] != n[19] && n[3] != n[19] && n[3] != n[11]);
}

/// The weather is shown as its line, in the format of the settings: a failure stands as it is, in
/// every format, and a temperature in the simple format goes with its icon.
pub proof fn weather_is_shown_by_its_line(
    c: Content,
    args: Args,
    snap: NetSnapshot,
    icon: Seq<char>,
    t: Seq<char>,
    low: Seq<char>,
    high: Seq<char>,
)
    requires
        shows(c, "weather"@, args, snap),
        c matches Content::Weather(_),
    ensures
        free_of(snap.weather@, ' ') ==> (c matches Content::Weather(face)
            && face matches WeatherFace::Plain(s) && s@ == snap.weather@),
        free_of(icon, ' ') && t.len() > 0 && all_in(
            t,
            Class::Figure,
        ) && high.len() > 0 && !is_white(high.last()) && args.weather_format@
            == "simple"@ && snap.weather@ == forecast(icon, t, low, high) ==> (c
            matches Content::Weather(face) && moves(face, icon, t + seq!['℃'])),
{
    lemma_signs();
    lemma_apart();
    let n = module_names();
    assert(n[20] == "weather"@);
    assert forall|i: int| 0 <= i < 22 && i != 20 implies n[20] != #[trigger] n[i] by {}
    assert(n[20] != n[0] && n[20] != n[1] && n[20] != n[2] && n[20] != n[3] && n[20] != n[4]);
    assert(n[20] != n[5] && n[20] != n[6] && n[20] != n[7] && n[20] != n[8] && n[20] != n[9]);
    assert(n[20] != n[10] && n[20] != n[11] && n[20] != n[12] && n[20] != n[13]);
    assert(n[20] != n[14] && n[20] != n[15] && n[20] != n[16] && n[20] != n[17]);
    assert(n[20] != n[18] && n[20] != n[19]);
    if let Content::Weather(face) = c {
        if free_of(snap.weather@, ' ') {
            line_without_a_blank_stands(face, snap.weather@, args.weather_format@);
        }
        if free_of(icon, ' ') && t.len() > 0 && all_in(
            t,
            Class::Figure,
        ) && high.len() > 0 && !is_white(high.last()) {
            simple_format_shows_the_temperature(face, icon, t, low, high);
        }
    }
}

/// The text that blanks the screen is eight blanks.
pub proof fn blank_text_is_blank(i: int)
    ensures
        blank().len() == 8,
        0 <= i < 8 ==> blank()[i] == ' ',
{
    reveal_strlit("        ");
}

/// What is nothing is not shown; all else is. The blinking clock shows the time first, and the time
/// without its colon a second later, in turns.
pub proof fn blinking_clock_blinks_every_second(
    now: u64,
    current: Signal,
    secs: u64,
    looks: Seq<Look>,
    i: int,
)
    ensures
        show_for(Content::Nothing, now, current) is None,
        show_for(Content::BlinkingClock, now, current) matches Some(s) && (no_signal(s, looks) && 0
            <= i < looks.len() && in_its_time(s, secs, looks, 6, i) ==> wanted(s, secs, looks, i)
            == (if i % 6 != 0 {
            ShowStep::Nap(200)
        } else if since(now, looks[i].now) >= secs * 1_000_000_000 {
            ShowStep::Ended(false)
        } else {
            ShowStep::Draw((i / 6) % 2 == 1)
        })),
{
    let s = show_for(Content::BlinkingClock, now, current)->Some_0;
    if no_signal(s, looks) && 0 <= i < looks.len() && in_its_time(s, secs, looks, 6, i) {
        if let ShowPhase::Moving(a) = s.phase {
            moving_module_draws_in_turns(s, a, secs, looks, i);
        }
    }
}

/// The weather moves its icon every half second, and begins with the icon as it came.
pub proof fn weather_moves_every_half_second(
    icon: String,
    tail: String,
    now: u64,
    current: Signal,
    secs: u64,
    looks: Seq<Look>,
    i: int,
)
    ensures
        show_for(Content::Weather(WeatherFace::Moving(icon, tail)), now, current) matches Some(s)
            && (no_signal(s, looks) && 0 <= i < looks.len() && in_its_time(s, secs, looks, 3, i)
            ==> wanted(s, secs, looks, i) == (if i % 3 != 0 {
            ShowStep::Nap(250)
        } else if since(now, looks[i].now) >= secs * 1_000_000_000 {
            ShowStep::Ended(false)
        } else {
            ShowStep::Draw((i / 3) % 2 == 0)
        })),
{
    let s = show_for(Content::Weather(WeatherFace::Moving(icon, tail)), now, current)->Some_0;
    if no_signal(s, looks) && 0 <= i < looks.len() && in_its_time(s, secs, looks, 3, i) {
        if let ShowPhase::Moving(a) = s.phase {
            moving_module_draws_in_turns(s, a, secs, looks, i);
        }
    }
}

/// All other modules have one picture: it is drawn once, and stands. A key that comes while it is
/// drawn counts, unless it is weather without an icon.
pub proof fn other_modules_have_one_picture(c: Content, now: u64, current: Signal)
    requires
        !(c is Nothing),
        !(c is BlinkingClock),
        !(c matches Content::Weather(face) && face is Moving),
    ensures
        show_for(c, now, current) == Some(
            Show {
                phase: ShowPhase::Fresh(!(c is Weather)),
                start: now,
                seen: current.number,
            },
        ),
{
}

/// The two pictures of the weather differ in the icon alone, those of a clock in the colon alone.
pub proof fn pictures_differ_in_one_sign(icon: Seq<char>, tail: Seq<char>, time: Seq<char>, i: int)
    ensures
        weather_picture(icon, tail, true) == icon + tail,
        weather_picture(icon, tail, false) == other_icon(icon) + tail,
        blink_picture(time, false) == time,
        blink_picture(time, true).len() == time.len(),
        0 <= i < time.len() && time[i] == ':' ==> blink_picture(time, true)[i] == ';',
        0 <= i < time.len() && time[i] != ':' ==> blink_picture(time, true)[i] == time[i],
{
}

} // verus!
