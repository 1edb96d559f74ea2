use athena_led::args::Args;
use athena_led::clock::ClockFormat;
use athena_led::control::Signal;
use athena_led::modules::{
    blank_text, blink_frame, content_of, lamp_of, show_of, weather_face, weather_frame, Content,
    WeatherFace,
};
use athena_led::monitor::SystemMonitor;
use athena_led::net_agent::NetSnapshot;
use athena_led::scheduler::{modules_of, poll_cmd, Cycle, Scheduler, Show, ShowStep};

const SEC: u64 = 1_000_000_000;

/// A command with a number of its own.
fn told(command: i32) -> Signal {
    Signal { number: command as u64, command }
}

fn args() -> Args {
    Args {
        seconds: 5,
        light_level: 5,
        display_order: String::new(),
        net_interface: "br-lan".to_string(),
        ip_url: String::new(),
        custom_text: String::new(),
        custom_http_url: String::new(),
        http_length: 15,
        weather_city: String::new(),
        weather_source: String::new(),
        seniverse_key: String::new(),
        stock_url: String::new(),
        temp_flag: "4".to_string(),
        sleep_start: String::new(),
        sleep_end: String::new(),
        weather_format: "simple".to_string(),
        http_cache_secs: 300,
        gpio_backend: "auto".to_string(),
        button_gpio: "71".to_string(),
        gpio_base: "auto".to_string(),
        enable_mesh_button: 0,
        mesh_button_gpio: "72".to_string(),
        mesh_short_action: "none".to_string(),
        mesh_long_action: "none".to_string(),
        disable_led_clock: false,
        disable_led_medal: false,
        disable_led_up: false,
        disable_led_down: false,
        profile: Vec::new(),
    }
}

fn snapshot() -> NetSnapshot {
    NetSnapshot {
        weather: "☀ 25℃ 18-30".to_string(),
        ip: "IP:1.2.3.4".to_string(),
        stock_text: "12.34".to_string(),
        http_text: "hello".to_string(),
        ..NetSnapshot::default()
    }
}

fn text_of(name: &str) -> String {
    match content_of(name, &args(), &snapshot()) {
        Content::Text(t) => t,
        other => panic!("{:?}", other),
    }
}

#[test]
fn modules_come_in_the_order_of_the_setting() {
    assert_eq!(modules_of("  date timeBlink\tcpu "), vec!["date", "timeBlink", "cpu"]);
    assert!(modules_of(" ").is_empty());
}

#[test]
fn command_is_new_once() {
    let mut seen = told(1).number;
    assert_eq!(poll_cmd(told(1), &mut seen), None);
    assert_eq!(poll_cmd(told(4), &mut seen), Some(4));
    assert_eq!(seen, told(4).number);
    assert_eq!(poll_cmd(told(4), &mut seen), None);
    assert_eq!(poll_cmd(told(-1), &mut seen), Some(-1));
}

#[test]
fn nothing_is_scheduled_without_modules() {
    assert_eq!(Scheduler::new(0, told(1)), None);
    assert_eq!(
        Scheduler::new(3, told(7)),
        Some(Scheduler { total: 3, channel: 1, last_seen: 7, screen_on: true })
    );
}

#[test]
fn modules_have_their_turns() {
    let mut s = Scheduler::new(3, told(1)).unwrap();
    let mut shown = Vec::new();
    for _ in 0..7 {
        match s.begin(true, false, told(1), false) {
            Cycle::Show(i) => shown.push(i),
            other => panic!("{:?}", other),
        }
        s.finish_show(false);
    }
    assert_eq!(shown, vec![0, 1, 2, 0, 1, 2, 0]);
}

#[test]
fn commands_go_round_the_channels() {
    let mut s = Scheduler::new(3, told(1)).unwrap();
    for (cmd, index) in [(2, 1), (3, 2), (4, 0), (5, 1), (300, 2), (i32::MAX, 0)] {
        assert_eq!(s.begin(true, false, told(cmd), false), Cycle::Show(index), "{}", cmd);
    }
    assert_eq!(s.begin(true, false, told(0), false), Cycle::Show(0));
    assert_eq!(s.begin(true, false, told(-7), false), Cycle::Show(0));
}

#[test]
fn stopped_program_ends_the_schedule() {
    let mut s = Scheduler::new(3, told(1)).unwrap();
    let before = s;
    assert_eq!(s.begin(false, true, told(5), true), Cycle::Stop);
    assert_eq!(s, before);
}

#[test]
fn double_click_leads_home() {
    let mut s = Scheduler::new(3, told(1)).unwrap();
    assert_eq!(s.begin(true, true, told(2), false), Cycle::Show(0));
    assert_eq!(s.begin(true, false, told(2), false), Cycle::Show(0));
    assert_eq!(s.begin(true, false, told(3), false), Cycle::Show(2));
    assert_eq!(s.begin(true, true, told(3), false), Cycle::Show(0));
}

#[test]
fn second_long_press_wakes_the_screen() {
    let mut s = Scheduler::new(3, told(1)).unwrap();
    let off = Signal { number: 7, command: -1 };
    let on = off.next(-1);
    assert_eq!(s.begin(true, false, off, false), Cycle::Dark);
    let mut seen = off.number;
    assert!(!s.wait_for_wakeup(true, off, &mut seen));
    assert!(s.wait_for_wakeup(true, on, &mut seen));
    assert!(s.screen_on);
    assert!(s.wake(true));
    assert_eq!(s.begin(true, false, on, false), Cycle::Show(0));
    let mut show = Show::still(true, 0, on);
    assert_eq!(show.advance(&mut s, 5, 0, on), ShowStep::Draw(false));
    let off_again = on.next(-1);
    assert_eq!(show.advance(&mut s, 5, 0, off_again), ShowStep::Ended(true));
    assert_eq!(s.begin(true, false, off_again, false), Cycle::Dark);
}

#[test]
fn switch_at_the_hours_of_sleep_darkens_the_screen() {
    let mut s = Scheduler::new(3, told(1)).unwrap();
    assert_eq!(s.begin(true, false, told(1), true), Cycle::Sleep);
    let mut seen = told(1).number;
    assert!(s.sleep_with_interrupt(9, 0, true, told(-1), &mut seen));
    assert_eq!(s.begin(true, false, told(-1), true), Cycle::Dark);
}

#[test]
fn switch_darkens_the_screen_until_a_key_comes() {
    let mut s = Scheduler::new(3, told(1)).unwrap();
    s.begin(true, false, told(2), false);
    assert_eq!(s.begin(true, false, told(-1), false), Cycle::Dark);
    let mut seen = told(-1).number;
    assert!(!s.wait_for_wakeup(true, told(-1), &mut seen));
    assert!(!s.wait_for_wakeup(true, told(0), &mut seen));
    assert_eq!(seen, told(0).number);
    assert!(!s.screen_on);
    assert!(s.wait_for_wakeup(true, told(1), &mut seen));
    assert!(s.screen_on);
    let before = s;
    assert!(!s.wake(false));
    assert_eq!(s, before);
    assert!(s.wake(true));
    assert_eq!(s.channel, 1);
    assert_eq!(s.begin(true, false, told(1), false), Cycle::Show(0));
}

#[test]
fn switch_wakes_a_dark_screen_too() {
    let mut s = Scheduler::new(3, told(5)).unwrap();
    s.screen_on = false;
    s.channel = 2;
    assert_eq!(s.begin(true, false, told(5), false), Cycle::Dark);
    assert_eq!(s.begin(true, false, told(-1), false), Cycle::Show(0));
    assert!(s.screen_on);
    s.screen_on = false;
    let mut seen = told(5).number;
    assert!(s.wait_for_wakeup(true, told(-1), &mut seen));
}

#[test]
fn stopped_program_ends_the_waiting() {
    let mut s = Scheduler::new(3, told(1)).unwrap();
    s.screen_on = false;
    let mut seen = told(1).number;
    assert!(s.wait_for_wakeup(false, told(1), &mut seen));
    assert!(!s.screen_on);
    assert!(s.sleep_with_interrupt(10, 0, false, told(1), &mut seen));
    assert!(!s.screen_on);
}

#[test]
fn hours_of_sleep_last_until_the_hour_of_waking() {
    let mut s = Scheduler::new(3, told(1)).unwrap();
    assert_eq!(s.begin(true, false, told(1), true), Cycle::Sleep);
    let mut seen = told(1).number;
    assert!(!s.sleep_with_interrupt(3600, 0, true, told(1), &mut seen));
    assert!(!s.sleep_with_interrupt(3600, 3600 * SEC - 1, true, told(1), &mut seen));
    assert!(s.sleep_with_interrupt(3600, 3600 * SEC, true, told(1), &mut seen));
    assert!(s.screen_on);
    assert_eq!(s.begin(true, false, told(1), false), Cycle::Show(0));
}

#[test]
fn key_ends_the_hours_of_sleep() {
    let mut s = Scheduler::new(3, told(1)).unwrap();
    s.begin(true, false, told(1), true);
    let mut seen = told(1).number;
    assert!(!s.sleep_with_interrupt(u64::MAX, SEC, true, told(1), &mut seen));
    assert!(s.sleep_with_interrupt(u64::MAX, 2 * SEC, true, told(2), &mut seen));
    assert!(s.screen_on);
    assert_eq!(s.begin(true, false, told(2), false), Cycle::Show(1));
}

#[test]
fn module_stands_for_its_time() {
    let mut s = Scheduler::new(3, told(1)).unwrap();
    let mut seen = told(1).number;
    assert_eq!(s.sleep_with_key_check(5, 0, told(1), &mut seen), None);
    assert_eq!(s.sleep_with_key_check(5, 5 * SEC - 1, told(1), &mut seen), None);
    assert_eq!(s.sleep_with_key_check(5, 5 * SEC, told(2), &mut seen), Some(false));
    assert_eq!(seen, told(1).number);
    assert_eq!(s.sleep_with_key_check(0, 0, told(2), &mut seen), Some(false));
    assert_eq!(s.sleep_with_key_check(5, SEC, told(5), &mut seen), Some(true));
    assert_eq!(s.channel, 2);
    s.finish_show(true);
    assert_eq!(s.channel, 2);
}

#[test]
fn switch_cuts_a_module_short_and_keeps_the_channel() {
    let mut s = Scheduler::new(3, told(1)).unwrap();
    s.channel = 3;
    let mut seen = told(1).number;
    assert!(s.check_key(told(-1), &mut seen));
    assert_eq!(s.channel, 3);
    assert!(!s.check_key(told(-1), &mut seen));
    assert!(!s.check_key(told(0), &mut seen));
    assert!(s.check_key(told(1), &mut seen));
    assert_eq!(s.channel, 1);
}

fn shown(name: &str, now: u64, current: i32) -> Show {
    show_of(&content_of(name, &args(), &snapshot()), now, told(current)).unwrap()
}

/// Shows a module to its end; gives the times and flags of its pictures, and when it ended.
fn run_show(mut show: Show, secs: u64, start: u64) -> (Vec<(u64, bool)>, u64) {
    let mut s = Scheduler::new(3, told(1)).unwrap();
    let mut now = start;
    let mut pictures = Vec::new();
    loop {
        match show.advance(&mut s, secs, now, told(1)) {
            ShowStep::Draw(flag) => pictures.push((now - start, flag)),
            ShowStep::Nap(millis) => now += millis * 1_000_000,
            ShowStep::Ended(interrupted) => {
                assert!(!interrupted);
                return (pictures, now - start);
            }
        }
    }
}

#[test]
fn clock_blinks_once_a_second() {
    assert_eq!(
        run_show(shown("timeBlink", 7, 1), 3, 7),
        (vec![(0, false), (SEC, true), (2 * SEC, false)], 3 * SEC)
    );
}

#[test]
fn weather_moves_twice_a_second() {
    assert_eq!(
        run_show(shown("weather", 7, 1), 1, 7),
        (vec![(0, true), (SEC / 2, false)], SEC)
    );
}

#[test]
fn other_modules_stand() {
    for name in ["date", "cpu", "ip", "banner", "stock"] {
        assert_eq!(run_show(shown(name, 7, 1), 3, 7), (vec![(0, false)], 3 * SEC));
        assert_eq!(run_show(shown(name, 7, 1), 0, 7), (vec![(0, false)], 0));
    }
    assert_eq!(run_show(shown("timeBlink", 7, 1), 0, 7), (Vec::new(), 0));
    assert!(show_of(&content_of("unknown", &args(), &snapshot()), 0, told(1)).is_none());
}

#[test]
fn time_of_a_picture_begins_once_it_is_drawn() {
    let mut s = Scheduler::new(3, told(1)).unwrap();
    let mut show = shown("date", 0, 1);
    assert_eq!(show.advance(&mut s, 5, 0, told(1)), ShowStep::Draw(false));
    assert_eq!(show.advance(&mut s, 5, 60 * SEC, told(1)), ShowStep::Nap(200));
    assert_eq!(show.advance(&mut s, 5, 65 * SEC - 1, told(1)), ShowStep::Nap(200));
    assert_eq!(show.advance(&mut s, 5, 65 * SEC, told(2)), ShowStep::Ended(false));
    assert_eq!(s.channel, 1);
}

#[test]
fn key_cuts_an_animation_short() {
    let mut s = Scheduler::new(3, told(1)).unwrap();
    let mut a = shown("weather", 0, 1);
    assert_eq!(a.advance(&mut s, 9, 0, told(1)), ShowStep::Draw(true));
    assert_eq!(a.advance(&mut s, 9, 0, told(2)), ShowStep::Nap(250));
    assert_eq!(a.advance(&mut s, 9, 0, told(2)), ShowStep::Ended(true));
    assert_eq!((s.channel, a.seen), (2, 2));
    let mut b = shown("timeBlink", 0, 2);
    assert_eq!(b.advance(&mut s, 9, 0, told(3)), ShowStep::Ended(true));
    assert_eq!(s.channel, 3);
    let mut c = shown("timeBlink", 0, 3);
    assert_eq!(c.advance(&mut s, 0, 0, told(4)), ShowStep::Ended(false));
    assert_eq!((s.channel, c.seen), (3, 3));
}

#[test]
fn key_cuts_a_picture_short() {
    let mut s = Scheduler::new(3, told(1)).unwrap();
    let mut while_drawn = shown("date", 0, 1);
    assert_eq!(while_drawn.advance(&mut s, 9, 0, told(1)), ShowStep::Draw(false));
    assert_eq!(while_drawn.advance(&mut s, 9, 0, told(3)), ShowStep::Ended(true));
    assert_eq!(s.channel, 3);
    let mut later = shown("date", 0, 3);
    assert_eq!(later.advance(&mut s, 9, 0, told(3)), ShowStep::Draw(false));
    assert_eq!(later.advance(&mut s, 9, 0, told(3)), ShowStep::Nap(200));
    assert_eq!(later.advance(&mut s, 9, SEC, told(-1)), ShowStep::Ended(true));
    assert_eq!(s.channel, 3);
}

#[test]
fn key_does_not_count_while_plain_weather_is_drawn() {
    let mut s = Scheduler::new(3, told(1)).unwrap();
    let waiting = NetSnapshot::default();
    let content = content_of("weather", &args(), &waiting);
    assert!(matches!(content, Content::Weather(WeatherFace::Plain(_))));
    let mut show = show_of(&content, 0, told(1)).unwrap();
    assert_eq!(show.advance(&mut s, 9, 0, told(1)), ShowStep::Draw(false));
    assert_eq!(show.advance(&mut s, 9, 0, told(3)), ShowStep::Nap(200));
    assert_eq!(s.channel, 1);
    assert_eq!(show.advance(&mut s, 9, SEC, told(2)), ShowStep::Ended(true));
    assert_eq!(s.channel, 2);
}

#[test]
fn modules_show_what_they_are_named_for() {
    assert_eq!(text_of("ip"), "IP:1.2.3.4");
    assert_eq!(text_of("wan_ip"), "IP:1.2.3.4");
    assert_eq!(text_of("http_custom"), "hello");
    assert_eq!(text_of("stock"), "12.34");
    assert_eq!(text_of("banner"), "Welcome");
    assert_eq!(text_of("custom_text"), "Welcome");
    let mut a = args();
    a.custom_text = "Hi".to_string();
    assert!(matches!(content_of("banner", &a, &snapshot()), Content::Text(t) if t == "Hi"));
    let of = |name: &str| content_of(name, &args(), &snapshot());
    assert!(matches!(of("year"), Content::Clock(ClockFormat::Year)));
    assert!(matches!(of("date"), Content::Clock(ClockFormat::Date)));
    assert!(matches!(of("time"), Content::Clock(ClockFormat::Time)));
    assert!(matches!(of("timeBlink"), Content::BlinkingClock));
    assert!(matches!(of("uptime"), Content::Uptime));
    assert!(matches!(of("cpu"), Content::Cpu));
    assert!(matches!(of("mem"), Content::Mem));
    assert!(matches!(of("load"), Content::Load));
    assert!(matches!(of("temp"), Content::Temp));
    assert!(matches!(of("netspeed_down"), Content::SpeedDown));
    assert!(matches!(of("netspeed_up"), Content::SpeedUp));
    assert!(matches!(of("dev"), Content::Devices));
    assert!(matches!(of("arp"), Content::Devices));
    assert!(matches!(of("traffic_down"), Content::TotalDown));
    assert!(matches!(of("traffic_up"), Content::TotalUp));
    assert!(matches!(of("weather"), Content::Weather(WeatherFace::Moving(..))));
    assert!(matches!(of("Time"), Content::Nothing));
    assert!(matches!(of(""), Content::Nothing));
}

#[test]
fn modules_have_their_lamps() {
    for (name, lamp) in [
        ("time", 1),
        ("timeBlink", 1),
        ("netspeed_down", 8),
        ("traffic_down", 8),
        ("netspeed_up", 4),
        ("traffic_up", 4),
        ("date", 0),
        ("weather", 0),
        ("unknown", 0),
    ] {
        assert_eq!(lamp_of(name), lamp, "{}", name);
    }
    assert_eq!(blank_text(), "        ");
}

fn face(line: &str, format: &str) -> (String, String) {
    match weather_face(line, format) {
        WeatherFace::Moving(icon, tail) => (icon, tail),
        WeatherFace::Plain(t) => (t, String::from("plain")),
    }
}

#[test]
fn simple_weather_is_icon_and_temperature() {
    let pair = |a: &str, b: &str| (a.to_string(), b.to_string());
    assert_eq!(face("☀ 25℃ 18-30", "simple"), pair("☀", "25℃"));
    assert_eq!(face("❄ -5℃ -9--1", "simple"), pair("❄", "-5"));
    assert_eq!(face("☁ 12.5℃", "simple"), pair("☁", "12.5℃"));
    assert_eq!(face("☁   7-8", "simple"), pair("☁", "7℃"));
    assert_eq!(face("☁ n/a", "simple"), pair("☁", "℃"));
    assert_eq!(face("☀ 25℃ 18-30 ", "full"), pair("☀", " 25℃ 18-30"));
    assert_eq!(face("Wait...", "simple"), pair("Wait...", "plain"));
}

#[test]
fn pictures_change_with_the_flag() {
    let m = SystemMonitor::new(String::new(), 0);
    assert_eq!(weather_frame(&m, "☀", "25℃", true), "☀25℃");
    assert_eq!(weather_frame(&m, "☀", "25℃", false), "☼25℃");
    assert_eq!(weather_frame(&m, "🌫", "25℃", false), "🌫25℃");
    assert_eq!(blink_frame("12:34", false), "12:34");
    assert_eq!(blink_frame("12:34", true), "12;34");
}

#[test]
fn switching_twice_leaves_the_screen_as_it_was() {
    let mut s = Scheduler::new(3, told(1)).unwrap();
    let off = Signal { number: 7, command: -1 };
    assert_eq!(s.begin(true, false, off, false), Cycle::Dark);
    assert_eq!(s.begin(true, false, off.next(-1), false), Cycle::Show(0));
}
