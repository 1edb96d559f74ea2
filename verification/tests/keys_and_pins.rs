use athena_led::button::{
    execute_action, ButtonEvent, ButtonState, MeshEvent, MeshState, MESH_KEY_PIN, SCREEN_KEY_PIN,
    TOGGLE,
};
use athena_led::control::{new_shared, ControlState, Signal};
use athena_led::gpio::{
    button_pin, detect_gpio_base, disabled_led_mask, find_main_chip, is_main_label,
    line_is_pressed, listener_gpio_base, listing_is_pressed, pin_patterns, screen_gpio_base,
    CdevChip, GpioBackend, SysfsChip,
};

const MS: u64 = 1_000_000;

#[test]
fn click_goes_to_the_next_channel() {
    let mut s = ButtonState::new();
    assert_eq!(s.poll(true, 0, 3), ButtonEvent::Idle);
    assert_eq!(s.poll(false, 100 * MS, 3), ButtonEvent::Idle);
    assert_eq!(s.poll(false, 449 * MS, 3), ButtonEvent::Idle);
    let e = s.poll(false, 450 * MS, 3);
    assert_eq!(e, ButtonEvent::Click(4));
    assert_eq!(e.command(), Some(4));
    assert!(!e.goes_home());
    assert_eq!(s, ButtonState::new());
}

#[test]
fn second_press_is_a_double_click() {
    let mut s = ButtonState::new();
    s.poll(true, 0, 3);
    s.poll(false, 100 * MS, 3);
    let e = s.poll(true, 300 * MS, 3);
    assert_eq!(e, ButtonEvent::DoubleClick(4));
    assert_eq!(e.command(), Some(4));
    assert!(e.goes_home());
    assert_eq!(s.poll(true, 5000 * MS, 4), ButtonEvent::Idle);
    assert_eq!(s.poll(false, 6000 * MS, 4), ButtonEvent::Idle);
    assert_eq!(s.poll(false, 7000 * MS, 4), ButtonEvent::Idle);
}

#[test]
fn long_press_switches_the_screen_once() {
    let mut s = ButtonState::new();
    assert_eq!(s.poll(true, 0, 1), ButtonEvent::Idle);
    assert_eq!(s.poll(true, 1999 * MS, 1), ButtonEvent::Idle);
    let e = s.poll(true, 2000 * MS, 1);
    assert_eq!(e, ButtonEvent::LongPress);
    assert_eq!(e.command(), Some(TOGGLE));
    assert_eq!(s.poll(true, 9000 * MS, -1), ButtonEvent::Idle);
    assert_eq!(s.poll(false, 9100 * MS, -1), ButtonEvent::Idle);
}

#[test]
fn bounce_has_no_effect() {
    let mut s = ButtonState::new();
    s.poll(true, 0, 1);
    assert_eq!(s.poll(false, 50 * MS, 1), ButtonEvent::Idle);
    assert_eq!(s.poll(false, 900 * MS, 1), ButtonEvent::Idle);
    s.poll(true, 1000 * MS, 1);
    s.poll(false, 1050 * MS + 1, 1);
    assert_eq!(s.poll(false, 1500 * MS, 1), ButtonEvent::Click(2));
}

#[test]
fn click_on_a_dark_screen_wakes_it() {
    let mut s = ButtonState::new();
    s.poll(true, 0, TOGGLE);
    let e = s.poll(false, 100 * MS, TOGGLE);
    assert_eq!(e, ButtonEvent::Wake);
    assert_eq!(e.command(), Some(1));
    assert_eq!(s, ButtonState::new());
    assert_eq!(ButtonEvent::Idle.command(), None);
}

#[test]
fn mesh_key_has_two_actions() {
    let mut s = MeshState::new();
    s.poll(true, 0);
    s.poll(false, 100 * MS);
    assert_eq!(s.poll(false, 450 * MS), MeshEvent::ShortPress);
    s.poll(true, 1000 * MS);
    assert_eq!(s.poll(true, 3000 * MS), MeshEvent::LongPress);
    assert_eq!(s.poll(true, 9000 * MS), MeshEvent::Idle);
    assert_eq!(s.poll(false, 9100 * MS), MeshEvent::Idle);
    assert_eq!(s, MeshState { long_press_handled: true, ..MeshState::new() });
}

#[test]
fn mesh_double_click_has_no_action_and_leaves_the_key_as_it_was() {
    let mut s = MeshState::new();
    s.poll(true, 0);
    s.poll(false, 100 * MS);
    assert_eq!(s.poll(true, 200 * MS), MeshEvent::DoubleClick);
    assert_eq!(s.poll(false, 300 * MS), MeshEvent::Idle);
    assert_eq!(s, MeshState::new());
    assert_eq!(s.poll(false, 900 * MS), MeshEvent::Idle);
    s.poll(true, 1000 * MS);
    s.poll(false, 1100 * MS);
    assert_eq!(s.poll(false, 1600 * MS), MeshEvent::ShortPress);
    s.poll(true, 2000 * MS);
    assert_eq!(s.poll(true, 4000 * MS), MeshEvent::LongPress);
}

#[test]
fn mesh_actions_of_a_row_of_polls() {
    let mut s = MeshState::new();
    let mut events = Vec::new();
    for k in 0..60u64 {
        let at = k * 100;
        let pressed = at < 200 || (300..500).contains(&at) || (2500..2700).contains(&at);
        match s.poll(pressed, at * MS) {
            MeshEvent::Idle => {}
            e => events.push(e),
        }
    }
    assert_eq!(events, vec![MeshEvent::DoubleClick, MeshEvent::ShortPress]);
}

#[test]
fn last_command_stands_in_the_way_of_the_next_alone() {
    let mut s = ButtonState::new();
    assert!(!s.sends_next(true, 0));
    assert_eq!(s.poll(true, 0, i32::MAX), ButtonEvent::Idle);
    assert!(!s.sends_next(true, 2000 * MS));
    assert_eq!(s.poll(true, 2000 * MS, i32::MAX), ButtonEvent::LongPress);
    assert_eq!(s.poll(false, 2100 * MS, -1), ButtonEvent::Idle);
    s.poll(true, 3000 * MS, 1);
    s.poll(false, 3100 * MS, 1);
    assert!(s.sends_next(true, 3200 * MS));
    assert!(!s.sends_next(false, 3449 * MS));
    assert!(s.sends_next(false, 3450 * MS));
}

#[test]
fn same_command_twice_is_two_signals() {
    let first = Signal::first();
    assert_eq!(first.command, 1);
    let a = first.next(-1);
    let b = a.next(-1);
    assert_eq!((a.command, b.command), (-1, -1));
    assert!(first.number != a.number && a.number != b.number);
    let last = Signal { number: u64::MAX, command: 5 };
    assert_eq!(last.next(7), Signal { number: 0, command: 7 });
}

#[test]
fn actions_run_their_programs() {
    let reboot = execute_action("reboot").unwrap();
    assert_eq!((reboot.program, reboot.arg), ("reboot", None));
    for (action, program) in [
        ("restart_network", "/etc/init.d/network"),
        ("restart_wifi", "/etc/init.d/wireless"),
        ("restart_athena", "/etc/init.d/athena_led"),
    ] {
        let c = execute_action(action).unwrap();
        assert_eq!((c.program, c.arg), (program, Some("restart")));
    }
    assert!(execute_action("none").is_none());
    assert!(execute_action("Reboot").is_none());
}

#[test]
fn home_is_asked_for_once() {
    let mut c = new_shared();
    assert!(!c.take_go_home());
    c.request_home();
    assert!(c.take_go_home());
    assert!(!c.take_go_home());
    assert!(!ControlState::default().go_home);
}

#[test]
fn backends_have_names() {
    assert_eq!(GpioBackend::from_str("AUTO"), Ok(GpioBackend::Auto));
    assert_eq!(GpioBackend::from_str("cdev"), Ok(GpioBackend::Cdev));
    assert_eq!(GpioBackend::from_str("SysFs"), Ok(GpioBackend::Sysfs));
    assert_eq!(GpioBackend::from_str("SPI"), Err("unknown gpio backend: spi".to_string()));
    assert_eq!(GpioBackend::from_setting(" cdev "), GpioBackend::Cdev);
    assert_eq!(GpioBackend::from_setting("sysfs"), GpioBackend::Sysfs);
    assert_eq!(GpioBackend::from_setting("auto"), GpioBackend::Auto);
    assert_eq!(GpioBackend::from_setting("CDEV"), GpioBackend::Auto);
}

fn sysfs(name: &str, base: &str, ngpio: &str, label: &str) -> SysfsChip {
    SysfsChip {
        name: name.to_string(),
        base: Some(base.to_string()),
        ngpio: Some(ngpio.to_string()),
        label: Some(label.to_string()),
    }
}

#[test]
fn main_chip_gives_the_base() {
    let chips = vec![
        sysfs("gpiochip0", "0\n", "200\n", "other\n"),
        sysfs("gpiochip512", "512\n", "80\n", " 1000000.PINCTRL \n"),
        sysfs("gpiochip432", "432\n", "60\n", "tlmm\n"),
        sysfs("export", "7", "900", "pinctrl"),
    ];
    assert_eq!(detect_gpio_base(&chips), 512);
}

#[test]
fn chip_with_most_lines_gives_the_base_where_no_label_tells() {
    let mut chips = vec![
        sysfs("gpiochip0", "0", "16", "a"),
        sysfs("gpiochip16", "16", "80", "b"),
        sysfs("gpiochip96", "96", "80", "c"),
    ];
    assert_eq!(detect_gpio_base(&chips), 16);
    chips[1].base = Some("sixteen".to_string());
    assert_eq!(detect_gpio_base(&chips), 96);
    chips[2].base = None;
    assert_eq!(detect_gpio_base(&chips), 0);
    chips[0].ngpio = None;
    chips[0].label = None;
    assert_eq!(detect_gpio_base(&chips), 0);
    assert_eq!(detect_gpio_base(&Vec::new()), 512);
}

#[test]
fn main_chip_is_found_among_the_devices() {
    let chips = vec![
        CdevChip { name: "null".to_string(), info: Some(("pinctrl".to_string(), 999)) },
        CdevChip { name: "gpiochip0".to_string(), info: Some(("expander".to_string(), 999)) },
        CdevChip { name: "gpiochip1".to_string(), info: None },
        CdevChip { name: "gpiochip2".to_string(), info: Some(("1000000.PinCtrl".to_string(), 80)) },
        CdevChip { name: "gpiochip3".to_string(), info: Some(("TLMM".to_string(), 80)) },
    ];
    assert_eq!(find_main_chip(&chips), Some(3));
    assert_eq!(find_main_chip(&Vec::new()), None);
    assert!(is_main_label("qcom,tlmm") && !is_main_label("TLMM"));
}

#[test]
fn settings_give_bases_and_pins() {
    assert_eq!(listener_gpio_base(" 432 "), Some(432));
    assert_eq!(listener_gpio_base("auto"), None);
    assert_eq!(listener_gpio_base(""), None);
    assert_eq!(screen_gpio_base("432"), Some(432));
    assert_eq!(screen_gpio_base(" 432"), None);
    assert_eq!(screen_gpio_base("AUTO"), None);
    assert_eq!(button_pin(" 68\n", SCREEN_KEY_PIN), 68);
    assert_eq!(button_pin("x", SCREEN_KEY_PIN), 71);
    assert_eq!(button_pin("4294967296", MESH_KEY_PIN), 72);
}

#[test]
fn listing_tells_of_a_pressed_key() {
    let names = pin_patterns(71, 512);
    assert_eq!(names, vec!["gpio71  :", "gpio-71 ", "gpio-583 ", "gpio-583("]);
    let listing = "gpiochip0:\n gpio-582 (x) in  lo\n gpio-583 (key) in  hi\n";
    assert!(!listing_is_pressed(listing, &names));
    assert!(listing_is_pressed(" gpio-583 (key          ) in  lo IRQ\n", &names));
    assert!(listing_is_pressed(" gpio71  : in low func0\n", &names));
    assert!(listing_is_pressed("\n gpio-583(key) in  lo  \n", &names));
    assert!(!listing_is_pressed(" gpio-583 (key) out lo\n", &names));
    assert!(!listing_is_pressed("", &names));
    let line: Vec<char> = "gpio-71 in  lo".chars().collect();
    assert!(line_is_pressed(&line));
    let other: Vec<char> = "gpio-71 in  lo2".chars().collect();
    assert!(!line_is_pressed(&other));
}

#[test]
fn lamps_have_their_bits() {
    assert_eq!(disabled_led_mask(false, false, false, false), 0);
    assert_eq!(disabled_led_mask(true, false, false, false), 1);
    assert_eq!(disabled_led_mask(false, true, false, false), 2);
    assert_eq!(disabled_led_mask(false, false, true, false), 4);
    assert_eq!(disabled_led_mask(false, false, false, true), 8);
    assert_eq!(disabled_led_mask(true, true, true, true), 15);
}
