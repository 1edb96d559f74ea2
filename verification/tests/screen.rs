use athena_led::char_dict::{CharDict, SimDict};
use athena_led::control::Signal;
use athena_led::gpio::GpioBackend;
use athena_led::led_screen::{
    line_offset, unit_write, BusKind, LedScreen, Line, PinWrite, Rendering, Scroll, ScrollStep,
    COLUMNS, FRAME_MILLIS, NAP_MILLIS,
};

/// A command with a number of its own.
fn told(command: i32) -> Signal {
    Signal { number: command as u64, command }
}

/// What the two chips shifted in: for each selection its line, and the bits at the rising edges.
fn transfers(writes: &[PinWrite]) -> Vec<(Line, Vec<u8>)> {
    let mut out = Vec::new();
    let mut selected: Option<Line> = None;
    let mut clk = 1u8;
    let mut dio = 0u8;
    let mut bits = Vec::new();
    for w in writes {
        match w.line {
            Line::Clk => {
                if clk == 0 && w.level == 1 && selected.is_some() {
                    bits.push(dio);
                }
                clk = w.level;
            }
            Line::Dio => dio = w.level,
            stb => {
                if w.level == 0 {
                    assert!(selected.is_none());
                    selected = Some(stb);
                } else {
                    assert_eq!(selected, Some(stb));
                    out.push((stb, bits.clone()));
                    bits.clear();
                    selected = None;
                }
            }
        }
    }
    assert!(selected.is_none());
    out
}

fn number(bits: &[u8]) -> u8 {
    bits.iter().enumerate().map(|(i, b)| b << i).sum()
}

/// The command and the columns of a transfer.
fn content(bits: &[u8]) -> (u8, Vec<u8>) {
    let command = number(&bits[..8]);
    let mut columns = Vec::new();
    let mut rest = &bits[8..];
    while !rest.is_empty() {
        columns.push(number(&rest[..5]));
        rest = &rest[5..];
        if columns.len() % 2 == 0 {
            assert_eq!(&rest[..6], &[0u8; 6]);
            rest = &rest[6..];
        }
    }
    (command, columns)
}

/// The 27 columns and the status lamps that some levels put onto the screen.
fn panel(writes: &[PinWrite]) -> (Vec<u8>, u8) {
    let all = transfers(writes);
    assert_eq!(all.len(), 2);
    assert_eq!((all[0].0, all[1].0), (Line::StbLeft, Line::StbRight));
    let (left_command, mut columns) = content(&all[0].1);
    let (right_command, right) = content(&all[1].1);
    assert_eq!((left_command, right_command), (0xc0, 0xc0));
    assert_eq!((columns.len(), right.len()), (14, 14));
    columns.extend_from_slice(&right[..13]);
    (columns, right[13])
}

fn screen(mask: u8) -> LedScreen {
    LedScreen::new(GpioBackend::Auto, 512, mask).0
}

fn dict() -> CharDict {
    let mut d = CharDict::new();
    d.insert('A', vec![1, 2, 3]);
    d.insert('B', vec![4, 5, 6]);
    d.insert('☀', vec![31]);
    d
}

fn still(r: Rendering) -> Vec<PinWrite> {
    match r {
        Rendering::Still(w) => w,
        Rendering::Moving(_) => panic!("moving"),
    }
}

fn moving(r: Rendering) -> Scroll {
    match r {
        Rendering::Still(_) => panic!("still"),
        Rendering::Moving(s) => s,
    }
}

#[test]
fn new_screen_is_set_up_on_both_chips() {
    let (s, writes) = LedScreen::new(GpioBackend::Cdev, 432, 5);
    assert_eq!((s.backend, s.gpio_base, s.disabled_led_mask), (GpioBackend::Cdev, 432, 5));
    let commands: Vec<(Line, u8)> =
        transfers(&writes).iter().map(|t| (t.0, content(&t.1).0)).collect();
    assert_eq!(
        commands,
        vec![
            (Line::StbLeft, 0x03),
            (Line::StbRight, 0x03),
            (Line::StbLeft, 0x40),
            (Line::StbRight, 0x40)
        ]
    );
    let (old, old_writes) = LedScreen::new_with_mask(1, 2, 3, 4, 512, 5);
    assert_eq!((old.backend, old.gpio_base, old.disabled_led_mask), (GpioBackend::Auto, 512, 5));
    assert_eq!(old_writes, writes);
    let mut parts = s.set_show_model();
    parts.append(&mut s.set_data_model());
    assert_eq!(parts, writes);
}

#[test]
fn bus_is_chosen_by_the_backend() {
    let of = |b| LedScreen::new(b, 0, 0).0;
    assert_eq!(of(GpioBackend::Auto).first_bus(), BusKind::Cdev);
    assert_eq!(of(GpioBackend::Auto).fallback_bus(), Some(BusKind::Sysfs));
    assert_eq!(of(GpioBackend::Cdev).first_bus(), BusKind::Cdev);
    assert_eq!(of(GpioBackend::Cdev).fallback_bus(), None);
    assert_eq!(of(GpioBackend::Sysfs).first_bus(), BusKind::Sysfs);
    assert_eq!(of(GpioBackend::Sysfs).fallback_bus(), None);
}

#[test]
fn lines_have_their_pins() {
    let s = screen(0);
    let all = [Line::StbLeft, Line::StbRight, Line::Clk, Line::Dio];
    assert_eq!(all.map(|l| line_offset(l)), [69, 70, 73, 74]);
    assert_eq!(all.map(|l| s.pin_number(l)), [581, 582, 585, 586]);
}

#[test]
fn one_bit_takes_three_levels() {
    let w = unit_write(Line::StbLeft, 0x01, &[]);
    let put = |line, level| PinWrite { line, level };
    assert_eq!(w.len(), 26);
    assert_eq!(
        &w[..7],
        &[
            put(Line::StbLeft, 0),
            put(Line::Clk, 0),
            put(Line::Dio, 1),
            put(Line::Clk, 1),
            put(Line::Clk, 0),
            put(Line::Dio, 0),
            put(Line::Clk, 1)
        ]
    );
    assert_eq!(w[25], put(Line::StbLeft, 1));
}

#[test]
fn chip_reads_what_was_written() {
    let columns: Vec<u8> = (0..14).collect();
    let t = transfers(&unit_write(Line::StbRight, 0xa5, &columns));
    assert_eq!(t.len(), 1);
    assert_eq!(t[0].0, Line::StbRight);
    assert_eq!(content(&t[0].1), (0xa5, columns));
    assert_eq!(t[0].1.len(), 8 + 14 * 5 + 7 * 6);
}

#[test]
fn brightness_has_eight_levels() {
    let s = screen(0);
    for level in 0..=255u8 {
        for t in transfers(&s.power(true, level)) {
            assert_eq!(content(&t.1).0, 0x88 | (level & 7));
        }
        for t in transfers(&s.power(false, level)) {
            assert_eq!(content(&t.1).0, 0x80);
        }
    }
    assert_eq!(content(&transfers(&s.power(true, 5))[0].1).0, 0b1000_1101);
}

#[test]
fn short_text_stands_in_the_middle() {
    let mut s = screen(0);
    let (columns, status) = panel(&still(s.write_data(b"Ab", 8, &dict(), told(0))));
    let mut expected = vec![0; 10];
    expected.extend_from_slice(&[1, 2, 3, 0, 4, 5, 6]);
    expected.extend_from_slice(&[0; 10]);
    assert_eq!(columns, expected);
    assert_eq!(status, 8);
}

#[test]
fn unknown_characters_are_left_out() {
    let mut s = screen(0);
    let plain = still(s.write_data("a☀".as_bytes(), 0, &dict(), told(0)));
    let strange = still(s.write_data("?a?☀ℵ".as_bytes(), 0, &dict(), told(0)));
    assert_eq!(plain, strange);
    assert_eq!(panel(&plain).0[11..16], [1, 2, 3, 0, 31]);
    let nothing = still(s.write_data(b"????", 0, &dict(), told(0)));
    assert_eq!(panel(&nothing).0, vec![0; 27]);
}

#[test]
fn bytes_that_are_no_text_show_nothing() {
    let mut s = screen(0);
    let (columns, status) = panel(&still(s.write_data(&[b'A', 0xff, b'B'], 1, &dict(), told(0))));
    assert_eq!(columns, vec![0; 27]);
    assert_eq!(status, 1);
    let cut = "☀".as_bytes();
    assert_eq!(panel(&still(s.write_data(&cut[..2], 0, &dict(), told(0)))).0, vec![0; 27]);
    assert_eq!(panel(&still(s.write_data(cut, 0, &dict(), told(0)))).0[13], 31);
}

#[test]
fn full_screen_does_not_move() {
    let mut s = screen(0);
    let (columns, _) = panel(&still(s.write_data(b"ABABABA", 0, &dict(), told(0))));
    assert_eq!(columns.len(), 27);
    assert_eq!(columns[24..], [1, 2, 3]);
    assert_eq!(columns[0], 1);
    assert_eq!(moving(s.write_data("ABABABA☀".as_bytes(), 0, &dict(), told(0))).data.len(), 29);
}

#[test]
fn disabled_lamps_stay_dark() {
    for mask in 0..16u8 {
        let mut s = screen(mask);
        for status in 0..16u8 {
            let w = still(s.write_data(b"A", status, &dict(), told(0)));
            assert_eq!(panel(&w).1, status & !mask);
        }
    }
}

/// Lets a text scroll by; `key` says which command is the latest before each step.
fn run(s: &mut LedScreen, scroll: &mut Scroll, key: impl Fn(usize) -> i32) -> (Vec<Vec<u8>>, usize) {
    let mut frames = Vec::new();
    let mut naps = 0;
    for step in 0.. {
        match scroll.advance(s, told(key(step))) {
            ScrollStep::Write(w) => frames.push(panel(&w).0),
            ScrollStep::Nap => naps += 1,
            ScrollStep::Done => break,
        }
    }
    (frames, naps)
}

#[test]
fn long_text_moves_by_one_column() {
    let mut s = screen(0);
    let mut scroll = moving(s.write_data(b"ABABABABAB", 2, &dict(), told(0)));
    let data = scroll.data.clone();
    assert_eq!(data.len(), 39);
    let (frames, naps) = run(&mut s, &mut scroll, |_| 0);
    assert_eq!(frames.len(), 39);
    assert_eq!(naps as u64, 39 * FRAME_MILLIS.div_ceil(NAP_MILLIS));
    for (i, f) in frames.iter().enumerate() {
        let mut expected = data[(i + 1).saturating_sub(COLUMNS)..i + 1].to_vec();
        expected.resize(COLUMNS, 0);
        assert_eq!(f, &expected);
    }
}

#[test]
fn key_ends_a_moving_text() {
    let mut s = screen(0);
    s.bind_interrupt_rx(told(1));
    let mut scroll = moving(s.write_data(b"ABABABABAB", 0, &dict(), told(1)));
    let (frames, naps) = run(&mut s, &mut scroll, |step| if step < 10 { 1 } else { 2 });
    assert_eq!((frames.len(), naps), (2, 8));
    assert_eq!(s.interrupt_last_seen, 2);
    assert!(matches!(scroll.advance(&mut s, told(3)), ScrollStep::Done));
}

#[test]
fn command_before_the_text_does_not_end_it() {
    let mut s = screen(0);
    s.bind_interrupt_rx(told(1));
    let mut scroll = moving(s.write_data(b"ABABABABAB", 0, &dict(), told(7)));
    assert_eq!(run(&mut s, &mut scroll, |_| 7).0.len(), 39);
}

#[test]
fn commands_are_seen_once() {
    let mut s = screen(0);
    assert_eq!(s.poll_interrupt(told(5)), None);
    s.bind_interrupt_rx(told(1));
    assert_eq!(s.poll_interrupt(told(1)), None);
    assert_eq!(s.poll_interrupt(told(2)), Some(2));
    assert_eq!(s.poll_interrupt(told(2)), None);
    assert_eq!(s.poll_interrupt(told(0)), None);
    assert_eq!(s.poll_interrupt(told(2)), Some(2));
    assert_eq!(s.poll_interrupt(told(-1)), Some(-1));
    assert_eq!(s.poll_interrupt(told(-1)), None);
    assert_eq!(s.poll_interrupt(told(-1).next(-1)), Some(-1));
}

#[test]
fn dictionary_keeps_the_last_glyph() {
    let mut d = CharDict::new();
    assert_eq!(d.get('A'), None);
    d.insert('A', vec![1]);
    d.insert('B', vec![2]);
    d.insert('A', vec![3]);
    assert_eq!(d.get('A'), Some(&vec![3]));
    assert_eq!(d.get('B'), Some(&vec![2]));
    assert_eq!(d.get('C'), None);
    assert_eq!(SimDict.get(&'A'), None);
}

#[test]
fn text_is_drawn_part_by_part() {
    let mut s = screen(0);
    let whole = moving(s.write_data(b"ABABABABABAB", 0, &dict(), told(0))).data;
    let part = moving(s.write_data(b"ABABABAB", 0, &dict(), told(0))).data;
    assert_eq!(whole[..part.len()], part[..]);
    assert_eq!(whole[part.len()..], [0, 1, 2, 3, 0, 4, 5, 6, 0, 1, 2, 3, 0, 4, 5, 6]);
}
