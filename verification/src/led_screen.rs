//! The LED screen: two TM1628A driver chips, 27 columns of five lamps and four
//! status lamps, on a bus of four lines.
//!
//! The library says which levels go onto which line, in order. Whoever holds the
//! lines writes them in that order and stops at the first line that fails.
use vstd::prelude::*;
use vstd::slice::slice_subrange;
use vstd::utf8::{decode_utf8, valid_utf8};
use crate::char_dict::CharDict;
use crate::control::{unseen, Signal};
use crate::gpio::GpioBackend;
use crate::text::{ascii_upper_char, chars_of, upper_ascii_char};

verus! {

pub const LOW: u8 = 0x00;

pub const HIGH: u8 = 0x01;

/// The offsets of the four lines on the main chip.
pub const PIN_STB_LEFT: u32 = 69;

pub const PIN_STB_RIGHT: u32 = 70;

pub const PIN_CLK: u32 = 73;

pub const PIN_DIO: u32 = 74;

/// Display mode.
pub const COMMAND1: u8 = 0x03;

/// Data mode.
pub const COMMAND2: u8 = 0x40;

/// Display address.
pub const COMMAND3: u8 = 0xc0;

/// How many columns the screen has.
pub const COLUMNS: usize = 27;

/// How many of them the left chip drives.
pub const LEFT_COLUMNS: usize = 14;

/// A line of the bus. Both chips share the clock and the data line.
#[derive(Clone, Copy, Debug, PartialEq, Eq, Structural)]
pub enum Line {
    StbLeft,
    StbRight,
    Clk,
    Dio,
}

/// One level on one line.
#[derive(Clone, Copy, Debug, PartialEq, Eq, Structural)]
pub struct PinWrite {
    pub line: Line,
    pub level: u8,
}

/// The two ways to reach the lines.
#[derive(Clone, Copy, Debug, PartialEq, Eq, Structural)]
pub enum BusKind {
    Cdev,
    Sysfs,
}

pub open spec fn line_offset_spec(line: Line) -> u32 {
    match line {
        Line::StbLeft => PIN_STB_LEFT,
        Line::StbRight => PIN_STB_RIGHT,
        Line::Clk => PIN_CLK,
        Line::Dio => PIN_DIO,
    }
}

/// The offset of a line on the main chip.
pub fn line_offset(line: Line) -> (r: u32)
    ensures
        r == line_offset_spec(line),
{
    match line {
        Line::StbLeft => PIN_STB_LEFT,
        Line::StbRight => PIN_STB_RIGHT,
        Line::Clk => PIN_CLK,
        Line::Dio => PIN_DIO,
    }
}

/// A level on a line.
pub open spec fn put(line: Line, level: u8) -> PinWrite {
    PinWrite { line, level }
}

/// One bit, shifted into the chip that is selected.
pub open spec fn clocked(bit: u8) -> Seq<PinWrite> {
    seq![put(Line::Clk, LOW), put(Line::Dio, bit), put(Line::Clk, HIGH)]
}

/// A row of bits, shifted in one by one.
pub open spec fn wave(bits: Seq<u8>) -> Seq<PinWrite>
    decreases bits.len(),
{
    if bits.len() == 0 {
        seq![]
    } else {
        wave(bits.drop_last()) + clocked(bits.last())
    }
}

/// Bit `i` of a byte.
pub open spec fn bit_of(value: u8, i: int) -> u8 {
    (value >> (i as u8)) & 1u8
}

/// The lowest `n` bits of a byte, the least first.
pub open spec fn low_bits(value: u8, n: nat) -> Seq<u8> {
    Seq::new(n, |i: int| bit_of(value, i))
}

/// The bits of one column: five lamps and, behind every second column, six bits without a lamp.
pub open spec fn column_bits(value: u8, fill: bool) -> Seq<u8> {
    if fill {
        low_bits(value, 5) + seq![LOW, LOW, LOW, LOW, LOW, LOW]
    } else {
        low_bits(value, 5)
    }
}

/// The bits of a row of columns.
pub open spec fn data_bits(values: Seq<u8>) -> Seq<u8>
    decreases values.len(),
{
    if values.len() == 0 {
        seq![]
    } else {
        data_bits(values.drop_last()) + column_bits(values.last(), (values.len() - 1) % 2 != 0)
    }
}

/// The bits of a command and the columns that follow it.
pub open spec fn frame_bits(command: u8, values: Seq<u8>) -> Seq<u8> {
    low_bits(command, 8) + data_bits(values)
}

/// One transfer: select the chip, shift the bits in, release the chip.
pub open spec fn unit_wave(stb: Line, command: u8, values: Seq<u8>) -> Seq<PinWrite> {
    seq![put(stb, LOW)] + wave(frame_bits(command, values)) + seq![put(stb, HIGH)]
}

/// The same command to both chips.
pub open spec fn both_wave(command: u8) -> Seq<PinWrite> {
    unit_wave(Line::StbLeft, command, seq![]) + unit_wave(Line::StbRight, command, seq![])
}

/// What switches the lamps on at a brightness, or off.
pub open spec fn power_command(run: bool, light_level: u8) -> u8 {
    if run {
        0x88u8 | (light_level & 7u8)
    } else {
        0x80
    }
}

/// All columns and the status lamps, without those that are disabled.
pub open spec fn panel_wave(values: Seq<u8>, status: u8, mask: u8) -> Seq<PinWrite> {
    unit_wave(Line::StbLeft, COMMAND3, values.take(LEFT_COLUMNS as int)) + unit_wave(
        Line::StbRight,
        COMMAND3,
        values.subrange(LEFT_COLUMNS as int, COLUMNS as int).push(status & !mask),
    )
}

/// The columns of a text, with an empty column behind each glyph. A character
/// without a glyph is left out.
pub open spec fn glyph_columns(s: Seq<char>, dict: Map<char, Seq<u8>>) -> Seq<u8>
    decreases s.len(),
{
    if s.len() == 0 {
        seq![]
    } else {
        let rest = glyph_columns(s.drop_last(), dict);
        let c = ascii_upper_char(s.last());
        if dict.contains_key(c) {
            rest + dict[c].push(0)
        } else {
            rest
        }
    }
}

/// The columns of a text, with an empty column between two glyphs.
pub open spec fn display_columns(s: Seq<char>, dict: Map<char, Seq<u8>>) -> Seq<u8> {
    let columns = glyph_columns(s, dict);
    if columns.len() > 0 {
        columns.drop_last()
    } else {
        columns
    }
}

/// The text that bytes hold, or none where they are no UTF-8.
pub open spec fn text_of_bytes(bytes: Seq<u8>) -> Seq<char> {
    if valid_utf8(bytes) {
        decode_utf8(bytes)
    } else {
        seq![]
    }
}

/// Columns in the middle of the screen.
pub open spec fn centred(data: Seq<u8>) -> Seq<u8> {
    let offset = (COLUMNS - data.len()) / 2;
    Seq::new(
        COLUMNS as nat,
        |k: int|
            if offset <= k < offset + data.len() {
                data[k - offset]
            } else {
                0
            },
    )
}

/// The screen after `i` steps of scrolling: the last 27 of the first `i` columns.
pub open spec fn scroll_frame(data: Seq<u8>, i: int) -> Seq<u8> {
    let start = if i > COLUMNS {
        i - COLUMNS
    } else {
        0
    };
    Seq::new(
        COLUMNS as nat,
        |k: int|
            if start + k < i {
                data[start + k]
            } else {
                0
            },
    )
}

/// `std::str::from_utf8`: gives the text where the bytes are UTF-8, and an error where they are
/// not.
#[verifier::external_body]
fn decode(bytes: &[u8]) -> (r: Option<String>)
    ensures
        match r {
            Some(s) => valid_utf8(bytes@) && s@ == decode_utf8(bytes@),
            None => !valid_utf8(bytes@),
        },
{
    std::str::from_utf8(bytes).ok().map(|s| s.to_string())
}

proof fn lemma_wave_joins(a: Seq<u8>, b: Seq<u8>)
    ensures
        wave(a + b) == wave(a) + wave(b),
    decreases b.len(),
{
    if b.len() == 0 {
        assert(a + b == a);
        assert(wave(a) + wave(b) == wave(a));
    } else {
        assert((a + b).drop_last() == a + b.drop_last());
        lemma_wave_joins(a, b.drop_last());
        assert(wave(a + b.drop_last()) + clocked(b.last()) == wave(a) + (wave(b.drop_last())
            + clocked(b.last())));
    }
}

/// Adds one bit to a transfer.
fn write_bit(out: &mut Vec<PinWrite>, bit: u8)
    ensures
        final(out)@ == old(out)@ + clocked(bit),
{
    out.push(PinWrite { line: Line::Clk, level: LOW });
    out.push(PinWrite { line: Line::Dio, level: bit });
    out.push(PinWrite { line: Line::Clk, level: HIGH });
}

/// Adds the lowest `n` bits of a byte to a transfer.
fn write_bits(out: &mut Vec<PinWrite>, value: u8, n: u8)
    requires
        n <= 8,
    ensures
        final(out)@ == old(out)@ + wave(low_bits(value, n as nat)),
{
    let ghost start = out@;
    let mut i: u8 = 0;
    proof {
        assert(low_bits(value, 0) == Seq::<u8>::empty());
        assert(start + wave(low_bits(value, 0)) == start);
    }
    while i < n
        invariant
            i <= n <= 8,
            out@ == start + wave(low_bits(value, i as nat)),
        decreases n - i,
    {
        write_bit(out, (value >> i) & 0x01);
        proof {
            let longer = low_bits(value, (i + 1) as nat);
            assert(longer.drop_last() == low_bits(value, i as nat));
            assert(longer.last() == bit_of(value, i as int));
            assert(start + (wave(low_bits(value, i as nat)) + clocked(longer.last())) == out@);
        }
        i += 1;
    }
}

/// Adds a command to a transfer.
fn write_command_byte(out: &mut Vec<PinWrite>, value: u8)
    ensures
        final(out)@ == old(out)@ + wave(low_bits(value, 8)),
{
    write_bits(out, value, 8);
}

/// Adds a column to a transfer.
fn write_data_byte(out: &mut Vec<PinWrite>, value: u8, fill_data: bool)
    ensures
        final(out)@ == old(out)@ + wave(column_bits(value, fill_data)),
{
    let ghost start = out@;
    write_bits(out, value, 5);
    if fill_data {
        let ghost zeros = Seq::new(6, |i: int| LOW);
        let mut i: usize = 0;
        proof {
            assert(zeros.take(0) == Seq::<u8>::empty());
            assert(out@ == start + wave(low_bits(value, 5)) + wave(zeros.take(0)));
        }
        while i < 6
            invariant
                i <= 6,
                zeros == Seq::new(6, |i: int| LOW),
                out@ == start + wave(low_bits(value, 5)) + wave(zeros.take(i as int)),
            decreases 6 - i,
        {
            write_bit(out, LOW);
            proof {
                let longer = zeros.take(i + 1);
                assert(longer.drop_last() == zeros.take(i as int));
                assert(longer.last() == LOW);
                assert(out@ == start + wave(low_bits(value, 5)) + (wave(zeros.take(i as int))
                    + clocked(LOW)));
            }
            i += 1;
        }
        proof {
            let six = seq![LOW, LOW, LOW, LOW, LOW, LOW];
            assert(zeros.take(6) == six);
            lemma_wave_joins(low_bits(value, 5), six);
            assert(start + wave(low_bits(value, 5)) + wave(six) == start + (wave(low_bits(value, 5))
                + wave(six)));
        }
    }
}

/// One transfer to the chip that `stb` selects.
pub fn unit_write(stb: Line, command: u8, values: &[u8]) -> (r: Vec<PinWrite>)
    ensures
        r@ == unit_wave(stb, command, values@),
{
    let mut out: Vec<PinWrite> = Vec::new();
    out.push(PinWrite { line: stb, level: LOW });
    write_command_byte(&mut out, command);
    let mut i: usize = 0;
    let ghost head = seq![put(stb, LOW)];
    proof {
        assert(values@.take(0) == Seq::<u8>::empty());
        assert(frame_bits(command, values@.take(0)) == low_bits(command, 8));
        assert(out@ == head + wave(frame_bits(command, values@.take(0))));
    }
    while i < values.len()
        invariant
            i <= values.len(),
            head == seq![put(stb, LOW)],
            out@ == head + wave(frame_bits(command, values@.take(i as int))),
        decreases values.len() - i,
    {
        write_data_byte(&mut out, values[i], i % 2 != 0);
        proof {
            let shorter = values@.take(i as int);
            let longer = values@.take(i + 1);
            let column = column_bits(values@[i as int], i % 2 != 0);
            assert(longer.drop_last() == shorter);
            assert(longer.last() == values@[i as int]);
            assert(frame_bits(command, longer) == frame_bits(command, shorter) + column);
            lemma_wave_joins(frame_bits(command, shorter), column);
            assert(out@ == head + (wave(frame_bits(command, shorter)) + wave(column)));
        }
        i += 1;
    }
    proof {
        assert(values@.take(i as int) == values@);
    }
    out.push(PinWrite { line: stb, level: HIGH });
    out
}

/// The same command to both chips.
fn both_write(command: u8) -> (r: Vec<PinWrite>)
    ensures
        r@ == both_wave(command),
{
    let none: Vec<u8> = Vec::new();
    let mut out = unit_write(Line::StbLeft, command, none.as_slice());
    let mut right = unit_write(Line::StbRight, command, none.as_slice());
    out.append(&mut right);
    out
}

/// The screen: how its lines are reached, which status lamps stay dark, and which
/// signal it saw last.
#[derive(Clone, Copy, Debug, PartialEq, Eq, Structural)]
pub struct LedScreen {
    pub backend: GpioBackend,
    pub gpio_base: u64,
    /// Bit 0: clock. Bit 1: medal. Bit 2: up arrow. Bit 3: down arrow.
    pub disabled_led_mask: u8,
    pub interrupt_bound: bool,
    pub interrupt_last_seen: u64,
}

/// What is on its way to the screen: one picture, or a text that scrolls by.
pub enum Rendering {
    Still(Vec<PinWrite>),
    Moving(Scroll),
}

/// What a scrolling text did last.
#[derive(Clone, Copy, Debug, PartialEq, Eq, Structural)]
pub enum ScrollPhase {
    /// Nothing: the next picture is due.
    Due,
    /// It wrote a picture.
    Drawn,
    /// It slept.
    Napped,
}

/// What a scrolling text wants done next.
pub enum ScrollStep {
    /// Write these levels.
    Write(Vec<PinWrite>),
    /// Sleep for `NAP_MILLIS`.
    Nap,
    /// Nothing any more.
    Done,
}

/// How long a scrolling text sleeps before it looks for a key again.
pub const NAP_MILLIS: u64 = 20;

/// How long a picture of a scrolling text stands at least.
pub const FRAME_MILLIS: u64 = 128;

/// A text that is wider than the screen, on its way from right to left.
pub struct Scroll {
    pub data: Vec<u8>,
    pub status: u8,
    /// How many columns have come in so far.
    pub shown: usize,
    /// For how long the current picture has stood.
    pub slept: u64,
    pub phase: ScrollPhase,
}

impl LedScreen {
    /// The command that the screen has not seen yet, where `current` is the latest signal.
    pub open spec fn pressed(self, current: Signal) -> Option<i32> {
        match unseen(current, self.interrupt_last_seen) {
            Some(cmd) if self.interrupt_bound && cmd != 0 => Some(cmd),
            _ => None,
        }
    }

    /// The screen once it has seen `current`.
    pub open spec fn having_seen(self, current: Signal) -> LedScreen {
        if self.interrupt_bound {
            LedScreen { interrupt_last_seen: current.number, ..self }
        } else {
            self
        }
    }

    /// A screen, with the levels that set it up: display mode and data mode, on both chips.
    pub fn new(backend: GpioBackend, gpio_base: u64, disabled_led_mask: u8) -> (r: (
        LedScreen,
        Vec<PinWrite>,
    ))
        ensures
            r.0 == (LedScreen {
                backend,
                gpio_base,
                disabled_led_mask,
                interrupt_bound: false,
                interrupt_last_seen: 0,
            }),
            r.1@ == both_wave(COMMAND1) + both_wave(COMMAND2),
    {
        let screen = LedScreen {
            backend,
            gpio_base,
            disabled_led_mask,
            interrupt_bound: false,
            interrupt_last_seen: 0,
        };
        let mut writes = screen.set_show_model();
        let mut more = screen.set_data_model();
        writes.append(&mut more);
        (screen, writes)
    }

    /// A screen whose lines are found out, whatever pins were asked for.
    pub fn new_with_mask(
        _stb_left: u64,
        _stb_right: u64,
        _clk: u64,
        _dio: u64,
        detected_base: u64,
        disabled_led_mask: u8,
    ) -> (r: (LedScreen, Vec<PinWrite>))
        ensures
            r.0 == (LedScreen {
                backend: GpioBackend::Auto,
                gpio_base: detected_base,
                disabled_led_mask,
                interrupt_bound: false,
                interrupt_last_seen: 0,
            }),
            r.1@ == both_wave(COMMAND1) + both_wave(COMMAND2),
    {
        Self::new(GpioBackend::Auto, detected_base, disabled_led_mask)
    }

    /// The buses to try, one behind the other.
    pub open spec fn buses(self) -> Seq<BusKind> {
        match self.backend {
            GpioBackend::Auto => seq![BusKind::Cdev, BusKind::Sysfs],
            GpioBackend::Cdev => seq![BusKind::Cdev],
            GpioBackend::Sysfs => seq![BusKind::Sysfs],
        }
    }

    /// The bus to try first.
    pub fn first_bus(&self) -> (r: BusKind)
        ensures
            r == self.buses()[0],
            r == (if self.backend == GpioBackend::Sysfs {
                BusKind::Sysfs
            } else {
                BusKind::Cdev
            }),
    {
        match self.backend {
            GpioBackend::Sysfs => BusKind::Sysfs,
            _ => BusKind::Cdev,
        }
    }

    /// The bus to try once the first has failed: none, unless the choice was left open.
    pub fn fallback_bus(&self) -> (r: Option<BusKind>)
        ensures
            match r {
                Some(b) => self.buses().len() == 2 && b == self.buses()[1],
                None => self.buses().len() == 1,
            },
            r == (if self.backend == GpioBackend::Auto {
                Some(BusKind::Sysfs)
            } else {
                None
            }),
    {
        match self.backend {
            GpioBackend::Auto => Some(BusKind::Sysfs),
            _ => None,
        }
    }

    /// The system-wide number of a line, from the base of the main chip.
    pub fn pin_number(&self, line: Line) -> (r: u64)
        requires
            self.gpio_base + line_offset_spec(line) <= u64::MAX,
        ensures
            r == self.gpio_base + line_offset_spec(line),
    {
        self.gpio_base + line_offset(line) as u64
    }

    /// Binds the screen to the key commands, of which `current` is the latest: only what comes
    /// behind it counts.
    pub fn bind_interrupt_rx(&mut self, current: Signal)
        ensures
            *final(self) == (LedScreen {
                interrupt_bound: true,
                interrupt_last_seen: current.number,
                ..*old(self)
            }),
    {
        self.interrupt_last_seen = current.number;
        self.interrupt_bound = true;
    }

    /// The key command that waits to be served, where `current` is the latest.
    pub fn poll_interrupt(&mut self, current: Signal) -> (r: Option<i32>)
        ensures
            r == old(self).pressed(current),
            *final(self) == old(self).having_seen(current),
    {
        if !self.interrupt_bound {
            return None;
        }
        if current.number != self.interrupt_last_seen {
            self.interrupt_last_seen = current.number;
            if current.command == 0 {
                return None;
            }
            return Some(current.command);
        }
        None
    }

    /// Puts both chips into their display mode.
    pub fn set_show_model(&self) -> (r: Vec<PinWrite>)
        ensures
            r@ == both_wave(COMMAND1),
    {
        both_write(COMMAND1)
    }

    /// Puts both chips into their data mode.
    pub fn set_data_model(&self) -> (r: Vec<PinWrite>)
        ensures
            r@ == both_wave(COMMAND2),
    {
        both_write(COMMAND2)
    }

    /// Switches the lamps on, at one of eight levels of brightness, or off.
    pub fn power(&self, run: bool, light_level: u8) -> (r: Vec<PinWrite>)
        ensures
            r@ == both_wave(power_command(run, light_level)),
    {
        let command: u8 = if run {
            (light_level << 5 >> 5 | 0b11111000) & 0b10001111
        } else {
            0b10000000
        };
        assert((light_level << 5u8 >> 5u8 | 0b11111000u8) & 0b10001111u8 == 0x88u8 | (light_level
            & 7u8)) by (bit_vector);
        both_write(command)
    }

    /// `r` shows a text on this screen.
    pub open spec fn renders(
        self,
        text: Seq<u8>,
        status: u8,
        dict: Map<char, Seq<u8>>,
        r: Rendering,
    ) -> bool {
        let columns = display_columns(text_of_bytes(text), dict);
        if columns.len() > COLUMNS {
            r matches Rendering::Moving(scroll) && scroll.data@ == columns && scroll.status == status
                && scroll.shown == 0 && scroll.slept == 0 && scroll.phase == ScrollPhase::Due
        } else {
            r matches Rendering::Still(writes) && writes@ == panel_wave(
                centred(columns),
                status,
                self.disabled_led_mask,
            )
        }
    }

    /// Shows a text: in the middle of the screen where it fits, else scrolling by, from which on
    /// only a key command behind `current` counts.
    pub fn write_data(&mut self, text: &[u8], status: u8, dict: &CharDict, current: Signal) -> (r:
        Rendering)
        ensures
            old(self).renders(text@, status, dict@, r),
            ({
                let columns = display_columns(text_of_bytes(text@), dict@);
                if columns.len() > COLUMNS {
                    &&& *final(self) == old(self).having_seen(current)
                    &&& r matches Rendering::Moving(scroll)
                    &&& scroll.data@ == columns
                    &&& scroll.status == status
                    &&& scroll.shown == 0
                    &&& scroll.slept == 0
                    &&& scroll.phase == ScrollPhase::Due
                    &&& scroll.wf()
                } else {
                    &&& *final(self) == *old(self)
                    &&& r matches Rendering::Still(writes)
                    &&& writes@ == panel_wave(centred(columns), status, old(self).disabled_led_mask)
                }
            }),
    {
        let content = match decode(text) {
            Some(s) => s,
            None => String::new(),
        };
        assert(content@ == text_of_bytes(text@));
        let cs = chars_of(content.as_str());
        let mut display_data: Vec<u8> = Vec::new();
        let mut i: usize = 0;
        proof {
            assert(cs@.take(0) == Seq::<char>::empty());
        }
        while i < cs.len()
            invariant
                i <= cs.len(),
                display_data@ == glyph_columns(cs@.take(i as int), dict@),
            decreases cs.len() - i,
        {
            proof {
                let longer = cs@.take(i + 1);
                assert(longer.drop_last() == cs@.take(i as int));
                assert(longer.last() == cs@[i as int]);
            }
            let key = upper_ascii_char(cs[i]);
            let ghost sofar = display_data@;
            if let Some(columns) = dict.get(key) {
                append_bytes(&mut display_data, columns.as_slice());
                display_data.push(0x00);
                proof {
                    assert(display_data@ == sofar + columns@.push(0));
                }
            }
            i += 1;
        }
        proof {
            assert(cs@.take(i as int) == cs@);
        }
        if !display_data.is_empty() {
            let _ = display_data.pop();
        }
        if display_data.len() > COLUMNS {
            if self.interrupt_bound {
                self.interrupt_last_seen = current.number;
            }
            Rendering::Moving(
                Scroll {
                    data: display_data,
                    status,
                    shown: 0,
                    slept: 0,
                    phase: ScrollPhase::Due,
                },
            )
        } else {
            Rendering::Still(self.static_display(display_data.as_slice(), status))
        }
    }

    /// Columns in the middle of the screen.
    fn static_display(&self, data: &[u8], status: u8) -> (r: Vec<PinWrite>)
        requires
            data.len() <= COLUMNS,
        ensures
            r@ == panel_wave(centred(data@), status, self.disabled_led_mask),
    {
        let offset = (COLUMNS - data.len()) / 2;
        let mut frame: Vec<u8> = Vec::new();
        let mut k: usize = 0;
        while k < COLUMNS
            invariant
                k <= COLUMNS,
                data.len() <= COLUMNS,
                offset == (COLUMNS - data.len()) / 2,
                frame@ == centred(data@).take(k as int),
            decreases COLUMNS - k,
        {
            frame.push(if offset <= k && k < offset + data.len() { data[k - offset] } else { 0 });
            k += 1;
        }
        assert(frame@ == centred(data@));
        self.do_write_data(frame.as_slice(), status)
    }

    /// All columns and the status lamps, without those that are disabled.
    fn do_write_data(&self, values: &[u8], status: u8) -> (r: Vec<PinWrite>)
        requires
            values.len() == COLUMNS,
        ensures
            r@ == panel_wave(values@, status, self.disabled_led_mask),
    {
        let left = slice_subrange(values, 0, LEFT_COLUMNS);
        assert(left@ == values@.take(LEFT_COLUMNS as int));
        let mut out = unit_write(Line::StbLeft, COMMAND3, left);
        let mut right_data: Vec<u8> = Vec::new();
        append_bytes(&mut right_data, slice_subrange(values, LEFT_COLUMNS, COLUMNS));
        right_data.push(status & !self.disabled_led_mask);
        assert(right_data@ == values@.subrange(LEFT_COLUMNS as int, COLUMNS as int).push(
            status & !self.disabled_led_mask,
        ));
        let mut right = unit_write(Line::StbRight, COMMAND3, right_data.as_slice());
        out.append(&mut right);
        out
    }
}

/// Adds bytes to a list.
fn append_bytes(out: &mut Vec<u8>, bytes: &[u8])
    ensures
        final(out)@ == old(out)@ + bytes@,
{
    let ghost start = out@;
    let mut i: usize = 0;
    while i < bytes.len()
        invariant
            i <= bytes.len(),
            out@ == start + bytes@.take(i as int),
        decreases bytes.len() - i,
    {
        out.push(bytes[i]);
        i += 1;
    }
    assert(bytes@.take(i as int) == bytes@);
}

impl Scroll {
    pub open spec fn wf(self) -> bool {
        &&& self.shown <= self.data@.len()
        &&& self.slept < FRAME_MILLIS
    }

    /// Whether nothing is left to do.
    pub open spec fn over(self) -> bool {
        self.phase == ScrollPhase::Due && self.shown == self.data@.len()
    }

    /// From `self` to `next` one more column has come in, and `step` writes the picture; or all
    /// have, and the text is done.
    pub open spec fn draws(self, mask: u8, next: Scroll, step: ScrollStep) -> bool {
        if self.shown == self.data@.len() {
            step is Done && next.over()
        } else {
            &&& next.shown == self.shown + 1
            &&& next.phase == ScrollPhase::Drawn
            &&& step matches ScrollStep::Write(writes)
            &&& writes@ == panel_wave(
                scroll_frame(self.data@, self.shown + 1),
                self.status,
                mask,
            )
        }
    }

    /// `step` leads from `self` to `next`, where `pressed` says whether a key command waits.
    pub open spec fn steps(self, mask: u8, pressed: bool, next: Scroll, step: ScrollStep) -> bool {
        if self.phase == ScrollPhase::Due {
            self.draws(mask, next, step)
        } else if pressed {
            step is Done && next.over()
        } else if self.phase == ScrollPhase::Drawn {
            &&& step is Nap
            &&& next.phase == ScrollPhase::Napped
            &&& next.shown == self.shown
            &&& next.slept == 0
        } else if self.slept + NAP_MILLIS < FRAME_MILLIS {
            &&& step is Nap
            &&& next.phase == ScrollPhase::Napped
            &&& next.shown == self.shown
            &&& next.slept == self.slept + NAP_MILLIS
        } else {
            self.draws(mask, next, step)
        }
    }

    /// Writes the next picture, or ends.
    fn draw(&mut self, screen: &LedScreen) -> (step: ScrollStep)
        requires
            old(self).wf(),
        ensures
            final(self).wf(),
            final(self).data@ == old(self).data@,
            final(self).status == old(self).status,
            old(self).draws(screen.disabled_led_mask, *final(self), step),
    {
        if self.shown == self.data.len() {
            self.phase = ScrollPhase::Due;
            return ScrollStep::Done;
        }
        self.shown = self.shown + 1;
        self.phase = ScrollPhase::Drawn;
        let start = if self.shown > COLUMNS {
            self.shown - COLUMNS
        } else {
            0
        };
        let mut frame: Vec<u8> = Vec::new();
        let mut k: usize = 0;
        while k < COLUMNS
            invariant
                k <= COLUMNS,
                self.shown <= self.data.len(),
                start == (if self.shown > COLUMNS {
                    self.shown - COLUMNS
                } else {
                    0
                }),
                frame@ == scroll_frame(self.data@, self.shown as int).take(k as int),
            decreases COLUMNS - k,
        {
            frame.push(
                if k < self.shown - start {
                    self.data[start + k]
                } else {
                    0
                },
            );
            k += 1;
        }
        assert(frame@ == scroll_frame(self.data@, self.shown as int));
        ScrollStep::Write(screen.do_write_data(frame.as_slice(), self.status))
    }

    /// The next step of a scrolling text, where `current` is the latest signal. Behind each
    /// picture and each nap a key ends it.
    pub fn advance(&mut self, screen: &mut LedScreen, current: Signal) -> (step: ScrollStep)
        requires
            old(self).wf(),
        ensures
            final(self).wf(),
            final(self).data@ == old(self).data@,
            final(self).status == old(self).status,
            *final(screen) == (if old(self).phase == ScrollPhase::Due {
                *old(screen)
            } else {
                old(screen).having_seen(current)
            }),
            old(self).steps(
                old(screen).disabled_led_mask,
                old(screen).pressed(current) is Some,
                *final(self),
                step,
            ),
    {
        match self.phase {
            ScrollPhase::Due => self.draw(screen),
            ScrollPhase::Drawn => {
                if screen.poll_interrupt(current).is_some() {
                    self.shown = self.data.len();
                    self.phase = ScrollPhase::Due;
                    return ScrollStep::Done;
                }
                self.slept = 0;
                self.phase = ScrollPhase::Napped;
                ScrollStep::Nap
            },
            ScrollPhase::Napped => {
                if screen.poll_interrupt(current).is_some() {
                    self.shown = self.data.len();
                    self.phase = ScrollPhase::Due;
                    return ScrollStep::Done;
                }
                if self.slept + NAP_MILLIS < FRAME_MILLIS {
                    self.slept = self.slept + NAP_MILLIS;
                    return ScrollStep::Nap;
                }
                self.draw(screen)
            },
        }
    }
}

} // verus!
