//! What holds of everything that goes to the screen.
use vstd::prelude::*;
use crate::led_screen::{
    bit_of, both_wave, centred, clocked, column_bits, data_bits, display_columns, frame_bits,
    glyph_columns, low_bits, panel_wave, power_command, put, scroll_frame, text_of_bytes, unit_wave,
    wave, LedScreen, Line, PinWrite, Rendering, Scroll, ScrollPhase, ScrollStep, COLUMNS, COMMAND1,
    COMMAND2, HIGH, LOW, NAP_MILLIS,
};
use crate::text::ascii_upper_char;

verus! {

/// The level that was last written onto a line.
pub open spec fn level(writes: Seq<PinWrite>, line: Line) -> Option<u8>
    decreases writes.len(),
{
    if writes.len() == 0 {
        None
    } else if writes.last().line == line {
        Some(writes.last().level)
    } else {
        level(writes.drop_last(), line)
    }
}

/// What a chip reads: the level of the data line, each time the clock rises.
pub open spec fn sampled(writes: Seq<PinWrite>) -> Seq<u8>
    decreases writes.len(),
{
    if writes.len() == 0 {
        seq![]
    } else {
        let earlier = writes.drop_last();
        if writes.last() == put(Line::Clk, HIGH) && level(earlier, Line::Clk) == Some(LOW) {
            sampled(earlier).push(level(earlier, Line::Dio).unwrap())
        } else {
            sampled(earlier)
        }
    }
}

/// The number that a row of bits stands for, the least first.
pub open spec fn value_of(bits: Seq<u8>) -> nat
    decreases bits.len(),
{
    if bits.len() == 0 {
        0
    } else {
        bits[0] as nat + 2 * value_of(bits.skip(1))
    }
}

/// Where the bits of column `i` begin, among those of all columns.
pub open spec fn column_start(i: int) -> int {
    16 * (i / 2) + 5 * (i % 2)
}

proof fn lemma_sampled_bit(p: Seq<PinWrite>, bit: u8)
    ensures
        sampled(p + clocked(bit)) == sampled(p).push(bit),
{
    let a = p.push(put(Line::Clk, LOW));
    let b = a.push(put(Line::Dio, bit));
    let c = b.push(put(Line::Clk, HIGH));
    assert(p + clocked(bit) == c);
    assert(c.drop_last() == b);
    assert(b.drop_last() == a);
    assert(a.drop_last() == p);
    assert(level(b, Line::Dio) == Some(bit));
    assert(level(b, Line::Clk) == level(a, Line::Clk));
    assert(level(a, Line::Clk) == Some(LOW));
    assert(sampled(b) == sampled(a));
    assert(sampled(a) == sampled(p));
}

proof fn lemma_sampled_wave(p: Seq<PinWrite>, bits: Seq<u8>)
    ensures
        sampled(p + wave(bits)) == sampled(p) + bits,
    decreases bits.len(),
{
    if bits.len() == 0 {
        assert(p + wave(bits) == p);
        assert(sampled(p) + bits == sampled(p));
    } else {
        let shorter = bits.drop_last();
        lemma_sampled_wave(p, shorter);
        lemma_sampled_bit(p + wave(shorter), bits.last());
        assert(p + wave(bits) == p + wave(shorter) + clocked(bits.last()));
        assert((sampled(p) + shorter).push(bits.last()) == sampled(p) + bits);
    }
}

/// A chip reads exactly the bits of the command and of the columns that a transfer carries.
pub proof fn chip_reads_what_was_written(stb: Line, command: u8, values: Seq<u8>)
    requires
        stb == Line::StbLeft || stb == Line::StbRight,
    ensures
        sampled(unit_wave(stb, command, values)) == frame_bits(command, values),
{
    let head = seq![put(stb, LOW)];
    let bits = frame_bits(command, values);
    assert(head.drop_last() == Seq::<PinWrite>::empty());
    assert(sampled(Seq::<PinWrite>::empty()) == Seq::<u8>::empty());
    assert(sampled(head) == Seq::<u8>::empty());
    lemma_sampled_wave(head, bits);
    assert(unit_wave(stb, command, values).drop_last() == head + wave(bits));
    assert(sampled(head) + bits == bits);
}

proof fn lemma_wave_lines(bits: Seq<u8>, k: int)
    requires
        0 <= k < wave(bits).len(),
    ensures
        wave(bits)[k].line == Line::Clk || wave(bits)[k].line == Line::Dio,
    decreases bits.len(),
{
    if bits.len() > 0 && k < wave(bits.drop_last()).len() {
        lemma_wave_lines(bits.drop_last(), k);
    }
}

/// A transfer begins by selecting its chip and ends by releasing it. In between it moves the
/// clock and the data line alone, so the other chip never takes part.
pub proof fn transfer_keeps_to_its_chip(stb: Line, command: u8, values: Seq<u8>)
    ensures
        unit_wave(stb, command, values).first() == put(stb, LOW),
        unit_wave(stb, command, values).last() == put(stb, HIGH),
        forall|k: int|
            0 < k < unit_wave(stb, command, values).len() - 1 ==> {
                let line = #[trigger] unit_wave(stb, command, values)[k].line;
                line == Line::Clk || line == Line::Dio
            },
{
    let all = unit_wave(stb, command, values);
    let bits = frame_bits(command, values);
    assert forall|k: int| 0 < k < all.len() - 1 implies {
        let line = #[trigger] all[k].line;
        line == Line::Clk || line == Line::Dio
    } by {
        assert(all[k] == wave(bits)[k - 1]);
        lemma_wave_lines(bits, k - 1);
    }
}

/// Eight bits read back as the byte they came from, five as its low five bits.
pub proof fn bits_read_back(value: u8)
    ensures
        value_of(low_bits(value, 8)) == value,
        value_of(low_bits(value, 5)) == value % 32,
{
    let b = low_bits(value, 8);
    let c = low_bits(value, 5);
    reveal_with_fuel(value_of, 9);
    assert(value_of(c) == bit_of(value, 0) + 2 * (bit_of(value, 1) + 2 * (bit_of(value, 2) + 2 * (
    bit_of(value, 3) + 2 * (bit_of(value, 4) as int)))));
    assert(value_of(b) == bit_of(value, 0) + 2 * (bit_of(value, 1) + 2 * (bit_of(value, 2) + 2 * (
    bit_of(value, 3) + 2 * (bit_of(value, 4) + 2 * (bit_of(value, 5) + 2 * (bit_of(value, 6) + 2 * (
    bit_of(value, 7) as int))))))));
    assert(((value >> 0u8) & 1u8) + 2 * ((value >> 1u8) & 1u8) + 4 * ((value >> 2u8) & 1u8) + 8 * ((
    value >> 3u8) & 1u8) + 16 * ((value >> 4u8) & 1u8) == value % 32) by (bit_vector);
    assert(((value >> 0u8) & 1u8) + 2 * ((value >> 1u8) & 1u8) + 4 * ((value >> 2u8) & 1u8) + 8 * ((
    value >> 3u8) & 1u8) + 16 * ((value >> 4u8) & 1u8) + 32 * ((value >> 5u8) & 1u8) + 64 * ((value
        >> 6u8) & 1u8) + 128 * ((value >> 7u8) & 1u8) == value) by (bit_vector);
}

proof fn lemma_data_bits_len(values: Seq<u8>)
    ensures
        data_bits(values).len() == column_start(values.len() as int),
    decreases values.len(),
{
    if values.len() > 0 {
        lemma_data_bits_len(values.drop_last());
    }
}

proof fn lemma_column_at(values: Seq<u8>, i: int)
    requires
        0 <= i < values.len(),
    ensures
        column_start(i) + 5 <= data_bits(values).len(),
        data_bits(values).subrange(column_start(i), column_start(i) + 5) == low_bits(values[i], 5),
    decreases values.len(),
{
    let shorter = values.drop_last();
    lemma_data_bits_len(shorter);
    let column = column_bits(values.last(), (values.len() - 1) % 2 != 0);
    if i == values.len() - 1 {
        assert(data_bits(values).subrange(column_start(i), column_start(i) + 5) == low_bits(
            values[i],
            5,
        ));
    } else {
        lemma_column_at(shorter, i);
        assert(data_bits(values).subrange(column_start(i), column_start(i) + 5) == data_bits(
            shorter,
        ).subrange(column_start(i), column_start(i) + 5));
    }
}

/// Every lamp can be told from the bits of a transfer: the first eight are the command, and
/// column `i` has its five from `8 + column_start(i)` on.
pub proof fn transfer_carries_every_column(command: u8, values: Seq<u8>, i: int)
    requires
        0 <= i < values.len(),
    ensures
        value_of(frame_bits(command, values).take(8)) == command,
        value_of(
            frame_bits(command, values).subrange(8 + column_start(i), 13 + column_start(i)),
        ) == values[i] % 32,
{
    let bits = frame_bits(command, values);
    lemma_column_at(values, i);
    assert(bits.take(8) == low_bits(command, 8));
    assert(bits.subrange(8 + column_start(i), 13 + column_start(i)) == data_bits(values).subrange(
        column_start(i),
        column_start(i) + 5,
    ));
    bits_read_back(command);
    bits_read_back(values[i]);
}

/// A status lamp that is disabled stays dark, and each other follows the status.
pub proof fn disabled_lamps_stay_dark(status: u8, mask: u8, i: int)
    requires
        0 <= i < 8,
    ensures
        bit_of(status & !mask, i) == (if bit_of(mask, i) == 1 {
            0
        } else {
            bit_of(status, i)
        }),
{
    let k = i as u8;
    assert(k < 8 ==> ((status & !mask) >> k) & 1u8 == (if (mask >> k) & 1u8 == 1u8 {
        0u8
    } else {
        (status >> k) & 1u8
    })) by (bit_vector);
}

/// There are eight levels of brightness, and each switches the lamps on.
pub proof fn brightness_has_eight_levels(light_level: u8)
    ensures
        power_command(true, light_level) == 0x88 + light_level % 8,
        power_command(true, light_level) != power_command(false, light_level),
{
    assert(0x88u8 | (light_level & 7u8) == 0x88 + light_level % 8) by (bit_vector);
}

/// A text that fits stands on the screen whole, in order, with margins that differ by one column
/// at most, and nothing else is lit.
pub proof fn short_text_stands_in_the_middle(data: Seq<u8>)
    requires
        data.len() <= COLUMNS,
    ensures
        ({
            let left = (COLUMNS - data.len()) / 2;
            let right = COLUMNS - data.len() - left;
            &&& centred(data).len() == COLUMNS
            &&& left <= right <= left + 1
            &&& centred(data).subrange(left, left + data.len()) == data
            &&& forall|k: int|
                0 <= k < COLUMNS && !(left <= k < left + data.len()) ==> #[trigger] centred(data)[k]
                    == 0
        }),
{
    let left = (COLUMNS - data.len()) / 2;
    assert(centred(data).subrange(left, left + data.len()) == data);
}

/// A scrolling text comes in from the left edge, a column at a time, until the screen is full.
/// From then on each picture is the one before, moved on by one column, and the last one
/// shows the last 27 columns.
pub proof fn scrolling_moves_by_one_column(data: Seq<u8>, i: int)
    requires
        0 < i <= data.len(),
    ensures
        i <= COLUMNS ==> scroll_frame(data, i).take(i) == data.take(i),
        i >= COLUMNS ==> scroll_frame(data, i) == data.subrange(i - COLUMNS, i),
        COLUMNS < i ==> scroll_frame(data, i).drop_last() == scroll_frame(data, i - 1).skip(1),
        COLUMNS < i ==> scroll_frame(data, i).last() == data[i - 1],
{
    if i <= COLUMNS {
        assert(scroll_frame(data, i).take(i) == data.take(i));
    }
    if i >= COLUMNS {
        assert(scroll_frame(data, i) == data.subrange(i - COLUMNS, i));
    }
    if COLUMNS < i {
        assert(scroll_frame(data, i).drop_last() == scroll_frame(data, i - 1).skip(1));
    }
}

/// How many steps a scrolling text has left at most.
pub open spec fn steps_left(s: Scroll) -> int {
    let columns = s.data@.len() - s.shown;
    match s.phase {
        ScrollPhase::Due => 9 * columns,
        ScrollPhase::Drawn => 9 * columns + 8,
        ScrollPhase::Napped => 9 * columns + 7 - s.slept / NAP_MILLIS,
    }
}

/// A scrolling text comes to its end, whether a key is pressed or not.
pub proof fn scrolling_ends(s: Scroll, mask: u8, pressed: bool, next: Scroll, step: ScrollStep)
    requires
        s.wf(),
        next.wf(),
        next.data@ == s.data@,
        s.steps(mask, pressed, next, step),
    ensures
        steps_left(s) >= 0,
        steps_left(s) == 0 ==> step is Done,
        steps_left(s) > 0 ==> steps_left(next) < steps_left(s),
{
}

/// No empty column stands behind the last glyph of a text.
pub proof fn no_gap_behind_the_last_glyph(s: Seq<char>, dict: Map<char, Seq<u8>>)
    requires
        s.len() > 0,
        dict.contains_key(ascii_upper_char(s.last())),
    ensures
        display_columns(s, dict) == glyph_columns(s.drop_last(), dict) + dict[ascii_upper_char(
            s.last(),
        )],
{
    let g = dict[ascii_upper_char(s.last())];
    assert((glyph_columns(s.drop_last(), dict) + g.push(0)).drop_last() == glyph_columns(
        s.drop_last(),
        dict,
    ) + g);
}

/// A text is drawn glyph by glyph: a text in two parts has the columns of both, in order.
pub proof fn text_is_drawn_part_by_part(a: Seq<char>, b: Seq<char>, dict: Map<char, Seq<u8>>)
    ensures
        glyph_columns(a + b, dict) == glyph_columns(a, dict) + glyph_columns(b, dict),
    decreases b.len(),
{
    if b.len() == 0 {
        assert(a + b == a);
    } else {
        assert((a + b).drop_last() == a + b.drop_last());
        text_is_drawn_part_by_part(a, b.drop_last(), dict);
        assert((a + b).last() == b.last());
        assert(glyph_columns(a + b, dict) == glyph_columns(a, dict) + glyph_columns(b, dict));
    }
}

/// What one of the two chips takes in: the level of the data line, each time the clock rises while
/// the line that selects the chip is low.
pub open spec fn heard(writes: Seq<PinWrite>, stb: Line) -> Seq<u8>
    decreases writes.len(),
{
    if writes.len() == 0 {
        seq![]
    } else {
        let earlier = writes.drop_last();
        if writes.last().line == Line::Clk && writes.last().level == 1 && level(earlier, Line::Clk)
            == Some(0u8) && level(earlier, stb) == Some(0u8) {
            heard(earlier, stb).push(level(earlier, Line::Dio).unwrap())
        } else {
            heard(earlier, stb)
        }
    }
}

/// A line that selects a chip.
pub open spec fn selects(stb: Line) -> bool {
    stb == Line::StbLeft || stb == Line::StbRight
}

/// Neither chip is selected.
pub open spec fn released(writes: Seq<PinWrite>) -> bool {
    level(writes, Line::StbLeft) != Some(0u8) && level(writes, Line::StbRight) != Some(0u8)
}

proof fn lemma_level_of_a_push(p: Seq<PinWrite>, w: PinWrite, line: Line)
    ensures
        level(p.push(w), line) == (if w.line == line {
            Some(w.level)
        } else {
            level(p, line)
        }),
{
    assert(p.push(w).drop_last() == p);
}

proof fn lemma_heard_bit(p: Seq<PinWrite>, bit: u8, stb: Line)
    requires
        selects(stb),
    ensures
        heard(p + clocked(bit), stb) == (if level(p, stb) == Some(0u8) {
            heard(p, stb).push(bit)
        } else {
            heard(p, stb)
        }),
        level(p + clocked(bit), stb) == level(p, stb),
{
    let a = p.push(put(Line::Clk, LOW));
    let b = a.push(put(Line::Dio, bit));
    let c = b.push(put(Line::Clk, HIGH));
    assert(p + clocked(bit) == c);
    assert(c.drop_last() == b && b.drop_last() == a && a.drop_last() == p);
    lemma_level_of_a_push(p, put(Line::Clk, LOW), stb);
    lemma_level_of_a_push(a, put(Line::Dio, bit), stb);
    lemma_level_of_a_push(b, put(Line::Clk, HIGH), stb);
    lemma_level_of_a_push(p, put(Line::Clk, LOW), Line::Clk);
    lemma_level_of_a_push(a, put(Line::Dio, bit), Line::Clk);
    lemma_level_of_a_push(a, put(Line::Dio, bit), Line::Dio);
    assert(heard(a, stb) == heard(p, stb));
    assert(heard(b, stb) == heard(a, stb));
}

proof fn lemma_heard_wave(p: Seq<PinWrite>, bits: Seq<u8>, stb: Line)
    requires
        selects(stb),
    ensures
        heard(p + wave(bits), stb) == (if level(p, stb) == Some(0u8) {
            heard(p, stb) + bits
        } else {
            heard(p, stb)
        }),
        level(p + wave(bits), stb) == level(p, stb),
    decreases bits.len(),
{
    if bits.len() == 0 {
        assert(p + wave(bits) == p);
        assert(heard(p, stb) + bits == heard(p, stb));
    } else {
        let shorter = bits.drop_last();
        lemma_heard_wave(p, shorter, stb);
        lemma_heard_bit(p + wave(shorter), bits.last(), stb);
        assert(p + wave(bits) == p + wave(shorter) + clocked(bits.last()));
        assert((heard(p, stb) + shorter).push(bits.last()) == heard(p, stb) + bits);
    }
}

proof fn lemma_heard_transfer(p: Seq<PinWrite>, to: Line, command: u8, values: Seq<u8>, stb: Line)
    requires
        selects(to),
        selects(stb),
        released(p),
    ensures
        heard(p + unit_wave(to, command, values), stb) == (if to == stb {
            heard(p, stb) + frame_bits(command, values)
        } else {
            heard(p, stb)
        }),
        released(p + unit_wave(to, command, values)),
{
    let bits = frame_bits(command, values);
    let a = p.push(put(to, LOW));
    let b = a + wave(bits);
    let c = b.push(put(to, HIGH));
    assert(p + unit_wave(to, command, values) == c);
    assert(a.drop_last() == p && c.drop_last() == b);
    lemma_heard_wave(a, bits, Line::StbLeft);
    lemma_heard_wave(a, bits, Line::StbRight);
    lemma_level_of_a_push(p, put(to, LOW), Line::StbLeft);
    lemma_level_of_a_push(p, put(to, LOW), Line::StbRight);
    lemma_level_of_a_push(b, put(to, HIGH), Line::StbLeft);
    lemma_level_of_a_push(b, put(to, HIGH), Line::StbRight);
    assert(heard(a, stb) == heard(p, stb));
    assert(heard(c, stb) == heard(b, stb));
}

/// The number that a chip reads as its column `i`, in what it has taken in.
pub open spec fn column_value(bits: Seq<u8>, i: int) -> nat {
    value_of(bits.subrange(8 + column_start(i), 13 + column_start(i)))
}

/// The level of the lamp in row `row` of column `i`, in what a chip has taken in.
pub open spec fn lamp(bits: Seq<u8>, i: int, row: int) -> u8 {
    bits[8 + column_start(i) + row]
}

proof fn lemma_panel(p: Seq<PinWrite>, values: Seq<u8>, status: u8, mask: u8)
    requires
        released(p),
    ensures
        ({
            let all = p + panel_wave(values, status, mask);
            &&& heard(all, Line::StbLeft) == heard(p, Line::StbLeft) + frame_bits(
                0xc0,
                values.take(14),
            )
            &&& heard(all, Line::StbRight) == heard(p, Line::StbRight) + frame_bits(
                0xc0,
                values.subrange(14, 27).push(status & !mask),
            )
            &&& released(all)
        }),
{
    let left = unit_wave(Line::StbLeft, 0xc0, values.take(14));
    let right = unit_wave(
        Line::StbRight,
        0xc0,
        values.subrange(14, 27).push(status & !mask),
    );
    assert(p + panel_wave(values, status, mask) == p + left + right);
    lemma_heard_transfer(p, Line::StbLeft, 0xc0, values.take(14), Line::StbLeft);
    lemma_heard_transfer(p, Line::StbLeft, 0xc0, values.take(14), Line::StbRight);
    let r = values.subrange(14, 27).push(status & !mask);
    lemma_heard_transfer(p + left, Line::StbRight, 0xc0, r, Line::StbLeft);
    lemma_heard_transfer(p + left, Line::StbRight, 0xc0, r, Line::StbRight);
}

proof fn lemma_released_at_first()
    ensures
        released(Seq::<PinWrite>::empty()),
        heard(Seq::<PinWrite>::empty(), Line::StbLeft).len() == 0,
        heard(Seq::<PinWrite>::empty(), Line::StbRight).len() == 0,
{
}

proof fn lemma_lamp_of_a_column(command: u8, values: Seq<u8>, i: int, row: int)
    requires
        0 <= i < values.len(),
        0 <= row < 5,
    ensures
        8 + column_start(i) + row < frame_bits(command, values).len(),
        lamp(frame_bits(command, values), i, row) == bit_of(values[i], row),
{
    lemma_column_at(values, i);
    let column = data_bits(values).subrange(column_start(i), column_start(i) + 5);
    assert(column[row] == low_bits(values[i], 5)[row]);
    assert(frame_bits(command, values)[8 + column_start(i) + row] == data_bits(
        values,
    )[column_start(i) + row]);
    assert(column[row] == data_bits(values)[column_start(i) + row]);
}

/// What the chips take in of a picture is the picture. The left one has the first 14 columns, the
/// right one the other 13 and, as a last column, the status lamps that are not disabled; each
/// column is read as it is in the picture, lamp by lamp, behind the command that sets the address.
pub proof fn chips_take_in_the_picture(values: Seq<u8>, status: u8, mask: u8, i: int, row: int)
    requires
        values.len() == 27,
        0 <= i < 27,
        0 <= row < 5,
    ensures
        ({
            let left = heard(panel_wave(values, status, mask), Line::StbLeft);
            let right = heard(panel_wave(values, status, mask), Line::StbRight);
            &&& left.len() == 120 && right.len() == 120
            &&& value_of(left.take(8)) == 0xc0 && value_of(right.take(8)) == 0xc0
            &&& i < 14 ==> column_value(left, i) == values[i] % 32 && lamp(left, i, row) == (
            values[i] >> (row as u8)) & 1
            &&& i >= 14 ==> column_value(right, i - 14) == values[i] % 32 && lamp(
                right,
                i - 14,
                row,
            ) == (values[i] >> (row as u8)) & 1
            &&& column_value(right, 13) == (status & !mask) % 32
            &&& lamp(right, 13, row) == ((status & !mask) >> (row as u8)) & 1
            &&& released(panel_wave(values, status, mask))
        }),
{
    let none = Seq::<PinWrite>::empty();
    lemma_released_at_first();
    lemma_panel(none, values, status, mask);
    assert(none + panel_wave(values, status, mask) == panel_wave(values, status, mask));
    let a = values.take(14);
    let b = values.subrange(14, 27).push(status & !mask);
    let e = Seq::<u8>::empty();
    assert(e + frame_bits(0xc0, a) == frame_bits(0xc0, a));
    assert(e + frame_bits(0xc0, b) == frame_bits(0xc0, b));
    assert(heard(none, Line::StbLeft) == e && heard(none, Line::StbRight) == e);
    lemma_data_bits_len(a);
    lemma_data_bits_len(b);
    transfer_carries_every_column(0xc0, a, 0);
    transfer_carries_every_column(0xc0, b, 13);
    lemma_lamp_of_a_column(0xc0, b, 13, row);
    if i < 14 {
        transfer_carries_every_column(0xc0, a, i);
        lemma_lamp_of_a_column(0xc0, a, i, row);
    } else {
        transfer_carries_every_column(0xc0, b, i - 14);
        lemma_lamp_of_a_column(0xc0, b, i - 14, row);
        assert(b[i - 14] == values[i]);
    }
}

/// The six bits that follow every second column, and have no lamp, are low.
pub proof fn bits_without_a_lamp_are_low(values: Seq<u8>, status: u8, mask: u8, i: int, k: int)
    requires
        values.len() == 27,
        0 <= i < 7,
        0 <= k < 6,
    ensures
        heard(panel_wave(values, status, mask), Line::StbLeft)[8 + 16 * i + 10 + k] == 0,
        heard(panel_wave(values, status, mask), Line::StbRight)[8 + 16 * i + 10 + k] == 0,
{
    let none = Seq::<PinWrite>::empty();
    lemma_released_at_first();
    lemma_panel(none, values, status, mask);
    assert(none + panel_wave(values, status, mask) == panel_wave(values, status, mask));
    let a = values.take(14);
    let b = values.subrange(14, 27).push(status & !mask);
    let e = Seq::<u8>::empty();
    assert(e + frame_bits(0xc0, a) == frame_bits(0xc0, a));
    assert(e + frame_bits(0xc0, b) == frame_bits(0xc0, b));
    assert(heard(none, Line::StbLeft) == e && heard(none, Line::StbRight) == e);
    lemma_fill(a, i, k);
    lemma_fill(b, i, k);
}

proof fn lemma_fill(values: Seq<u8>, i: int, k: int)
    requires
        0 <= i,
        2 * i + 1 < values.len(),
        0 <= k < 6,
    ensures
        16 * i + 16 <= data_bits(values).len(),
        data_bits(values)[16 * i + 10 + k] == 0,
    decreases values.len(),
{
    let shorter = values.drop_last();
    lemma_data_bits_len(shorter);
    lemma_data_bits_len(values);
    let n = values.len() - 1;
    let column = column_bits(values.last(), n % 2 != 0);
    if 2 * i + 1 == n {
        assert(data_bits(values)[16 * i + 10 + k] == column[5 + k]);
    } else {
        lemma_fill(shorter, i, k);
        assert(data_bits(values)[16 * i + 10 + k] == data_bits(shorter)[16 * i + 10 + k]);
    }
}

/// A picture is taken in the same way whatever was written before it, as long as no chip was left
/// selected; and a picture leaves none selected.
pub proof fn pictures_follow_one_another(
    p: Seq<PinWrite>,
    values: Seq<u8>,
    status: u8,
    mask: u8,
    chip: Line,
)
    requires
        released(p),
        selects(chip),
    ensures
        heard(p + panel_wave(values, status, mask), chip) == heard(p, chip) + heard(
            panel_wave(values, status, mask),
            chip,
        ),
        released(p + panel_wave(values, status, mask)),
{
    let none = Seq::<PinWrite>::empty();
    lemma_released_at_first();
    lemma_panel(p, values, status, mask);
    lemma_panel(none, values, status, mask);
    assert(none + panel_wave(values, status, mask) == panel_wave(values, status, mask));
    assert(heard(none, chip) + heard(panel_wave(values, status, mask), chip) == heard(
        panel_wave(values, status, mask),
        chip,
    ));
    assert(heard(none, Line::StbLeft) == Seq::<u8>::empty());
    assert(heard(none, Line::StbRight) == Seq::<u8>::empty());
    let a = frame_bits(0xc0, values.take(14));
    let b = frame_bits(0xc0, values.subrange(14, 27).push(status & !mask));
    assert(Seq::<u8>::empty() + a == a);
    assert(Seq::<u8>::empty() + b == b);
}

proof fn lemma_both(p: Seq<PinWrite>, command: u8, chip: Line)
    requires
        released(p),
        selects(chip),
    ensures
        heard(p + both_wave(command), chip) == heard(p, chip) + low_bits(command, 8),
        released(p + both_wave(command)),
{
    let none = Seq::<u8>::empty();
    let left = unit_wave(Line::StbLeft, command, none);
    let right = unit_wave(Line::StbRight, command, none);
    assert(p + both_wave(command) == p + left + right);
    lemma_heard_transfer(p, Line::StbLeft, command, none, chip);
    lemma_heard_transfer(p + left, Line::StbRight, command, none, chip);
    assert(data_bits(none) == Seq::<u8>::empty());
    assert(frame_bits(command, none) == low_bits(command, 8));
}

/// Both chips take in a command that goes to both: one that switches the lamps on has the
/// brightness in its three low bits, and the one that switches them off is 128.
pub proof fn both_chips_are_switched(light_level: u8, chip: Line)
    requires
        selects(chip),
    ensures
        ({
            let on = heard(both_wave(power_command(true, light_level)), chip);
            let off = heard(both_wave(power_command(false, light_level)), chip);
            &&& on.len() == 8 && value_of(on) == 136 + light_level % 8
            &&& off.len() == 8 && value_of(off) == 128
        }),
{
    let none = Seq::<PinWrite>::empty();
    lemma_released_at_first();
    let on = power_command(true, light_level);
    let off = power_command(false, light_level);
    lemma_both(none, on, chip);
    lemma_both(none, off, chip);
    assert(none + both_wave(on) == both_wave(on));
    assert(none + both_wave(off) == both_wave(off));
    assert(heard(none, chip) + low_bits(on, 8) == low_bits(on, 8));
    assert(heard(none, chip) + low_bits(off, 8) == low_bits(off, 8));
    bits_read_back(on);
    bits_read_back(off);
    brightness_has_eight_levels(light_level);
}

/// A new screen has both chips told their display mode, 3, and then their data mode, 64.
pub proof fn both_chips_are_set_up(chip: Line)
    requires
        selects(chip),
    ensures
        ({
            let bits = heard(both_wave(COMMAND1) + both_wave(COMMAND2), chip);
            &&& bits.len() == 16
            &&& value_of(bits.take(8)) == 3
            &&& value_of(bits.skip(8)) == 64
        }),
{
    let none = Seq::<PinWrite>::empty();
    lemma_released_at_first();
    lemma_both(none, COMMAND1, chip);
    lemma_both(none + both_wave(COMMAND1), COMMAND2, chip);
    assert(none + both_wave(COMMAND1) + both_wave(COMMAND2) == both_wave(COMMAND1) + both_wave(
        COMMAND2,
    ));
    let bits = heard(both_wave(COMMAND1) + both_wave(COMMAND2), chip);
    assert(bits.take(8) == low_bits(COMMAND1, 8));
    assert(bits.skip(8) == low_bits(COMMAND2, 8));
    bits_read_back(COMMAND1);
    bits_read_back(COMMAND2);
}

/// What the chips read as column `i` of the screen.
pub open spec fn column_read(writes: Seq<PinWrite>, i: int) -> nat {
    if i < 14 {
        column_value(heard(writes, Line::StbLeft), i)
    } else {
        column_value(heard(writes, Line::StbRight), i - 14)
    }
}

/// A text that fits is read by the chips column by column, in the middle, and the columns beside
/// it are dark.
pub proof fn short_text_lights_its_lamps(data: Seq<u8>, status: u8, mask: u8, k: int)
    requires
        data.len() <= 27,
        0 <= k < 27,
    ensures
        ({
            let left = (27 - data.len()) / 2;
            column_read(panel_wave(centred(data), status, mask), k) == (if left <= k < left
                + data.len() {
                data[k - left] as nat % 32
            } else {
                0
            })
        }),
{
    short_text_stands_in_the_middle(data);
    chips_take_in_the_picture(centred(data), status, mask, k, 0);
    let left = (27 - data.len()) / 2;
    if left <= k < left + data.len() {
        assert(centred(data).subrange(left, left + data.len())[k - left] == centred(data)[k]);
    }
}

/// A scrolling text is read by the chips with its first `n` columns, as far as they fit: the last
/// 27 of them, from the left edge on, and dark behind them.
pub proof fn scrolling_text_lights_its_lamps(data: Seq<u8>, status: u8, mask: u8, n: int, k: int)
    requires
        0 < n <= data.len(),
        0 <= k < 27,
    ensures
        ({
            let first = if n > 27 {
                n - 27
            } else {
                0
            };
            column_read(panel_wave(scroll_frame(data, n), status, mask), k) == (if first + k < n {
                data[first + k] as nat % 32
            } else {
                0
            })
        }),
{
    chips_take_in_the_picture(scroll_frame(data, n), status, mask, k, 0);
}

/// A character is drawn as its glyph, with an empty column behind it; small letters as large ones.
/// One without a glyph is not drawn.
pub proof fn character_is_drawn_as_its_glyph(c: char, k: int, dict: Map<char, Seq<u8>>)
    requires
        0 <= k < 26,
    ensures
        !(97 <= c as u32 <= 122) ==> glyph_columns(seq![c], dict) == (if dict.contains_key(c) {
            dict[c] + seq![0u8]
        } else {
            seq![]
        }),
        glyph_columns(seq![(97 + k) as char], dict) == glyph_columns(seq![(65 + k) as char], dict),
        glyph_columns(Seq::<char>::empty(), dict).len() == 0,
{
    reveal_with_fuel(glyph_columns, 2);
    let e = Seq::<char>::empty();
    assert(seq![c].drop_last() == e);
    assert(seq![(97 + k) as char].drop_last() == e);
    assert(seq![(65 + k) as char].drop_last() == e);
    if dict.contains_key(c) {
        assert(Seq::<u8>::empty() + dict[c].push(0) == dict[c] + seq![0u8]);
    }
    assert(ascii_upper_char((97 + k) as char) == (65 + k) as char);
    assert(ascii_upper_char((65 + k) as char) == (65 + k) as char);
}

/// A text loses the empty column behind its last glyph, and no other.
pub proof fn text_loses_its_last_gap(s: Seq<char>, dict: Map<char, Seq<u8>>)
    ensures
        glyph_columns(s, dict).len() > 0 ==> display_columns(s, dict) + seq![0u8] == glyph_columns(
            s,
            dict,
        ),
        glyph_columns(s, dict).len() == 0 ==> display_columns(s, dict).len() == 0,
    decreases s.len(),
{
    let g = glyph_columns(s, dict);
    if g.len() > 0 {
        lemma_ends_with_a_gap(s, dict);
        assert(g.drop_last() + seq![g.last()] == g);
    }
}

proof fn lemma_ends_with_a_gap(s: Seq<char>, dict: Map<char, Seq<u8>>)
    requires
        glyph_columns(s, dict).len() > 0,
    ensures
        glyph_columns(s, dict).last() == 0,
    decreases s.len(),
{
    if !dict.contains_key(ascii_upper_char(s.last())) {
        lemma_ends_with_a_gap(s.drop_last(), dict);
    }
}

/// A text that is written as UTF-8 is shown as that text; what is no UTF-8 is shown as nothing.
pub proof fn bytes_are_read_as_utf8(s: Seq<char>, bytes: Seq<u8>)
    ensures
        text_of_bytes(vstd::utf8::encode_utf8(s)) == s,
        !vstd::utf8::valid_utf8(bytes) ==> text_of_bytes(bytes).len() == 0,
{
    vstd::utf8::encode_utf8_valid_utf8(s);
    vstd::utf8::encode_utf8_decode_utf8(s);
}

/// Step `j` of a scrolling text leads from one state to the next, and no key is pressed.
pub open spec fn scrolls_on(
    mask: u8,
    states: Seq<Scroll>,
    steps: Seq<ScrollStep>,
    j: int,
) -> bool {
    &&& states[j].wf()
    &&& states[j].steps(mask, false, states[j + 1], steps[j])
    &&& states[j + 1].data@ == states[j].data@
    &&& states[j + 1].status == states[j].status
}

/// A scrolling text that no key ends goes through its pictures in order. Each has one column more
/// than the one before, is written once, and stands for seven naps.
pub proof fn scrolling_goes_through_its_pictures(
    mask: u8,
    states: Seq<Scroll>,
    steps: Seq<ScrollStep>,
    i: int,
)
    requires
        0 <= i < steps.len(),
        states.len() == steps.len() + 1,
        states[0].shown == 0 && states[0].phase == ScrollPhase::Due,
        forall|j: int| 0 <= j < steps.len() ==> #[trigger] scrolls_on(mask, states, steps, j),
        i < 8 * states[0].data@.len(),
    ensures
        i % 8 == 0 ==> (steps[i] matches ScrollStep::Write(writes) && writes@ == panel_wave(
            scroll_frame(states[0].data@, i / 8 + 1),
            states[0].status,
            mask,
        )),
        i % 8 != 0 ==> steps[i] is Nap,
{
    lemma_scroll_state(mask, states, steps, i);
    assert(scrolls_on(mask, states, steps, i));
}

spec fn scrolled(s: Scroll, i: int) -> bool {
    &&& s.shown == (i + 7) / 8
    &&& i == 0 ==> s.phase == ScrollPhase::Due
    &&& i > 0 && i % 8 == 0 ==> s.phase == ScrollPhase::Napped && s.slept == 120
    &&& i % 8 == 1 ==> s.phase == ScrollPhase::Drawn
    &&& i % 8 >= 2 ==> s.phase == ScrollPhase::Napped && s.slept == 20 * (i % 8 - 2)
}

proof fn lemma_scroll_next(mask: u8, s: Scroll, next: Scroll, step: ScrollStep, i: int)
    requires
        0 <= i < 8 * s.data@.len(),
        scrolled(s, i),
        s.steps(mask, false, next, step),
    ensures
        scrolled(next, i + 1),
{
    lemma_scroll_fields(mask, s, next, step);
    lemma_scroll_count(i);
}

proof fn lemma_scroll_fields(mask: u8, s: Scroll, next: Scroll, step: ScrollStep)
    requires
        s.steps(mask, false, next, step),
        s.shown < s.data@.len() || s.phase == ScrollPhase::Drawn || (s.phase == ScrollPhase::Napped
            && s.slept < 108),
    ensures
        s.phase == ScrollPhase::Due || (s.phase == ScrollPhase::Napped && s.slept >= 108)
            ==> next.shown == s.shown + 1 && next.phase == ScrollPhase::Drawn,
        s.phase == ScrollPhase::Drawn ==> next.shown == s.shown && next.phase == ScrollPhase::Napped
            && next.slept == 0,
        s.phase == ScrollPhase::Napped && s.slept < 108 ==> next.shown == s.shown && next.phase
            == ScrollPhase::Napped && next.slept == s.slept + 20,
{
}

proof fn lemma_scroll_count(i: int)
    requires
        0 <= i,
    ensures
        i % 8 == 7 ==> (i + 1) % 8 == 0,
        i % 8 != 7 ==> (i + 1) % 8 == i % 8 + 1,
        (i + 8) / 8 == (i + 7) / 8 + (if i % 8 == 0 {
            1int
        } else {
            0
        }),
        i % 8 == 0 ==> (i + 7) / 8 == i / 8,
        (i + 7) / 8 * 8 <= i + 7,
{
}

proof fn lemma_scroll_state(mask: u8, states: Seq<Scroll>, steps: Seq<ScrollStep>, i: int)
    requires
        0 <= i <= steps.len(),
        states.len() == steps.len() + 1,
        states[0].shown == 0 && states[0].phase == ScrollPhase::Due,
        forall|j: int| 0 <= j < steps.len() ==> #[trigger] scrolls_on(mask, states, steps, j),
        i <= 8 * states[0].data@.len(),
    ensures
        scrolled(states[i], i),
        states[i].data@ == states[0].data@,
        states[i].status == states[0].status,
    decreases i,
{
    if i > 0 {
        lemma_scroll_state(mask, states, steps, i - 1);
        assert(scrolls_on(mask, states, steps, i - 1));
        lemma_scroll_next(mask, states[i - 1], states[i], steps[i - 1], i - 1);
    }
}

/// A key ends a scrolling text at once, behind a picture or a nap, and nothing is drawn any more.
pub proof fn key_ends_a_scrolling_text(s: Scroll, mask: u8, next: Scroll, step: ScrollStep)
    requires
        s.wf(),
        s.phase != ScrollPhase::Due,
        next.data@ == s.data@,
        s.steps(mask, true, next, step),
    ensures
        step is Done,
        forall|pressed: bool, later: Scroll, more: ScrollStep|
            next.steps(mask, pressed, later, more) ==> more is Done,
{
}

/// A text whose columns fit on the screen stands in its middle: what the chips read beside it is
/// dark. A longer one scrolls by, from its first column on, with the same status.
pub proof fn text_stands_or_scrolls(
    screen: LedScreen,
    s: Seq<char>,
    status: u8,
    dict: Map<char, Seq<u8>>,
    r: Rendering,
    k: int,
)
    requires
        screen.renders(vstd::utf8::encode_utf8(s), status, dict, r),
        0 <= k < 27,
    ensures
        ({
            let columns = display_columns(s, dict);
            let left = (27 - columns.len()) / 2;
            &&& columns.len() <= 27 ==> (r matches Rendering::Still(writes) && column_read(
                writes@,
                k,
            ) == (if left <= k < left + columns.len() {
                columns[k - left] as nat % 32
            } else {
                0
            }))
            &&& columns.len() > 27 ==> (r matches Rendering::Moving(scroll) && scroll.data@
                == columns && scroll.status == status && scroll.shown == 0 && scroll.phase
                == ScrollPhase::Due)
        }),
{
    bytes_are_read_as_utf8(s, vstd::utf8::encode_utf8(s));
    let columns = display_columns(s, dict);
    if columns.len() <= 27 {
        short_text_lights_its_lamps(columns, status, screen.disabled_led_mask, k);
    }
}

} // verus!
