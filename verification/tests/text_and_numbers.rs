use athena_led::bytes::format_bytes_total;
use athena_led::number::{decimal_string, read_i32, read_u32, read_u64};
use athena_led::text::{
    back_run_len, begins, belongs, chars_of, cut_before, cut_behind, cut_second_part, erase,
    find_chars, has_chars, holds, is_at, is_white_char, join2, join3, lower_ascii,
    lower_ascii_char, replace_char, run_len, same, same_chars, split_lines, split_pieces,
    split_words, string_of, strip, trim, upper_ascii_char, Class,
};

fn chars(s: &str) -> Vec<char> {
    s.chars().collect()
}

fn strings(v: Vec<Vec<char>>) -> Vec<String> {
    v.iter().map(|cs| cs.iter().collect()).collect()
}

const SAMPLES: [&str; 14] = [
    "",
    " ",
    "a",
    "  a b\tc ",
    "a\nb\r\nc",
    "a\n\nb\n",
    "\r\n",
    "x\r",
    "\u{3000}北 京\u{a0}",
    "one,two  three",
    "key:value:rest",
    "'quoted'",
    "cpu-thermal-thermal",
    "☀ 25℃ 18-30",
];

#[test]
fn white_space_is_what_std_calls_so() {
    for c in (0..=0x10ffffu32).filter_map(char::from_u32) {
        assert_eq!(is_white_char(c), c.is_whitespace(), "{:?}", c);
    }
}

#[test]
fn ascii_letters_change_their_case() {
    for c in (0..=0x3000u32).filter_map(char::from_u32) {
        assert_eq!(lower_ascii_char(c), c.to_ascii_lowercase());
        assert_eq!(upper_ascii_char(c), c.to_ascii_uppercase());
    }
    assert_eq!(lower_ascii("SysFS Ä"), "sysfs Ä");
}

#[test]
fn classes_have_their_members() {
    for c in "0189.-, \t'ax℃".chars() {
        assert_eq!(belongs(Class::White, c), c.is_whitespace());
        assert_eq!(belongs(Class::Word, c), !c.is_whitespace());
        assert_eq!(belongs(Class::Is('\''), c), c == '\'');
        assert_eq!(belongs(Class::Not('\''), c), c != '\'');
        assert_eq!(belongs(Class::Field, c), c != ' ' && c != ',');
        assert_eq!(belongs(Class::Number, c), c.is_ascii_digit() || c == '.' || c == '-');
        assert_eq!(belongs(Class::Figure, c), c.is_ascii_digit() || c == '.');
    }
}

#[test]
fn words_lines_and_trimming_are_those_of_std() {
    for s in SAMPLES {
        let cs = chars(s);
        let words: Vec<String> = s.split_whitespace().map(|w| w.to_string()).collect();
        let lines: Vec<String> = s.lines().map(|w| w.to_string()).collect();
        let fields: Vec<String> =
            s.split(|c| c == ' ' || c == ',').filter(|p| !p.is_empty()).map(|p| p.to_string()).collect();
        assert_eq!(strings(split_words(&cs)), words, "{:?}", s);
        assert_eq!(strings(split_lines(&cs)), lines, "{:?}", s);
        assert_eq!(strings(split_pieces(&cs, Class::Field)), fields, "{:?}", s);
        assert_eq!(string_of(trim(&cs)), s.trim(), "{:?}", s);
        assert_eq!(string_of(strip(&cs, Class::Is('\''))), s.trim_matches('\''), "{:?}", s);
        assert_eq!(run_len(&cs, Class::Word), s.chars().take_while(|c| !c.is_whitespace()).count());
        assert_eq!(
            back_run_len(&cs, Class::White),
            s.chars().rev().take_while(|c| c.is_whitespace()).count()
        );
    }
}

#[test]
fn searching_and_replacing_are_those_of_std() {
    for s in SAMPLES {
        let cs = chars(s);
        for p in ["", "a", ":", "-thermal", "\n", "th", "北", "b\tc"] {
            let ps = chars(p);
            assert_eq!(has_chars(&cs, &ps), s.contains(p));
            assert_eq!(holds(s, p), s.contains(p));
            assert_eq!(begins(s, p), s.starts_with(p));
            assert_eq!(is_at(&cs, &ps, 0), s.starts_with(p));
            let at = s.find(p).map(|b| s[..b].chars().count());
            assert_eq!(find_chars(&cs, &ps), at);
            if !p.is_empty() {
                assert_eq!(string_of(&erase(&cs, &ps)), s.replace(p, ""));
                assert_eq!(
                    cut_second_part(&cs, &ps).map(|r| string_of(r)),
                    s.split(p).nth(1).map(|r| r.to_string())
                );
            }
        }
        assert_eq!(string_of(cut_before(&cs, ' ')), s.split(' ').next().unwrap());
        assert_eq!(
            cut_behind(&cs, ' ').map(|r| string_of(r)),
            s.split_once(' ').map(|r| r.1.to_string())
        );
        assert_eq!(replace_char(s, ':', ';'), s.replace(':', ";"));
        assert_eq!(string_of(&chars_of(s)), s);
    }
    assert!(same("北京", "北京") && !same("a", "ab") && !same("a", "b"));
    assert!(same_chars(&chars("ab"), &chars("ab")) && !same_chars(&chars("ab"), &chars("ac")));
    assert_eq!(join2("a", "℃"), "a℃");
    assert_eq!(join3("a", "", "b"), "ab");
}

#[test]
fn numbers_are_written_as_by_std() {
    for n in [0, 1, 9, 10, 99, 100, 12345, u32::MAX as u64, u64::MAX - 1, u64::MAX] {
        assert_eq!(decimal_string(n), n.to_string());
        assert_eq!(read_u64(&chars(&n.to_string())), Some(n));
    }
}

#[test]
fn numbers_are_read_as_by_std() {
    for s in [
        "", "+", "-", "0", "+0", "-0", "007", "+7", "++7", "-7", "7 ", " 7", "1a", "４", "4294967295",
        "4294967296", "18446744073709551615", "18446744073709551616", "99999999999999999999999",
        "2147483647", "2147483648", "-2147483648", "-2147483649", "+2147483647",
    ] {
        assert_eq!(read_u64(&chars(s)), s.parse::<u64>().ok(), "{:?}", s);
        assert_eq!(read_u32(&chars(s)), s.parse::<u32>().ok(), "{:?}", s);
        assert_eq!(read_i32(s), s.parse::<i32>().ok(), "{:?}", s);
    }
}

fn total_by_floats(bytes: u64) -> String {
    let b = bytes as f64;
    if b > 1_099_511_627_776.0 {
        format!("{:.2}T", b / 1_099_511_627_776.0)
    } else if b > 1_073_741_824.0 {
        format!("{:.2}G", b / 1_073_741_824.0)
    } else if b > 1_048_576.0 {
        format!("{:.1}M", b / 1_048_576.0)
    } else {
        format!("{:.0}K", b / 1024.0)
    }
}

#[test]
fn totals_have_their_unit() {
    assert_eq!(format_bytes_total(0), "0K");
    assert_eq!(format_bytes_total(512), "0K");
    assert_eq!(format_bytes_total(513), "1K");
    assert_eq!(format_bytes_total(1536), "2K");
    assert_eq!(format_bytes_total(1_048_576), "1024K");
    assert_eq!(format_bytes_total(1_048_577), "1.0M");
    assert_eq!(format_bytes_total(1_073_741_824), "1024.0M");
    assert_eq!(format_bytes_total(1_610_612_736), "1.50G");
    assert_eq!(format_bytes_total(1_099_511_627_777), "1.00T");
    assert_eq!(format_bytes_total(u64::MAX), "16777216.00T");
}

#[test]
fn totals_are_those_of_double_precision() {
    let mut seed: u64 = 0x9e37_79b9_7f4a_7c15;
    for i in 0..200_000u64 {
        seed ^= seed << 13;
        seed ^= seed >> 7;
        seed ^= seed << 17;
        let n = seed >> (i % 64);
        assert_eq!(format_bytes_total(n), total_by_floats(n), "{}", n);
    }
    for shift in 0..64 {
        for low in 0..4u64 {
            let n = (1u64 << shift).wrapping_add(low).wrapping_sub(2);
            assert_eq!(format_bytes_total(n), total_by_floats(n), "{}", n);
        }
    }
    for k in 0..3000u64 {
        for half in [k * 1024 + 512, k * 104_857 + 52_428, k * 10_737_418 + 5_368_709] {
            assert_eq!(format_bytes_total(half), total_by_floats(half), "{}", half);
        }
    }
}
