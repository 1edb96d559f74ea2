//! What holds of the time zone: which setting counts, and which offset a zone by name has.
use vstd::prelude::*;
use crate::text::{is_white, starts_with, trimmed, Class};
use crate::text_laws::{
    all_in, contained_is_a_part, stripping_takes_both_ends, trimming_takes_the_blanks,
};
use crate::timezone::{
    posix_setting, posix_zone, resolved, tz_value, uci_value, zone_file, zone_setting, Timezone,
};

verus! {

/// The zones 8 hours east of Greenwich, and their letters.
pub open spec fn east_by_eight(z: Seq<char>, letters: Seq<char>) -> bool {
    ||| z == "Asia/Shanghai"@ && letters == "CST"@
    ||| z == "Asia/Chongqing"@ && letters == "CST"@
    ||| z == "Asia/Harbin"@ && letters == "CST"@
    ||| z == "Asia/Urumqi"@ && letters == "CST"@
    ||| z == "Asia/Kashgar"@ && letters == "CST"@
    ||| z == "Asia/Macau"@ && letters == "CST"@
    ||| z == "Asia/Taipei"@ && letters == "CST"@
    ||| z == "Asia/Hong_Kong"@ && letters == "HKT"@
    ||| z == "Asia/Singapore"@ && letters == "SGT"@
    ||| z == "Asia/Kuala_Lumpur"@ && letters == "MYT"@
    ||| z == "Asia/Manila"@ && letters == "PHT"@
    ||| z == "Asia/Makassar"@ && letters == "WITA"@
    ||| z == "Asia/Brunei"@ && letters == "BNT"@
}

/// The zones 9 hours east of Greenwich, and their letters.
pub open spec fn east_by_nine(z: Seq<char>, letters: Seq<char>) -> bool {
    ||| z == "Asia/Tokyo"@ && letters == "JST"@
    ||| z == "Asia/Seoul"@ && letters == "KST"@
    ||| z == "Asia/Pyongyang"@ && letters == "KST"@
}

/// The zones 7 hours east of Greenwich, and their letters.
pub open spec fn east_by_seven(z: Seq<char>, letters: Seq<char>) -> bool {
    ||| z == "Asia/Bangkok"@ && letters == "ICT"@
    ||| z == "Asia/Ho_Chi_Minh"@ && letters == "ICT"@
    ||| z == "Asia/Phnom_Penh"@ && letters == "ICT"@
    ||| z == "Asia/Vientiane"@ && letters == "ICT"@
    ||| z == "Asia/Jakarta"@ && letters == "WIB"@
}

/// The zones 6 hours east of Greenwich, and their letters.
pub open spec fn east_by_six(z: Seq<char>, letters: Seq<char>) -> bool {
    ||| z == "Asia/Dhaka"@ && letters == "BST"@
    ||| z == "Asia/Almaty"@ && letters == "ALMT"@
    ||| z == "Asia/Omsk"@ && letters == "OMST"@
}

/// The zones 5 hours and a half east of Greenwich, and their letters.
pub open spec fn east_by_five_and_a_half(z: Seq<char>, letters: Seq<char>) -> bool {
    ||| z == "Asia/Kolkata"@ && letters == "IST"@
    ||| z == "Asia/Calcutta"@ && letters == "IST"@
    ||| z == "Asia/Colombo"@ && letters == "IST"@
}

/// The zones 5 hours east of Greenwich, and their letters.
pub open spec fn east_by_five(z: Seq<char>, letters: Seq<char>) -> bool {
    ||| z == "Asia/Karachi"@ && letters == "PKT"@
    ||| z == "Asia/Tashkent"@ && letters == "UZT"@
    ||| z == "Asia/Yekaterinburg"@ && letters == "YEKT"@
}

/// The zones 4 hours east of Greenwich, and their letters.
pub open spec fn east_by_four(z: Seq<char>, letters: Seq<char>) -> bool {
    ||| z == "Asia/Dubai"@ && letters == "GST"@
    ||| z == "Asia/Baku"@ && letters == "AZT"@
    ||| z == "Indian/Mauritius"@ && letters == "MUT"@
}

/// The zones 3 hours east of Greenwich, and their letters.
pub open spec fn east_by_three(z: Seq<char>, letters: Seq<char>) -> bool {
    ||| z == "Europe/Moscow"@ && letters == "MSK"@
    ||| z == "Asia/Riyadh"@ && letters == "AST"@
    ||| z == "Africa/Nairobi"@ && letters == "EAT"@
}

/// The zones 3 hours and a half east of Greenwich, and their letters.
pub open spec fn east_by_three_and_a_half(z: Seq<char>, letters: Seq<char>) -> bool {
    ||| z == "Asia/Tehran"@ && letters == "IRST"@
}

/// The zones 2 hours east of Greenwich, and their letters.
pub open spec fn east_by_two(z: Seq<char>, letters: Seq<char>) -> bool {
    ||| z == "Europe/Athens"@ && letters == "EET"@
    ||| z == "Europe/Bucharest"@ && letters == "EET"@
    ||| z == "Africa/Cairo"@ && letters == "EET"@
    ||| z == "Europe/Helsinki"@ && letters == "EET"@
    ||| z == "Asia/Jerusalem"@ && letters == "IST"@
}

/// The zones an hour east of Greenwich, and their letters.
pub open spec fn east_by_one(z: Seq<char>, letters: Seq<char>) -> bool {
    ||| z == "Europe/Paris"@ && letters == "CET"@
    ||| z == "Europe/Berlin"@ && letters == "CET"@
    ||| z == "Europe/Rome"@ && letters == "CET"@
    ||| z == "Europe/Madrid"@ && letters == "CET"@
    ||| z == "Europe/Amsterdam"@ && letters == "CET"@
    ||| z == "Europe/Brussels"@ && letters == "CET"@
    ||| z == "Europe/Vienna"@ && letters == "CET"@
    ||| z == "Europe/Stockholm"@ && letters == "CET"@
    ||| z == "Europe/Oslo"@ && letters == "CET"@
    ||| z == "Europe/Copenhagen"@ && letters == "CET"@
    ||| z == "Europe/Warsaw"@ && letters == "CET"@
    ||| z == "Europe/Prague"@ && letters == "CET"@
    ||| z == "Europe/Zurich"@ && letters == "CET"@
    ||| z == "Africa/Lagos"@ && letters == "WAT"@
}

/// The zones at the time of Greenwich, and their letters.
pub open spec fn at_greenwich(z: Seq<char>, letters: Seq<char>) -> bool {
    ||| z == "Europe/London"@ && letters == "GMT"@
    ||| z == "Europe/Dublin"@ && letters == "GMT"@
    ||| z == "Atlantic/Reykjavik"@ && letters == "GMT"@
}

/// The zones 3 hours west of Greenwich, and their letters.
pub open spec fn west_by_three(z: Seq<char>, letters: Seq<char>) -> bool {
    ||| z == "America/Sao_Paulo"@ && letters == "BRT"@
    ||| z == "America/Argentina/Buenos_Aires"@ && letters == "ART"@
    ||| z == "America/Montevideo"@ && letters == "UYT"@
}

/// The zones 4 hours west of Greenwich, and their letters.
pub open spec fn west_by_four(z: Seq<char>, letters: Seq<char>) -> bool {
    ||| z == "America/Halifax"@ && letters == "AST"@
    ||| z == "America/Caracas"@ && letters == "VET"@
    ||| z == "America/Santiago"@ && letters == "CLT"@
}

/// The zones 5 hours west of Greenwich, and their letters.
pub open spec fn west_by_five(z: Seq<char>, letters: Seq<char>) -> bool {
    ||| z == "America/New_York"@ && letters == "EST"@
    ||| z == "America/Toronto"@ && letters == "EST"@
    ||| z == "America/Miami"@ && letters == "EST"@
    ||| z == "America/Bogota"@ && letters == "COT"@
    ||| z == "America/Lima"@ && letters == "PET"@
}

/// The zones 6 hours west of Greenwich, and their letters.
pub open spec fn west_by_six(z: Seq<char>, letters: Seq<char>) -> bool {
    ||| z == "America/Chicago"@ && letters == "CST"@
    ||| z == "America/Mexico_City"@ && letters == "CST"@
}

/// The zones 7 hours west of Greenwich, and their letters.
pub open spec fn west_by_seven(z: Seq<char>, letters: Seq<char>) -> bool {
    ||| z == "America/Denver"@ && letters == "MST"@
}

/// The zones 8 hours west of Greenwich, and their letters.
pub open spec fn west_by_eight(z: Seq<char>, letters: Seq<char>) -> bool {
    ||| z == "America/Los_Angeles"@ && letters == "PST"@
    ||| z == "America/Tijuana"@ && letters == "PST"@
    ||| z == "America/Vancouver"@ && letters == "PST"@
}

/// The zones 10 hours west of Greenwich, and their letters.
pub open spec fn west_by_ten(z: Seq<char>, letters: Seq<char>) -> bool {
    ||| z == "Pacific/Honolulu"@ && letters == "HST"@
}

/// The zones 10 hours east of Greenwich, and their letters.
pub open spec fn east_by_ten(z: Seq<char>, letters: Seq<char>) -> bool {
    ||| z == "Australia/Sydney"@ && letters == "AEST"@
    ||| z == "Australia/Melbourne"@ && letters == "AEST"@
    ||| z == "Australia/Brisbane"@ && letters == "AEST"@
}

/// The zones 9 hours and a half east of Greenwich, and their letters.
pub open spec fn east_by_nine_and_a_half(z: Seq<char>, letters: Seq<char>) -> bool {
    ||| z == "Australia/Adelaide"@ && letters == "ACST"@
    ||| z == "Australia/Darwin"@ && letters == "ACST"@
}

/// The zones 12 hours east of Greenwich, and their letters.
pub open spec fn east_by_twelve(z: Seq<char>, letters: Seq<char>) -> bool {
    ||| z == "Pacific/Auckland"@ && letters == "NZST"@
    ||| z == "Pacific/Fiji"@ && letters == "FJT"@
}

/// The zones 3 hours and a half west of Greenwich, and their letters.
pub open spec fn west_by_three_and_a_half(z: Seq<char>, letters: Seq<char>) -> bool {
    ||| z == "America/St_Johns"@ && letters == "NST"@
}

/// A zone has these letters and this offset: the hours that are to be added to its time for that
/// of Greenwich.
pub open spec fn zone_is(z: Seq<char>, letters: Seq<char>, offset: Seq<char>) -> bool {
    ||| offset == "-8"@ && east_by_eight(z, letters)
    ||| offset == "-9"@ && east_by_nine(z, letters)
    ||| offset == "-7"@ && east_by_seven(z, letters)
    ||| offset == "-6"@ && east_by_six(z, letters)
    ||| offset == "-5:30"@ && east_by_five_and_a_half(z, letters)
    ||| offset == "-5"@ && east_by_five(z, letters)
    ||| offset == "-4"@ && east_by_four(z, letters)
    ||| offset == "-3"@ && east_by_three(z, letters)
    ||| offset == "-3:30"@ && east_by_three_and_a_half(z, letters)
    ||| offset == "-2"@ && east_by_two(z, letters)
    ||| offset == "-1"@ && east_by_one(z, letters)
    ||| offset == "0"@ && at_greenwich(z, letters)
    ||| offset == "3"@ && west_by_three(z, letters)
    ||| offset == "4"@ && west_by_four(z, letters)
    ||| offset == "5"@ && west_by_five(z, letters)
    ||| offset == "6"@ && west_by_six(z, letters)
    ||| offset == "7"@ && west_by_seven(z, letters)
    ||| offset == "8"@ && west_by_eight(z, letters)
    ||| offset == "10"@ && west_by_ten(z, letters)
    ||| offset == "-10"@ && east_by_ten(z, letters)
    ||| offset == "-9:30"@ && east_by_nine_and_a_half(z, letters)
    ||| offset == "-12"@ && east_by_twelve(z, letters)
    ||| offset == "3:30"@ && west_by_three_and_a_half(z, letters)
}

/// A zone that is known here is named by its letters and its offset, and no other zone has a name.
pub proof fn zones_have_their_offsets(z: Seq<char>, letters: Seq<char>, offset: Seq<char>)
    ensures
        zone_is(z, letters, offset) ==> posix_zone(z) is Some,
        posix_zone(z) matches Some(p) ==> exists|l: Seq<char>, o: Seq<char>| #[trigger]
            zone_is(z, l, o) && p == l + o,
{
    lemma_letters_and_offsets();
    if z == "Asia/Shanghai"@
        || z == "Asia/Chongqing"@
        || z == "Asia/Harbin"@
        || z == "Asia/Urumqi"@
        || z == "Asia/Kashgar"@
        || z == "Asia/Macau"@
        || z == "Asia/Taipei"@ {
        assert(zone_is(z, "CST"@, "-8"@));
    } else if z == "Asia/Hong_Kong"@ {
        assert(zone_is(z, "HKT"@, "-8"@));
    } else if z == "Asia/Singapore"@ {
        assert(zone_is(z, "SGT"@, "-8"@));
    } else if z == "Asia/Kuala_Lumpur"@ {
        assert(zone_is(z, "MYT"@, "-8"@));
    } else if z == "Asia/Manila"@ {
        assert(zone_is(z, "PHT"@, "-8"@));
    } else if z == "Asia/Makassar"@ {
        assert(zone_is(z, "WITA"@, "-8"@));
    } else if z == "Asia/Brunei"@ {
        assert(zone_is(z, "BNT"@, "-8"@));
    } else if z == "Asia/Tokyo"@ {
        assert(zone_is(z, "JST"@, "-9"@));
    } else if z == "Asia/Seoul"@
        || z == "Asia/Pyongyang"@ {
        assert(zone_is(z, "KST"@, "-9"@));
    } else if z == "Asia/Bangkok"@
        || z == "Asia/Ho_Chi_Minh"@
        || z == "Asia/Phnom_Penh"@
        || z == "Asia/Vientiane"@ {
        assert(zone_is(z, "ICT"@, "-7"@));
    } else if z == "Asia/Jakarta"@ {
        assert(zone_is(z, "WIB"@, "-7"@));
    } else if z == "Asia/Dhaka"@ {
        assert(zone_is(z, "BST"@, "-6"@));
    } else if z == "Asia/Almaty"@ {
        assert(zone_is(z, "ALMT"@, "-6"@));
    } else if z == "Asia/Omsk"@ {
        assert(zone_is(z, "OMST"@, "-6"@));
    } else if z == "Asia/Kolkata"@
        || z == "Asia/Calcutta"@
        || z == "Asia/Colombo"@ {
        assert(zone_is(z, "IST"@, "-5:30"@));
    } else if z == "Asia/Karachi"@ {
        assert(zone_is(z, "PKT"@, "-5"@));
    } else if z == "Asia/Tashkent"@ {
        assert(zone_is(z, "UZT"@, "-5"@));
    } else if z == "Asia/Yekaterinburg"@ {
        assert(zone_is(z, "YEKT"@, "-5"@));
    } else if z == "Asia/Dubai"@ {
        assert(zone_is(z, "GST"@, "-4"@));
    } else if z == "Asia/Baku"@ {
        assert(zone_is(z, "AZT"@, "-4"@));
    } else if z == "Indian/Mauritius"@ {
        assert(zone_is(z, "MUT"@, "-4"@));
    } else if z == "Europe/Moscow"@ {
        assert(zone_is(z, "MSK"@, "-3"@));
    } else if z == "Asia/Riyadh"@ {
        assert(zone_is(z, "AST"@, "-3"@));
    } else if z == "Asia/Tehran"@ {
        assert(zone_is(z, "IRST"@, "-3:30"@));
    } else if z == "Africa/Nairobi"@ {
        assert(zone_is(z, "EAT"@, "-3"@));
    } else if z == "Europe/Athens"@
        || z == "Europe/Bucharest"@
        || z == "Africa/Cairo"@
        || z == "Europe/Helsinki"@ {
        assert(zone_is(z, "EET"@, "-2"@));
    } else if z == "Asia/Jerusalem"@ {
        assert(zone_is(z, "IST"@, "-2"@));
    } else if z == "Europe/Paris"@
        || z == "Europe/Berlin"@
        || z == "Europe/Rome"@
        || z == "Europe/Madrid"@
        || z == "Europe/Amsterdam"@
        || z == "Europe/Brussels"@
        || z == "Europe/Vienna"@
        || z == "Europe/Stockholm"@
        || z == "Europe/Oslo"@
        || z == "Europe/Copenhagen"@
        || z == "Europe/Warsaw"@
        || z == "Europe/Prague"@
        || z == "Europe/Zurich"@ {
        assert(zone_is(z, "CET"@, "-1"@));
    } else if z == "Africa/Lagos"@ {
        assert(zone_is(z, "WAT"@, "-1"@));
    } else if z == "Europe/London"@
        || z == "Europe/Dublin"@
        || z == "Atlantic/Reykjavik"@ {
        assert(zone_is(z, "GMT"@, "0"@));
    } else if z == "America/Sao_Paulo"@ {
        assert(zone_is(z, "BRT"@, "3"@));
    } else if z == "America/Argentina/Buenos_Aires"@ {
        assert(zone_is(z, "ART"@, "3"@));
    } else if z == "America/Montevideo"@ {
        assert(zone_is(z, "UYT"@, "3"@));
    } else if z == "America/Halifax"@ {
        assert(zone_is(z, "AST"@, "4"@));
    } else if z == "America/Caracas"@ {
        assert(zone_is(z, "VET"@, "4"@));
    } else if z == "America/Santiago"@ {
        assert(zone_is(z, "CLT"@, "4"@));
    } else if z == "America/New_York"@
        || z == "America/Toronto"@
        || z == "America/Miami"@ {
        assert(zone_is(z, "EST"@, "5"@));
    } else if z == "America/Bogota"@ {
        assert(zone_is(z, "COT"@, "5"@));
    } else if z == "America/Lima"@ {
        assert(zone_is(z, "PET"@, "5"@));
    } else if z == "America/Chicago"@
        || z == "America/Mexico_City"@ {
        assert(zone_is(z, "CST"@, "6"@));
    } else if z == "America/Denver"@ {
        assert(zone_is(z, "MST"@, "7"@));
    } else if z == "America/Los_Angeles"@
        || z == "America/Tijuana"@
        || z == "America/Vancouver"@ {
        assert(zone_is(z, "PST"@, "8"@));
    } else if z == "Pacific/Honolulu"@ {
        assert(zone_is(z, "HST"@, "10"@));
    } else if z == "Australia/Sydney"@
        || z == "Australia/Melbourne"@
        || z == "Australia/Brisbane"@ {
        assert(zone_is(z, "AEST"@, "-10"@));
    } else if z == "Australia/Adelaide"@
        || z == "Australia/Darwin"@ {
        assert(zone_is(z, "ACST"@, "-9:30"@));
    } else if z == "Pacific/Auckland"@ {
        assert(zone_is(z, "NZST"@, "-12"@));
    } else if z == "Pacific/Fiji"@ {
        assert(zone_is(z, "FJT"@, "-12"@));
    } else if z == "America/St_Johns"@ {
        assert(zone_is(z, "NST"@, "3:30"@));
    }
}

proof fn lemma_letters_and_offsets()
    ensures
        "CST-8"@ == "CST"@ + "-8"@,
        "HKT-8"@ == "HKT"@ + "-8"@,
        "SGT-8"@ == "SGT"@ + "-8"@,
        "MYT-8"@ == "MYT"@ + "-8"@,
        "PHT-8"@ == "PHT"@ + "-8"@,
        "WITA-8"@ == "WITA"@ + "-8"@,
        "BNT-8"@ == "BNT"@ + "-8"@,
        "JST-9"@ == "JST"@ + "-9"@,
        "KST-9"@ == "KST"@ + "-9"@,
        "ICT-7"@ == "ICT"@ + "-7"@,
        "WIB-7"@ == "WIB"@ + "-7"@,
        "BST-6"@ == "BST"@ + "-6"@,
        "ALMT-6"@ == "ALMT"@ + "-6"@,
        "OMST-6"@ == "OMST"@ + "-6"@,
        "IST-5:30"@ == "IST"@ + "-5:30"@,
        "PKT-5"@ == "PKT"@ + "-5"@,
        "UZT-5"@ == "UZT"@ + "-5"@,
        "YEKT-5"@ == "YEKT"@ + "-5"@,
        "GST-4"@ == "GST"@ + "-4"@,
        "AZT-4"@ == "AZT"@ + "-4"@,
        "MUT-4"@ == "MUT"@ + "-4"@,
        "MSK-3"@ == "MSK"@ + "-3"@,
        "AST-3"@ == "AST"@ + "-3"@,
        "IRST-3:30"@ == "IRST"@ + "-3:30"@,
        "EAT-3"@ == "EAT"@ + "-3"@,
        "EET-2"@ == "EET"@ + "-2"@,
        "IST-2"@ == "IST"@ + "-2"@,
        "CET-1"@ == "CET"@ + "-1"@,
        "WAT-1"@ == "WAT"@ + "-1"@,
        "GMT0"@ == "GMT"@ + "0"@,
        "BRT3"@ == "BRT"@ + "3"@,
        "ART3"@ == "ART"@ + "3"@,
        "UYT3"@ == "UYT"@ + "3"@,
        "AST4"@ == "AST"@ + "4"@,
        "VET4"@ == "VET"@ + "4"@,
        "CLT4"@ == "CLT"@ + "4"@,
        "EST5"@ == "EST"@ + "5"@,
        "COT5"@ == "COT"@ + "5"@,
        "PET5"@ == "PET"@ + "5"@,
        "CST6"@ == "CST"@ + "6"@,
        "MST7"@ == "MST"@ + "7"@,
        "PST8"@ == "PST"@ + "8"@,
        "HST10"@ == "HST"@ + "10"@,
        "AEST-10"@ == "AEST"@ + "-10"@,
        "ACST-9:30"@ == "ACST"@ + "-9:30"@,
        "NZST-12"@ == "NZST"@ + "-12"@,
        "FJT-12"@ == "FJT"@ + "-12"@,
        "NST3:30"@ == "NST"@ + "3:30"@,
{
    reveal_strlit("CST-8");
    reveal_strlit("CST");
    reveal_strlit("-8");
    reveal_strlit("HKT-8");
    reveal_strlit("HKT");
    reveal_strlit("SGT-8");
    reveal_strlit("SGT");
    reveal_strlit("MYT-8");
    reveal_strlit("MYT");
    reveal_strlit("PHT-8");
    reveal_strlit("PHT");
    reveal_strlit("WITA-8");
    reveal_strlit("WITA");
    reveal_strlit("BNT-8");
    reveal_strlit("BNT");
    reveal_strlit("JST-9");
    reveal_strlit("JST");
    reveal_strlit("-9");
    reveal_strlit("KST-9");
    reveal_strlit("KST");
    reveal_strlit("ICT-7");
    reveal_strlit("ICT");
    reveal_strlit("-7");
    reveal_strlit("WIB-7");
    reveal_strlit("WIB");
    reveal_strlit("BST-6");
    reveal_strlit("BST");
    reveal_strlit("-6");
    reveal_strlit("ALMT-6");
    reveal_strlit("ALMT");
    reveal_strlit("OMST-6");
    reveal_strlit("OMST");
    reveal_strlit("IST-5:30");
    reveal_strlit("IST");
    reveal_strlit("-5:30");
    reveal_strlit("PKT-5");
    reveal_strlit("PKT");
    reveal_strlit("-5");
    reveal_strlit("UZT-5");
    reveal_strlit("UZT");
    reveal_strlit("YEKT-5");
    reveal_strlit("YEKT");
    reveal_strlit("GST-4");
    reveal_strlit("GST");
    reveal_strlit("-4");
    reveal_strlit("AZT-4");
    reveal_strlit("AZT");
    reveal_strlit("MUT-4");
    reveal_strlit("MUT");
    reveal_strlit("MSK-3");
    reveal_strlit("MSK");
    reveal_strlit("-3");
    reveal_strlit("AST-3");
    reveal_strlit("AST");
    reveal_strlit("IRST-3:30");
    reveal_strlit("IRST");
    reveal_strlit("-3:30");
    reveal_strlit("EAT-3");
    reveal_strlit("EAT");
    reveal_strlit("EET-2");
    reveal_strlit("EET");
    reveal_strlit("-2");
    reveal_strlit("IST-2");
    reveal_strlit("CET-1");
    reveal_strlit("CET");
    reveal_strlit("-1");
    reveal_strlit("WAT-1");
    reveal_strlit("WAT");
    reveal_strlit("GMT0");
    reveal_strlit("GMT");
    reveal_strlit("0");
    reveal_strlit("BRT3");
    reveal_strlit("BRT");
    reveal_strlit("3");
    reveal_strlit("ART3");
    reveal_strlit("ART");
    reveal_strlit("UYT3");
    reveal_strlit("UYT");
    reveal_strlit("AST4");
    reveal_strlit("4");
    reveal_strlit("VET4");
    reveal_strlit("VET");
    reveal_strlit("CLT4");
    reveal_strlit("CLT");
    reveal_strlit("EST5");
    reveal_strlit("EST");
    reveal_strlit("5");
    reveal_strlit("COT5");
    reveal_strlit("COT");
    reveal_strlit("PET5");
    reveal_strlit("PET");
    reveal_strlit("CST6");
    reveal_strlit("6");
    reveal_strlit("MST7");
    reveal_strlit("MST");
    reveal_strlit("7");
    reveal_strlit("PST8");
    reveal_strlit("PST");
    reveal_strlit("8");
    reveal_strlit("HST10");
    reveal_strlit("HST");
    reveal_strlit("10");
    reveal_strlit("AEST-10");
    reveal_strlit("AEST");
    reveal_strlit("-10");
    reveal_strlit("ACST-9:30");
    reveal_strlit("ACST");
    reveal_strlit("-9:30");
    reveal_strlit("NZST-12");
    reveal_strlit("NZST");
    reveal_strlit("-12");
    reveal_strlit("FJT-12");
    reveal_strlit("FJT");
    reveal_strlit("NST3:30");
    reveal_strlit("NST");
    reveal_strlit("3:30");
    assert("CST-8"@ =~= "CST"@ + "-8"@);
    assert("HKT-8"@ =~= "HKT"@ + "-8"@);
    assert("SGT-8"@ =~= "SGT"@ + "-8"@);
    assert("MYT-8"@ =~= "MYT"@ + "-8"@);
    assert("PHT-8"@ =~= "PHT"@ + "-8"@);
    assert("WITA-8"@ =~= "WITA"@ + "-8"@);
    assert("BNT-8"@ =~= "BNT"@ + "-8"@);
    assert("JST-9"@ =~= "JST"@ + "-9"@);
    assert("KST-9"@ =~= "KST"@ + "-9"@);
    assert("ICT-7"@ =~= "ICT"@ + "-7"@);
    assert("WIB-7"@ =~= "WIB"@ + "-7"@);
    assert("BST-6"@ =~= "BST"@ + "-6"@);
    assert("ALMT-6"@ =~= "ALMT"@ + "-6"@);
    assert("OMST-6"@ =~= "OMST"@ + "-6"@);
    assert("IST-5:30"@ =~= "IST"@ + "-5:30"@);
    assert("PKT-5"@ =~= "PKT"@ + "-5"@);
    assert("UZT-5"@ =~= "UZT"@ + "-5"@);
    assert("YEKT-5"@ =~= "YEKT"@ + "-5"@);
    assert("GST-4"@ =~= "GST"@ + "-4"@);
    assert("AZT-4"@ =~= "AZT"@ + "-4"@);
    assert("MUT-4"@ =~= "MUT"@ + "-4"@);
    assert("MSK-3"@ =~= "MSK"@ + "-3"@);
    assert("AST-3"@ =~= "AST"@ + "-3"@);
    assert("IRST-3:30"@ =~= "IRST"@ + "-3:30"@);
    assert("EAT-3"@ =~= "EAT"@ + "-3"@);
    assert("EET-2"@ =~= "EET"@ + "-2"@);
    assert("IST-2"@ =~= "IST"@ + "-2"@);
    assert("CET-1"@ =~= "CET"@ + "-1"@);
    assert("WAT-1"@ =~= "WAT"@ + "-1"@);
    assert("GMT0"@ =~= "GMT"@ + "0"@);
    assert("BRT3"@ =~= "BRT"@ + "3"@);
    assert("ART3"@ =~= "ART"@ + "3"@);
    assert("UYT3"@ =~= "UYT"@ + "3"@);
    assert("AST4"@ =~= "AST"@ + "4"@);
    assert("VET4"@ =~= "VET"@ + "4"@);
    assert("CLT4"@ =~= "CLT"@ + "4"@);
    assert("EST5"@ =~= "EST"@ + "5"@);
    assert("COT5"@ =~= "COT"@ + "5"@);
    assert("PET5"@ =~= "PET"@ + "5"@);
    assert("CST6"@ =~= "CST"@ + "6"@);
    assert("MST7"@ =~= "MST"@ + "7"@);
    assert("PST8"@ =~= "PST"@ + "8"@);
    assert("HST10"@ =~= "HST"@ + "10"@);
    assert("AEST-10"@ =~= "AEST"@ + "-10"@);
    assert("ACST-9:30"@ =~= "ACST"@ + "-9:30"@);
    assert("NZST-12"@ =~= "NZST"@ + "-12"@);
    assert("FJT-12"@ =~= "FJT"@ + "-12"@);
    assert("NST3:30"@ =~= "NST"@ + "3:30"@);
}

/// The quotes that may stand round a value.
pub open spec fn is_quote(q: Seq<char>) -> bool {
    q == seq!['\''] || q == seq!['"'] || q.len() == 0
}

/// A line sets an option to what stands behind its name, without the blanks and the quotes round
/// it; to nothing where nothing stands there.
pub proof fn option_is_what_stands_behind_its_name(
    front: Seq<char>,
    key: Seq<char>,
    between: Seq<char>,
    quote: Seq<char>,
    v: Seq<char>,
    back: Seq<char>,
)
    requires
        all_in(front, Class::White),
        all_in(between, Class::White),
        all_in(back, Class::White),
        is_quote(quote),
        v.len() > 0,
        !is_white(v[0]) && v[0] != '\'' && v[0] != '"',
        !is_white(v.last()) && v.last() != '\'' && v.last() != '"',
    ensures
        uci_value(
            front + ("option "@ + key + (between + (quote + v + quote))) + back,
            key,
        ) == Some(v),
{
    let prefix = "option "@ + key;
    let q = quote + v + quote;
    let core = prefix + (between + q);
    let e = Seq::<char>::empty();
    reveal_strlit("option ");
    assert(core[0] == 'o');
    assert(q.last() == (if quote.len() > 0 {
        quote[0]
    } else {
        v.last()
    }));
    assert(core.last() == q.last());
    trimming_takes_the_blanks(front, core, back);
    contained_is_a_part(e, prefix, between + q, core);
    assert(core.skip(prefix.len() as int) =~= between + q);
    assert(q[0] == (if quote.len() > 0 {
        quote[0]
    } else {
        v[0]
    }));
    trimming_takes_the_blanks(between, q, e);
    assert(between + q + e =~= between + q);
    assert(e + v + e =~= v);
    assert(e + q + e =~= q);
    if quote == seq!['\''] {
        stripping_takes_both_ends(quote, v, quote, Class::Is('\''));
        stripping_takes_both_ends(e, v, e, Class::Is('"'));
    } else if quote == seq!['"'] {
        stripping_takes_both_ends(e, q, e, Class::Is('\''));
        stripping_takes_both_ends(quote, v, quote, Class::Is('"'));
    } else {
        assert(q =~= v);
        stripping_takes_both_ends(e, v, e, Class::Is('\''));
        stripping_takes_both_ends(e, v, e, Class::Is('"'));
    }
}

/// A line that does not begin with the option, blanks before it or not, does not set it; and no
/// line sets an option to nothing.
pub proof fn other_lines_set_nothing(line: Seq<char>, key: Seq<char>)
    ensures
        !starts_with(trimmed(line), "option "@ + key) ==> uci_value(line, key) is None,
        trimmed(line) == "option "@ + key ==> uci_value(line, key) is None,
        uci_value(line, key) matches Some(v) ==> v.len() > 0,
{
    let prefix = "option "@ + key;
    if trimmed(line) == prefix {
        let e = Seq::<char>::empty();
        assert(prefix.skip(prefix.len() as int) =~= e);
        assert(e + e + e =~= e);
        trimming_takes_the_blanks(e, e, e);
        stripping_takes_both_ends(e, e, e, Class::Is('\''));
        stripping_takes_both_ends(e, e, e, Class::Is('"'));
    }
}

/// No line sets a POSIX zone.
pub open spec fn no_posix(all: Seq<Seq<char>>) -> bool {
    forall|i: int| 0 <= i < all.len() ==> uci_value(#[trigger] all[i], "timezone"@) is None
}

/// No line sets a zone by name alone.
pub open spec fn no_zone(all: Seq<Seq<char>>) -> bool {
    forall|i: int|
        0 <= i < all.len() ==> uci_value(#[trigger] all[i], "zonename"@) is None || uci_value(
            all[i],
            "timezone"@,
        ) is Some
}

/// Of several settings the last one counts, and without one there is none.
pub proof fn last_posix_zone_counts(
    above: Seq<Seq<char>>,
    line: Seq<char>,
    below: Seq<Seq<char>>,
    v: Seq<char>,
)
    requires
        uci_value(line, "timezone"@) == Some(v),
        no_posix(below),
    ensures
        posix_setting(above + seq![line] + below) == Some(v),
        posix_setting(below) is None,
    decreases below.len(),
{
    let all = above + seq![line] + below;
    if below.len() == 0 {
        assert(all.last() == line);
    } else {
        let n = below.len() - 1;
        assert(uci_value(below[n], "timezone"@) is None);
        assert(all.last() == below[n]);
        assert(all.drop_last() =~= above + seq![line] + below.drop_last());
        assert(no_posix(below.drop_last())) by {
            assert forall|i: int| 0 <= i < n implies uci_value(
                #[trigger] below.drop_last()[i],
                "timezone"@,
            ) is None by {
                assert(below.drop_last()[i] == below[i]);
            }
        }
        last_posix_zone_counts(above, line, below.drop_last(), v);
    }
}

/// So it is with the zones by name.
pub proof fn last_named_zone_counts(
    above: Seq<Seq<char>>,
    line: Seq<char>,
    below: Seq<Seq<char>>,
    v: Seq<char>,
)
    requires
        uci_value(line, "zonename"@) == Some(v),
        uci_value(line, "timezone"@) is None,
        no_zone(below),
    ensures
        zone_setting(above + seq![line] + below) == Some(v),
        zone_setting(below) is None,
    decreases below.len(),
{
    let all = above + seq![line] + below;
    if below.len() == 0 {
        assert(all.last() == line);
    } else {
        let n = below.len() - 1;
        assert(uci_value(below[n], "zonename"@) is None || uci_value(below[n], "timezone"@) is Some);
        assert(all.last() == below[n]);
        assert(all.drop_last() =~= above + seq![line] + below.drop_last());
        assert(no_zone(below.drop_last())) by {
            assert forall|i: int| 0 <= i < n implies uci_value(
                #[trigger] below.drop_last()[i],
                "zonename"@,
            ) is None || uci_value(below.drop_last()[i], "timezone"@) is Some by {
                assert(below.drop_last()[i] == below[i]);
            }
        }
        last_named_zone_counts(above, line, below.drop_last(), v);
    }
}

/// A zone by name counts where no POSIX zone does: by its own name where the system has it, by its
/// POSIX name where that is known. All else is UTC.
pub proof fn named_zone_comes_second(zone: Seq<char>)
    requires
        zone.len() > 0,
    ensures
        tz_value(None, Some(zone), true) == zone,
        tz_value(Some(Seq::<char>::empty()), Some(zone), true) == zone,
        tz_value(Some("UTC"@), Some(zone), true) == zone,
        posix_zone(zone) matches Some(p) ==> tz_value(None, Some(zone), false) == p,
        posix_zone(zone) is None ==> tz_value(None, Some(zone), false) == "UTC"@,
        tz_value(None, None, true) == "UTC"@,
        tz_value(None, None, false) == "UTC"@,
        tz_value(None, Some(Seq::<char>::empty()), true) == "UTC"@,
        tz_value(None, Some(Seq::<char>::empty()), false) == "UTC"@,
{
}

/// What is said of the source of a zone agrees with its value.
pub proof fn source_agrees_with_the_value(
    posix: Option<Seq<char>>,
    zone: Option<Seq<char>>,
    installed: bool,
    tz: Timezone,
)
    requires
        resolved(posix, zone, installed, tz),
    ensures
        tz.tz_spec() == tz_value(posix, zone, installed),
        tz is Posix ==> posix == Some(tz.tz_spec()),
        tz is Installed ==> installed && zone == Some(tz.tz_spec()),
        tz is Converted ==> !installed && (zone matches Some(z) && posix_zone(z) == Some(
            tz.tz_spec(),
        )),
        tz is Unknown || tz is Missing ==> tz.tz_spec() == "UTC"@,
        tz is Missing <==> (posix is None || posix->Some_0.len() == 0 || posix == Some("UTC"@)) && (
        zone is None || zone->Some_0.len() == 0),
{
}

/// The zone database is looked at for a zone by name, and only where that counts.
pub proof fn zone_that_counts_is_looked_up(posix: Seq<char>, zone: Seq<char>, other: Option<Seq<char>>)
    requires
        zone.len() > 0,
    ensures
        zone_file(None, Some(zone)) == Some("/usr/share/zoneinfo/"@ + zone),
        zone_file(Some("UTC"@), Some(zone)) == Some("/usr/share/zoneinfo/"@ + zone),
        zone_file(Some(Seq::<char>::empty()), Some(zone)) == Some("/usr/share/zoneinfo/"@ + zone),
        posix.len() > 0 && posix != "UTC"@ ==> zone_file(Some(posix), other) is None,
        zone_file(None, None) is None,
        zone_file(None, Some(Seq::<char>::empty())) is None,
{
}

} // verus!
