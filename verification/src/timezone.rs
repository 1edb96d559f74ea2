//! The time zone: from the router's system configuration to a value of `TZ`.
use vstd::prelude::*;
use vstd::slice::slice_subrange;
use crate::text::{
    chars_of, is_at, join2, lines, same, split_lines, starts_with, string_of, strip,
    stripped, trim, trimmed, views, Class,
};

verus! {

/// The value of an option in a line of a UCI file, without the quotes round it, if the line sets
/// the option to anything.
pub open spec fn uci_value(line: Seq<char>, key: Seq<char>) -> Option<Seq<char>> {
    let prefix = "option "@ + key;
    let t = trimmed(line);
    if starts_with(t, prefix) {
        let v = stripped(
            stripped(trimmed(t.skip(prefix.len() as int)), Class::Is('\'')),
            Class::Is('"'),
        );
        if v.len() > 0 {
            Some(v)
        } else {
            None
        }
    } else {
        None
    }
}

/// The value of an option in a line of a UCI file, without the quotes round it, if the line sets
/// the option to anything.
pub fn parse_uci_option(line: &str, key: &str) -> (r: Option<String>)
    ensures
        match r {
            Some(v) => uci_value(line@, key@) == Some(v@),
            None => uci_value(line@, key@) is None,
        },
{
    let cs = chars_of(line);
    let prefix = chars_of(join2("option ", key).as_str());
    let t = trim(cs.as_slice());
    if !is_at(t, prefix.as_slice(), 0) {
        return None;
    }
    let rest = slice_subrange(t, prefix.len(), t.len());
    assert(rest@ == t@.skip(prefix@.len() as int));
    let v = strip(strip(trim(rest), Class::Is('\'')), Class::Is('"'));
    if v.len() == 0 {
        None
    } else {
        Some(string_of(v))
    }
}

/// The name that POSIX has for a zone of the IANA database, as far as it is known here.
pub open spec fn posix_zone(z: Seq<char>) -> Option<Seq<char>> {
    if z == "Asia/Shanghai"@ || z == "Asia/Chongqing"@ || z == "Asia/Harbin"@
            || z == "Asia/Urumqi"@ || z == "Asia/Kashgar"@ || z == "Asia/Macau"@
            || z == "Asia/Taipei"@ {
        Some("CST-8"@)
    } else if z == "Asia/Hong_Kong"@ {
        Some("HKT-8"@)
    } else if z == "Asia/Singapore"@ {
        Some("SGT-8"@)
    } else if z == "Asia/Kuala_Lumpur"@ {
        Some("MYT-8"@)
    } else if z == "Asia/Manila"@ {
        Some("PHT-8"@)
    } else if z == "Asia/Makassar"@ {
        Some("WITA-8"@)
    } else if z == "Asia/Brunei"@ {
        Some("BNT-8"@)
    } else if z == "Asia/Tokyo"@ {
        Some("JST-9"@)
    } else if z == "Asia/Seoul"@ || z == "Asia/Pyongyang"@ {
        Some("KST-9"@)
    } else if z == "Asia/Bangkok"@ || z == "Asia/Ho_Chi_Minh"@ || z == "Asia/Phnom_Penh"@
            || z == "Asia/Vientiane"@ {
        Some("ICT-7"@)
    } else if z == "Asia/Jakarta"@ {
        Some("WIB-7"@)
    } else if z == "Asia/Dhaka"@ {
        Some("BST-6"@)
    } else if z == "Asia/Almaty"@ {
        Some("ALMT-6"@)
    } else if z == "Asia/Omsk"@ {
        Some("OMST-6"@)
    } else if z == "Asia/Kolkata"@ || z == "Asia/Calcutta"@ || z == "Asia/Colombo"@ {
        Some("IST-5:30"@)
    } else if z == "Asia/Karachi"@ {
        Some("PKT-5"@)
    } else if z == "Asia/Tashkent"@ {
        Some("UZT-5"@)
    } else if z == "Asia/Yekaterinburg"@ {
        Some("YEKT-5"@)
    } else if z == "Asia/Dubai"@ {
        Some("GST-4"@)
    } else if z == "Asia/Baku"@ {
        Some("AZT-4"@)
    } else if z == "Indian/Mauritius"@ {
        Some("MUT-4"@)
    } else if z == "Europe/Moscow"@ {
        Some("MSK-3"@)
    } else if z == "Asia/Riyadh"@ {
        Some("AST-3"@)
    } else if z == "Asia/Tehran"@ {
        Some("IRST-3:30"@)
    } else if z == "Africa/Nairobi"@ {
        Some("EAT-3"@)
    } else if z == "Europe/Athens"@ || z == "Europe/Bucharest"@ || z == "Africa/Cairo"@
            || z == "Europe/Helsinki"@ {
        Some("EET-2"@)
    } else if z == "Asia/Jerusalem"@ {
        Some("IST-2"@)
    } else if z == "Europe/Paris"@ || z == "Europe/Berlin"@ || z == "Europe/Rome"@
            || z == "Europe/Madrid"@ || z == "Europe/Amsterdam"@ || z == "Europe/Brussels"@
            || z == "Europe/Vienna"@ || z == "Europe/Stockholm"@ || z == "Europe/Oslo"@
            || z == "Europe/Copenhagen"@ || z == "Europe/Warsaw"@ || z == "Europe/Prague"@
            || z == "Europe/Zurich"@ {
        Some("CET-1"@)
    } else if z == "Africa/Lagos"@ {
        Some("WAT-1"@)
    } else if z == "Europe/London"@ || z == "Europe/Dublin"@ || z == "Atlantic/Reykjavik"@ {
        Some("GMT0"@)
    } else if z == "America/Sao_Paulo"@ {
        Some("BRT3"@)
    } else if z == "America/Argentina/Buenos_Aires"@ {
        Some("ART3"@)
    } else if z == "America/Montevideo"@ {
        Some("UYT3"@)
    } else if z == "America/Halifax"@ {
        Some("AST4"@)
    } else if z == "America/Caracas"@ {
        Some("VET4"@)
    } else if z == "America/Santiago"@ {
        Some("CLT4"@)
    } else if z == "America/New_York"@ || z == "America/Toronto"@ || z == "America/Miami"@ {
        Some("EST5"@)
    } else if z == "America/Bogota"@ {
        Some("COT5"@)
    } else if z == "America/Lima"@ {
        Some("PET5"@)
    } else if z == "America/Chicago"@ || z == "America/Mexico_City"@ {
        Some("CST6"@)
    } else if z == "America/Denver"@ {
        Some("MST7"@)
    } else if z == "America/Los_Angeles"@ || z == "America/Tijuana"@ || z == "America/Vancouver"@ {
        Some("PST8"@)
    } else if z == "Pacific/Honolulu"@ {
        Some("HST10"@)
    } else if z == "Australia/Sydney"@ || z == "Australia/Melbourne"@
            || z == "Australia/Brisbane"@ {
        Some("AEST-10"@)
    } else if z == "Australia/Adelaide"@ || z == "Australia/Darwin"@ {
        Some("ACST-9:30"@)
    } else if z == "Pacific/Auckland"@ {
        Some("NZST-12"@)
    } else if z == "Pacific/Fiji"@ {
        Some("FJT-12"@)
    } else if z == "America/St_Johns"@ {
        Some("NST3:30"@)
    } else {
        None
    }
}

/// The name that POSIX has for a zone of the IANA database, as far as it is known here.
pub fn iana_to_posix(zonename: &str) -> (r: Option<String>)
    ensures
        match r {
            Some(p) => posix_zone(zonename@) == Some(p@),
            None => posix_zone(zonename@) is None,
        },
{
    let z = zonename;
    if same(z, "Asia/Shanghai") || same(z, "Asia/Chongqing") || same(z, "Asia/Harbin")
            || same(z, "Asia/Urumqi") || same(z, "Asia/Kashgar") || same(z, "Asia/Macau")
            || same(z, "Asia/Taipei") {
        return Some("CST-8".to_string());
    }
    if same(z, "Asia/Hong_Kong") {
        return Some("HKT-8".to_string());
    }
    if same(z, "Asia/Singapore") {
        return Some("SGT-8".to_string());
    }
    if same(z, "Asia/Kuala_Lumpur") {
        return Some("MYT-8".to_string());
    }
    if same(z, "Asia/Manila") {
        return Some("PHT-8".to_string());
    }
    if same(z, "Asia/Makassar") {
        return Some("WITA-8".to_string());
    }
    if same(z, "Asia/Brunei") {
        return Some("BNT-8".to_string());
    }
    if same(z, "Asia/Tokyo") {
        return Some("JST-9".to_string());
    }
    if same(z, "Asia/Seoul") || same(z, "Asia/Pyongyang") {
        return Some("KST-9".to_string());
    }
    if same(z, "Asia/Bangkok") || same(z, "Asia/Ho_Chi_Minh") || same(z, "Asia/Phnom_Penh")
            || same(z, "Asia/Vientiane") {
        return Some("ICT-7".to_string());
    }
    if same(z, "Asia/Jakarta") {
        return Some("WIB-7".to_string());
    }
    if same(z, "Asia/Dhaka") {
        return Some("BST-6".to_string());
    }
    if same(z, "Asia/Almaty") {
        return Some("ALMT-6".to_string());
    }
    if same(z, "Asia/Omsk") {
        return Some("OMST-6".to_string());
    }
    if same(z, "Asia/Kolkata") || same(z, "Asia/Calcutta") || same(z, "Asia/Colombo") {
        return Some("IST-5:30".to_string());
    }
    if same(z, "Asia/Karachi") {
        return Some("PKT-5".to_string());
    }
    if same(z, "Asia/Tashkent") {
        return Some("UZT-5".to_string());
    }
    if same(z, "Asia/Yekaterinburg") {
        return Some("YEKT-5".to_string());
    }
    if same(z, "Asia/Dubai") {
        return Some("GST-4".to_string());
    }
    if same(z, "Asia/Baku") {
        return Some("AZT-4".to_string());
    }
    if same(z, "Indian/Mauritius") {
        return Some("MUT-4".to_string());
    }
    if same(z, "Europe/Moscow") {
        return Some("MSK-3".to_string());
    }
    if same(z, "Asia/Riyadh") {
        return Some("AST-3".to_string());
    }
    if same(z, "Asia/Tehran") {
        return Some("IRST-3:30".to_string());
    }
    if same(z, "Africa/Nairobi") {
        return Some("EAT-3".to_string());
    }
    if same(z, "Europe/Athens") || same(z, "Europe/Bucharest") || same(z, "Africa/Cairo")
            || same(z, "Europe/Helsinki") {
        return Some("EET-2".to_string());
    }
    if same(z, "Asia/Jerusalem") {
        return Some("IST-2".to_string());
    }
    if same(z, "Europe/Paris") || same(z, "Europe/Berlin") || same(z, "Europe/Rome")
            || same(z, "Europe/Madrid") || same(z, "Europe/Amsterdam")
            || same(z, "Europe/Brussels") || same(z, "Europe/Vienna")
            || same(z, "Europe/Stockholm") || same(z, "Europe/Oslo")
            || same(z, "Europe/Copenhagen") || same(z, "Europe/Warsaw")
            || same(z, "Europe/Prague") || same(z, "Europe/Zurich") {
        return Some("CET-1".to_string());
    }
    if same(z, "Africa/Lagos") {
        return Some("WAT-1".to_string());
    }
    if same(z, "Europe/London") || same(z, "Europe/Dublin") || same(z, "Atlantic/Reykjavik") {
        return Some("GMT0".to_string());
    }
    if same(z, "America/Sao_Paulo") {
        return Some("BRT3".to_string());
    }
    if same(z, "America/Argentina/Buenos_Aires") {
        return Some("ART3".to_string());
    }
    if same(z, "America/Montevideo") {
        return Some("UYT3".to_string());
    }
    if same(z, "America/Halifax") {
        return Some("AST4".to_string());
    }
    if same(z, "America/Caracas") {
        return Some("VET4".to_string());
    }
    if same(z, "America/Santiago") {
        return Some("CLT4".to_string());
    }
    if same(z, "America/New_York") || same(z, "America/Toronto") || same(z, "America/Miami") {
        return Some("EST5".to_string());
    }
    if same(z, "America/Bogota") {
        return Some("COT5".to_string());
    }
    if same(z, "America/Lima") {
        return Some("PET5".to_string());
    }
    if same(z, "America/Chicago") || same(z, "America/Mexico_City") {
        return Some("CST6".to_string());
    }
    if same(z, "America/Denver") {
        return Some("MST7".to_string());
    }
    if same(z, "America/Los_Angeles") || same(z, "America/Tijuana")
            || same(z, "America/Vancouver") {
        return Some("PST8".to_string());
    }
    if same(z, "Pacific/Honolulu") {
        return Some("HST10".to_string());
    }
    if same(z, "Australia/Sydney") || same(z, "Australia/Melbourne")
            || same(z, "Australia/Brisbane") {
        return Some("AEST-10".to_string());
    }
    if same(z, "Australia/Adelaide") || same(z, "Australia/Darwin") {
        return Some("ACST-9:30".to_string());
    }
    if same(z, "Pacific/Auckland") {
        return Some("NZST-12".to_string());
    }
    if same(z, "Pacific/Fiji") {
        return Some("FJT-12".to_string());
    }
    if same(z, "America/St_Johns") {
        return Some("NST3:30".to_string());
    }
    None
}

/// The last POSIX zone that some lines set.
pub open spec fn posix_setting(all: Seq<Seq<char>>) -> Option<Seq<char>>
    decreases all.len(),
{
    if all.len() == 0 {
        None
    } else {
        match uci_value(all.last(), "timezone"@) {
            Some(v) => Some(v),
            None => posix_setting(all.drop_last()),
        }
    }
}

/// The last name of a zone that some lines set.
pub open spec fn zone_setting(all: Seq<Seq<char>>) -> Option<Seq<char>>
    decreases all.len(),
{
    if all.len() == 0 {
        None
    } else if uci_value(all.last(), "timezone"@) is Some {
        zone_setting(all.drop_last())
    } else {
        match uci_value(all.last(), "zonename"@) {
            Some(v) => Some(v),
            None => zone_setting(all.drop_last()),
        }
    }
}

pub open spec fn option_view(s: Option<String>) -> Option<Seq<char>> {
    match s {
        Some(t) => Some(t@),
        None => None,
    }
}

/// What the system configuration says of the time zone.
#[derive(Debug)]
pub struct TimezoneConfig {
    pub posix: Option<String>,
    pub zone: Option<String>,
}

/// Where the time zone comes from.
#[derive(Debug)]
pub enum Timezone {
    /// The POSIX zone of the configuration.
    Posix(String),
    /// A zone of the IANA database, which the system has.
    Installed(String),
    /// The POSIX zone of a zone that the system does not have.
    Converted(String),
    /// UTC, since the zone of the configuration is unknown.
    Unknown,
    /// UTC, since the configuration gives no zone.
    Missing,
}

/// The value of `TZ`. A POSIX zone other than UTC goes first. Of a zone by name the system's own
/// data count, where it has any, and else the POSIX name of it. The rest is UTC.
pub open spec fn tz_value(
    posix: Option<Seq<char>>,
    zone: Option<Seq<char>>,
    installed: bool,
) -> Seq<char> {
    match posix {
        Some(p) if p.len() > 0 && p != "UTC"@ => p,
        _ => match zone {
            Some(z) if z.len() > 0 => if installed {
                z
            } else {
                match posix_zone(z) {
                    Some(p) => p,
                    None => "UTC"@,
                }
            },
            _ => "UTC"@,
        },
    }
}

/// `tz` is the time zone that a configuration leads to, and says where it comes from.
pub open spec fn resolved(
    posix: Option<Seq<char>>,
    zone: Option<Seq<char>>,
    installed: bool,
    tz: Timezone,
) -> bool {
    match posix {
        Some(p) if p.len() > 0 && p != "UTC"@ => tz matches Timezone::Posix(s) && s@ == p,
        _ => match zone {
            Some(z) if z.len() > 0 => if installed {
                tz matches Timezone::Installed(s) && s@ == z
            } else {
                match posix_zone(z) {
                    Some(p) => tz matches Timezone::Converted(s) && s@ == p,
                    None => tz is Unknown,
                }
            },
            _ => tz is Missing,
        },
    }
}

impl Timezone {
    pub open spec fn tz_spec(self) -> Seq<char> {
        match self {
            Timezone::Posix(s) => s@,
            Timezone::Installed(s) => s@,
            Timezone::Converted(s) => s@,
            Timezone::Unknown => "UTC"@,
            Timezone::Missing => "UTC"@,
        }
    }

    /// The value of `TZ`.
    pub fn tz(&self) -> (r: String)
        ensures
            r@ == self.tz_spec(),
    {
        match self {
            Timezone::Posix(s) => s.clone(),
            Timezone::Installed(s) => s.clone(),
            Timezone::Converted(s) => s.clone(),
            Timezone::Unknown => "UTC".to_string(),
            Timezone::Missing => "UTC".to_string(),
        }
    }
}

/// The file of the system's zone database that tells whether it has the zone that counts.
pub open spec fn zone_file(posix: Option<Seq<char>>, zone: Option<Seq<char>>) -> Option<Seq<char>> {
    match posix {
        Some(p) if p.len() > 0 && p != "UTC"@ => None,
        _ => match zone {
            Some(z) if z.len() > 0 => Some("/usr/share/zoneinfo/"@ + z),
            _ => None,
        },
    }
}

impl TimezoneConfig {
    /// Reads `/etc/config/system`.
    pub fn parse(content: &str) -> (r: TimezoneConfig)
        ensures
            option_view(r.posix) == posix_setting(lines(content@)),
            option_view(r.zone) == zone_setting(lines(content@)),
    {
        let cs = chars_of(content);
        let all = split_lines(cs.as_slice());
        let mut posix: Option<String> = None;
        let mut zone: Option<String> = None;
        let mut i: usize = 0;
        proof {
            assert(lines(content@).take(0) == Seq::<Seq<char>>::empty());
        }
        while i < all.len()
            invariant
                i <= all.len(),
                views(all@) == lines(content@),
                option_view(posix) == posix_setting(lines(content@).take(i as int)),
                option_view(zone) == zone_setting(lines(content@).take(i as int)),
            decreases all.len() - i,
        {
            let line = string_of(all[i].as_slice());
            proof {
                let longer = lines(content@).take(i + 1);
                assert(longer.drop_last() == lines(content@).take(i as int));
                assert(longer.last() == views(all@)[i as int]);
            }
            match parse_uci_option(line.as_str(), "timezone") {
                Some(v) => {
                    posix = Some(v);
                },
                None => {
                    if let Some(v) = parse_uci_option(line.as_str(), "zonename") {
                        zone = Some(v);
                    }
                },
            }
            i += 1;
        }
        assert(lines(content@).take(i as int) == lines(content@));
        TimezoneConfig { posix, zone }
    }

    /// The file of the system's zone database that tells whether it has the zone. There is none
    /// where a POSIX zone counts, or no zone is named.
    pub fn zoneinfo_path(&self) -> (r: Option<String>)
        ensures
            option_view(r) == zone_file(option_view(self.posix), option_view(self.zone)),
            ({
                let named = !(option_view(self.posix) matches Some(p) && p.len() > 0 && p != "UTC"@)
                    && (option_view(self.zone) matches Some(z) && z.len() > 0);
                match r {
                    Some(p) => named && p@ == "/usr/share/zoneinfo/"@ + option_view(
                        self.zone,
                    )->Some_0,
                    None => !named,
                }
            }),
    {
        if let Some(p) = &self.posix {
            if !p.as_str().is_empty() && !same(p.as_str(), "UTC") {
                return None;
            }
        }
        match &self.zone {
            Some(z) if !z.as_str().is_empty() => Some(join2("/usr/share/zoneinfo/", z.as_str())),
            _ => None,
        }
    }

    /// Chooses the time zone, where `installed` says whether the file of `zoneinfo_path` exists.
    pub fn resolve(&self, installed: bool) -> (r: Timezone)
        ensures
            resolved(option_view(self.posix), option_view(self.zone), installed, r),
            r.tz_spec() == tz_value(option_view(self.posix), option_view(self.zone), installed),
    {
        if let Some(p) = &self.posix {
            if !p.as_str().is_empty() && !same(p.as_str(), "UTC") {
                return Timezone::Posix(p.clone());
            }
        }
        if let Some(z) = &self.zone {
            if !z.as_str().is_empty() {
                if installed {
                    return Timezone::Installed(z.clone());
                }
                if let Some(p) = iana_to_posix(z.as_str()) {
                    return Timezone::Converted(p);
                }
                return Timezone::Unknown;
            }
        }
        Timezone::Missing
    }
}

/// A POSIX zone goes before a zone by name.
pub proof fn posix_zone_goes_first(posix: Seq<char>, zone: Option<Seq<char>>, installed: bool)
    requires
        posix.len() > 0,
        posix != "UTC"@,
    ensures
        tz_value(Some(posix), zone, installed) == posix,
{
}

/// UTC as a POSIX zone says as little as none: a zone by name goes before it.
pub proof fn utc_gives_way_to_a_named_zone(zone: Option<Seq<char>>, installed: bool)
    ensures
        tz_value(Some("UTC"@), zone, installed) == tz_value(None, zone, installed),
{
}

} // verus!
