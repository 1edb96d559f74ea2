//! The weather: where to ask for it, and the line of text that comes of an answer.
//!
//! The temperatures come as texts, rounded to whole degrees unless something
//! else is said.
use vstd::prelude::*;
use crate::number::{read_i32, signed_number};
use crate::text::{chars_of, contains, holds, join2, join3, lower, lowered, same, trim, trimmed};

verus! {

/// What came of a request for data.
#[derive(Debug)]
pub enum Reply<T> {
    /// The server could not be reached.
    NetErr,
    /// It did not send the data in their form.
    JsonErr,
    Data(T),
}

/// Who is asked for the weather.
#[derive(Clone, Copy, Debug, PartialEq, Eq, Structural)]
pub enum WeatherSource {
    Uapis,
    Wttr,
    Seniverse,
    OpenMeteo,
}

/// The source of a setting. The first one stands for all other names.
pub open spec fn source_named(s: Seq<char>) -> WeatherSource {
    if s == "wttr"@ {
        WeatherSource::Wttr
    } else if s == "seniverse"@ {
        WeatherSource::Seniverse
    } else if s == "openmeteo"@ {
        WeatherSource::OpenMeteo
    } else {
        WeatherSource::Uapis
    }
}

/// The city of a setting.
pub open spec fn city_or_default(city: Seq<char>) -> Seq<char> {
    if city.len() == 0 {
        "北京"@
    } else {
        city
    }
}

/// The first request to send.
pub open spec fn first_url(source: WeatherSource, key: Seq<char>, city: Seq<char>) -> Seq<char> {
    match source {
        WeatherSource::Uapis => "https://uapis.cn/api/v1/misc/weather?city="@ + city
            + "&forecast=true"@,
        WeatherSource::Wttr => "https://wttr.in/"@ + city + "?format=j1"@,
        WeatherSource::Seniverse => "https://api.seniverse.com/v3/weather/daily.json?key="@ + key
            + "&location="@ + city + "&language=en&unit=c&start=0&days=1"@,
        WeatherSource::OpenMeteo => "https://geocoding-api.open-meteo.com/v1/search?name="@ + city
            + "&count=1&language=zh&format=json"@,
    }
}

/// What to ask, and whom.
#[derive(Debug)]
pub enum WeatherRequest {
    /// Send this request to this source.
    Ask(WeatherSource, String),
    /// The source wants a key and has none: the text of the failure.
    NoKey(String),
}

/// `r` is what to ask for the weather of a city.
pub open spec fn asks(r: WeatherRequest, source: Seq<char>, key: Seq<char>, city: Seq<char>) -> bool {
    let who = source_named(source);
    if who == WeatherSource::Seniverse && trimmed(key).len() == 0 {
        r matches WeatherRequest::NoKey(s) && s@ == "W:NoKey"@
    } else {
        r matches WeatherRequest::Ask(w, url) && w == who && url@ == first_url(
            who,
            key,
            city_or_default(city),
        )
    }
}

/// What to ask for the weather of a city, where `weather_source` and `weather_city` may be left
/// empty.
pub fn weather_request(weather_source: &str, seniverse_key: &str, weather_city: &str) -> (r:
    WeatherRequest)
    ensures
        asks(r, weather_source@, seniverse_key@, weather_city@),
        ({
            let source = source_named(weather_source@);
            if source == WeatherSource::Seniverse && trimmed(seniverse_key@).len() == 0 {
                r matches WeatherRequest::NoKey(s) && s@ == "W:NoKey"@
            } else {
                r matches WeatherRequest::Ask(who, url) && who == source && url@ == first_url(
                    source,
                    seniverse_key@,
                    city_or_default(weather_city@),
                )
            }
        }),
{
    let default_city = "北京";
    let city = if weather_city.is_empty() {
        default_city
    } else {
        weather_city
    };
    if same(weather_source, "wttr") {
        WeatherRequest::Ask(WeatherSource::Wttr, join3("https://wttr.in/", city, "?format=j1"))
    } else if same(weather_source, "seniverse") {
        let key = chars_of(seniverse_key);
        if trim(key.as_slice()).len() == 0 {
            return WeatherRequest::NoKey("W:NoKey".to_string());
        }
        let mut url = join3(
            "https://api.seniverse.com/v3/weather/daily.json?key=",
            seniverse_key,
            "&location=",
        );
        url.append(city);
        url.append("&language=en&unit=c&start=0&days=1");
        WeatherRequest::Ask(WeatherSource::Seniverse, url)
    } else if same(weather_source, "openmeteo") {
        WeatherRequest::Ask(
            WeatherSource::OpenMeteo,
            join3(
                "https://geocoding-api.open-meteo.com/v1/search?name=",
                city,
                "&count=1&language=zh&format=json",
            ),
        )
    } else {
        WeatherRequest::Ask(
            WeatherSource::Uapis,
            join3("https://uapis.cn/api/v1/misc/weather?city=", city, "&forecast=true"),
        )
    }
}

/// An icon, the temperature, and the range of the day.
pub open spec fn forecast(icon: Seq<char>, t: Seq<char>, low: Seq<char>, high: Seq<char>) -> Seq<
    char,
> {
    icon + " "@ + t + "℃ "@ + low + "-"@ + high
}

/// An icon, the temperature, and the range of the day.
pub fn forecast_line(icon: &str, t: &str, low: &str, high: &str) -> (r: String)
    ensures
        r@ == forecast(icon@, t@, low@, high@),
{
    let mut s = join3(icon, " ", t);
    s.append("℃ ");
    s.append(low);
    s.append("-");
    s.append(high);
    s
}

/// The text of a reply without data.
pub open spec fn failure<T>(reply: Reply<T>) -> Option<Seq<char>> {
    match reply {
        Reply::NetErr => Some("W:NetErr"@),
        Reply::JsonErr => Some("W:JsonErr"@),
        Reply::Data(_) => None,
    }
}

/// An answer of uapis.
#[derive(Debug)]
pub struct UapisWeather {
    pub weather: String,
    pub temperature: String,
    pub temp_max: Option<String>,
    pub temp_min: Option<String>,
}

/// The icon of a description in Chinese.
pub open spec fn chinese_icon(s: Seq<char>) -> Seq<char> {
    if contains(s, "雨"@) {
        "☂"@
    } else if contains(s, "雪"@) {
        "❄"@
    } else if contains(s, "云"@) || contains(s, "阴"@) || contains(s, "雾"@) || contains(
        s,
        "霾"@,
    ) {
        "☁"@
    } else {
        "☀"@
    }
}

pub open spec fn text_or(s: Option<String>, other: Seq<char>) -> Seq<char> {
    match s {
        Some(t) => t@,
        None => other,
    }
}

fn pick_text<'a>(s: &'a Option<String>, other: &'a str) -> (r: &'a str)
    ensures
        r@ == text_or(*s, other@),
{
    match s {
        Some(t) => t.as_str(),
        None => other,
    }
}

/// The line for an answer of uapis.
pub open spec fn uapis_line(reply: Reply<UapisWeather>) -> Seq<char> {
    match reply {
        Reply::Data(d) => forecast(
            chinese_icon(d.weather@),
            d.temperature@,
            text_or(d.temp_min, d.temperature@),
            text_or(d.temp_max, d.temperature@),
        ),
        _ => failure(reply)->Some_0,
    }
}

/// The line for an answer of uapis. Where a bound of the day is missing, the temperature stands
/// for it.
pub fn weather_uapis(reply: &Reply<UapisWeather>) -> (r: String)
    ensures
        r@ == uapis_line(*reply),
        match *reply {
            Reply::Data(d) => r@ == forecast(
                chinese_icon(d.weather@),
                d.temperature@,
                text_or(d.temp_min, d.temperature@),
                text_or(d.temp_max, d.temperature@),
            ),
            _ => Some(r@) == failure(*reply),
        },
{
    match reply {
        Reply::NetErr => "W:NetErr".to_string(),
        Reply::JsonErr => "W:JsonErr".to_string(),
        Reply::Data(d) => {
            let s = d.weather.as_str();
            let icon = if holds(s, "雨") {
                "☂"
            } else if holds(s, "雪") {
                "❄"
            } else if holds(s, "云") || holds(s, "阴") || holds(s, "雾") || holds(s, "霾") {
                "☁"
            } else {
                "☀"
            };
            let t = d.temperature.as_str();
            forecast_line(icon, t, pick_text(&d.temp_min, t), pick_text(&d.temp_max, t))
        },
    }
}

/// The weather of the moment, by wttr.
#[derive(Debug)]
pub struct WttrCurrent {
    pub temp_c: String,
    pub weather_desc: Vec<String>,
}

/// The weather of a day, by wttr.
#[derive(Debug)]
pub struct WttrDaily {
    pub max_temp_c: String,
    pub min_temp_c: String,
}

/// An answer of wttr.
#[derive(Debug)]
pub struct WttrResult {
    pub current_condition: Vec<WttrCurrent>,
    pub weather: Vec<WttrDaily>,
}

/// The icon of a description in English, in small letters.
pub open spec fn english_icon(s: Seq<char>) -> Seq<char> {
    if contains(s, "rain"@) || contains(s, "shower"@) || contains(s, "drizzle"@) {
        "☂"@
    } else if contains(s, "snow"@) || contains(s, "ice"@) || contains(s, "hail"@) {
        "❄"@
    } else if contains(s, "thunder"@) {
        "⚡"@
    } else if contains(s, "cloud"@) || contains(s, "overcast"@) {
        "☁"@
    } else if contains(s, "mist"@) || contains(s, "fog"@) {
        "🌫"@
    } else {
        "☀"@
    }
}

/// The icon of a description in English, in small letters.
pub fn icon_in_english(s: &str) -> (r: &'static str)
    ensures
        r@ == english_icon(s@),
{
    if holds(s, "rain") || holds(s, "shower") || holds(s, "drizzle") {
        "☂"
    } else if holds(s, "snow") || holds(s, "ice") || holds(s, "hail") {
        "❄"
    } else if holds(s, "thunder") {
        "⚡"
    } else if holds(s, "cloud") || holds(s, "overcast") {
        "☁"
    } else if holds(s, "mist") || holds(s, "fog") {
        "🌫"
    } else {
        "☀"
    }
}

/// The first description, in small letters, or none.
pub open spec fn lowered_description(c: WttrCurrent) -> Seq<char> {
    if c.weather_desc@.len() > 0 {
        lowered(c.weather_desc@[0]@)
    } else {
        seq![]
    }
}

/// The line for an answer of wttr.
pub open spec fn wttr_line(reply: Reply<WttrResult>) -> Seq<char> {
    match reply {
        Reply::Data(j) => if j.current_condition@.len() > 0 && j.weather@.len() > 0 {
            forecast(
                english_icon(lowered_description(j.current_condition@[0])),
                j.current_condition@[0].temp_c@,
                j.weather@[0].min_temp_c@,
                j.weather@[0].max_temp_c@,
            )
        } else {
            "W:DataErr"@
        },
        _ => failure(reply)->Some_0,
    }
}

/// The line for an answer of wttr: its first moment, and its first day.
pub fn weather_wttr(reply: &Reply<WttrResult>) -> (r: String)
    ensures
        r@ == wttr_line(*reply),
        match *reply {
            Reply::Data(j) => if j.current_condition@.len() > 0 && j.weather@.len() > 0 {
                r@ == forecast(
                    english_icon(lowered_description(j.current_condition@[0])),
                    j.current_condition@[0].temp_c@,
                    j.weather@[0].min_temp_c@,
                    j.weather@[0].max_temp_c@,
                )
            } else {
                r@ == "W:DataErr"@
            },
            _ => Some(r@) == failure(*reply),
        },
{
    match reply {
        Reply::NetErr => "W:NetErr".to_string(),
        Reply::JsonErr => "W:JsonErr".to_string(),
        Reply::Data(j) => {
            if j.current_condition.len() == 0 || j.weather.len() == 0 {
                return "W:DataErr".to_string();
            }
            let c = &j.current_condition[0];
            let d = &j.weather[0];
            let desc = if c.weather_desc.len() > 0 {
                lower(c.weather_desc[0].as_str())
            } else {
                String::new()
            };
            forecast_line(
                icon_in_english(desc.as_str()),
                c.temp_c.as_str(),
                d.min_temp_c.as_str(),
                d.max_temp_c.as_str(),
            )
        },
    }
}

/// The weather of a day, by seniverse.
#[derive(Debug)]
pub struct SeniverseDaily {
    pub high: String,
    pub low: String,
    pub code_day: String,
}

/// The days of a place, by seniverse.
#[derive(Debug)]
pub struct SeniverseResult {
    pub daily: Vec<SeniverseDaily>,
}

/// An answer of seniverse.
#[derive(Debug)]
pub struct SeniverseResponse {
    pub results: Vec<SeniverseResult>,
}

/// The first day of the first place.
pub fn seniverse_day(reply: &Reply<SeniverseResponse>) -> (r: Result<&SeniverseDaily, String>)
    ensures
        match *reply {
            Reply::Data(j) => if j.results@.len() > 0 && j.results@[0].daily@.len() > 0 {
                r == Ok::<&SeniverseDaily, String>(&j.results@[0].daily@[0])
            } else {
                r matches Err(e) && e@ == "W:DataErr"@
            },
            _ => r matches Err(e) && Some(e@) == failure(*reply),
        },
{
    match reply {
        Reply::NetErr => Err("W:NetErr".to_string()),
        Reply::JsonErr => Err("W:JsonErr".to_string()),
        Reply::Data(j) => {
            if j.results.len() > 0 && j.results[0].daily.len() > 0 {
                Ok(&j.results[0].daily[0])
            } else {
                Err("W:DataErr".to_string())
            }
        },
    }
}

/// The icon of a code of seniverse. A text that is no number is as good as an unknown code.
pub open spec fn seniverse_icon(code_day: Seq<char>) -> Seq<char> {
    match signed_number(code_day) {
        Some(c) => if 0 <= c <= 3 {
            "☀"@
        } else if 4 <= c <= 9 {
            "☁"@
        } else if 10 <= c <= 19 {
            "☂"@
        } else if 20 <= c <= 29 {
            "❄"@
        } else if 30 <= c <= 36 {
            "☁"@
        } else {
            "☀"@
        },
        None => "☀"@,
    }
}

/// The line for a day of seniverse, where `t` is the middle between its bounds.
pub fn weather_seniverse(code_day: &str, t: &str, low: &str, high: &str) -> (r: String)
    ensures
        r@ == forecast(seniverse_icon(code_day@), t@, low@, high@),
{
    let code: i32 = match read_i32(code_day) {
        Some(c) => c,
        None => 99,
    };
    let icon = if 0 <= code && code <= 3 {
        "☀"
    } else if 4 <= code && code <= 9 {
        "☁"
    } else if 10 <= code && code <= 19 {
        "☂"
    } else if 20 <= code && code <= 29 {
        "❄"
    } else if 30 <= code && code <= 36 {
        "☁"
    } else {
        "☀"
    };
    forecast_line(icon, t, low, high)
}

/// A place, by open-meteo: its latitude and longitude, as texts.
#[derive(Debug)]
pub struct OmLocation {
    pub latitude: String,
    pub longitude: String,
}

/// An answer of open-meteo's search for a place.
#[derive(Debug)]
pub struct OmGeoResponse {
    pub results: Option<Vec<OmLocation>>,
}

/// The request for the weather of a place.
pub open spec fn forecast_url(latitude: Seq<char>, longitude: Seq<char>) -> Seq<char> {
    "https://api.open-meteo.com/v1/forecast?latitude="@ + latitude + "&longitude="@ + longitude
        + "&current_weather=true&daily=temperature_2m_max,temperature_2m_min&forecast_days=1&timezone=auto"@
}

/// `r` is the request for the weather of the first place that was found, or the text of the failure.
pub open spec fn asks_for_place(r: Result<String, String>, reply: Reply<OmGeoResponse>) -> bool {
    match reply {
        Reply::NetErr => r matches Err(e) && e@ == "W:GeoNet"@,
        Reply::JsonErr => r matches Err(e) && e@ == "W:GeoJson"@,
        Reply::Data(g) => match g.results {
            Some(v) if v@.len() > 0 => r matches Ok(url) && url@ == forecast_url(
                v@[0].latitude@,
                v@[0].longitude@,
            ),
            _ => r matches Err(e) && e@ == "W:NoCity"@,
        },
    }
}

/// The request for the weather of the first place that was found, or the text of the failure.
pub fn openmeteo_forecast_url(reply: &Reply<OmGeoResponse>) -> (r: Result<String, String>)
    ensures
        asks_for_place(r, *reply),
        match *reply {
            Reply::NetErr => r matches Err(e) && e@ == "W:GeoNet"@,
            Reply::JsonErr => r matches Err(e) && e@ == "W:GeoJson"@,
            Reply::Data(g) => match g.results {
                Some(v) if v@.len() > 0 => r matches Ok(url) && url@ == forecast_url(
                    v@[0].latitude@,
                    v@[0].longitude@,
                ),
                _ => r matches Err(e) && e@ == "W:NoCity"@,
            },
        },
{
    match reply {
        Reply::NetErr => Err("W:GeoNet".to_string()),
        Reply::JsonErr => Err("W:GeoJson".to_string()),
        Reply::Data(g) => {
            if let Some(v) = &g.results {
                if v.len() > 0 {
                    let mut url = join3(
                        "https://api.open-meteo.com/v1/forecast?latitude=",
                        v[0].latitude.as_str(),
                        "&longitude=",
                    );
                    url.append(v[0].longitude.as_str());
                    url.append(
                        "&current_weather=true&daily=temperature_2m_max,temperature_2m_min&forecast_days=1&timezone=auto",
                    );
                    return Ok(url);
                }
            }
            Err("W:NoCity".to_string())
        },
    }
}

/// The bounds of the days, by open-meteo.
#[derive(Debug)]
pub struct OmDaily {
    pub temperature_max: Vec<String>,
    pub temperature_min: Vec<String>,
}

/// An answer of open-meteo. The temperature comes in whole degrees and in tenths.
#[derive(Debug)]
pub struct OmWeatherResponse {
    pub weathercode: u8,
    pub temperature: String,
    pub temperature_tenths: String,
    pub daily: Option<OmDaily>,
}

/// The icon of a code of open-meteo.
pub open spec fn openmeteo_icon(code: u8) -> Seq<char> {
    if code == 0 {
        "☀"@
    } else if 1 <= code <= 3 {
        "☁"@
    } else if code == 45 || code == 48 {
        "🌫"@
    } else if 51 <= code <= 67 || 80 <= code <= 82 {
        "☂"@
    } else if 71 <= code <= 77 || 85 <= code <= 86 {
        "❄"@
    } else if 95 <= code <= 99 {
        "⚡"@
    } else {
        "☁"@
    }
}

pub open spec fn first_or(v: Seq<String>, other: Seq<char>) -> Seq<char> {
    if v.len() > 0 {
        v[0]@
    } else {
        other
    }
}

fn pick_first<'a>(v: &'a Vec<String>, other: &'a str) -> (r: &'a str)
    ensures
        r@ == first_or(v@, other@),
{
    if v.len() > 0 {
        v[0].as_str()
    } else {
        other
    }
}

/// The line for an answer of open-meteo.
pub open spec fn openmeteo_line(reply: Reply<OmWeatherResponse>) -> Seq<char> {
    match reply {
        Reply::Data(d) => match d.daily {
            Some(days) => forecast(
                openmeteo_icon(d.weathercode),
                d.temperature@,
                first_or(days.temperature_min@, d.temperature@),
                first_or(days.temperature_max@, d.temperature@),
            ),
            None => openmeteo_icon(d.weathercode) + " "@ + d.temperature_tenths@ + "℃"@,
        },
        _ => failure(reply)->Some_0,
    }
}

/// The line for an answer of open-meteo. Without days it is the temperature alone, in tenths.
pub fn weather_openmeteo(reply: &Reply<OmWeatherResponse>) -> (r: String)
    ensures
        r@ == openmeteo_line(*reply),
        match *reply {
            Reply::Data(d) => r@ == (match d.daily {
                Some(days) => forecast(
                    openmeteo_icon(d.weathercode),
                    d.temperature@,
                    first_or(days.temperature_min@, d.temperature@),
                    first_or(days.temperature_max@, d.temperature@),
                ),
                None => openmeteo_icon(d.weathercode) + " "@ + d.temperature_tenths@ + "℃"@,
            }),
            _ => Some(r@) == failure(*reply),
        },
{
    match reply {
        Reply::NetErr => "W:NetErr".to_string(),
        Reply::JsonErr => "W:JsonErr".to_string(),
        Reply::Data(d) => {
            let code = d.weathercode;
            let icon = if code == 0 {
                "☀"
            } else if 1 <= code && code <= 3 {
                "☁"
            } else if code == 45 || code == 48 {
                "🌫"
            } else if (51 <= code && code <= 67) || (80 <= code && code <= 82) {
                "☂"
            } else if (71 <= code && code <= 77) || (85 <= code && code <= 86) {
                "❄"
            } else if 95 <= code && code <= 99 {
                "⚡"
            } else {
                "☁"
            };
            let t = d.temperature.as_str();
            match &d.daily {
                Some(days) => forecast_line(
                    icon,
                    t,
                    pick_first(&days.temperature_min, t),
                    pick_first(&days.temperature_max, t),
                ),
                None => join2(join3(icon, " ", d.temperature_tenths.as_str()).as_str(), "℃"),
            }
        },
    }
}

} // verus!
