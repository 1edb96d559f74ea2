//! What holds of the weather: which icon a description has, and how a line of weather is made up
//! and shown.
use vstd::prelude::*;
use vstd::utf8::is_ascii_chars;
use crate::modules::{leading_temperature, shows_weather, weather_tail, WeatherFace};
use crate::monitor::other_icon;
use crate::number::{all_digits, decimal, decimal_reads_back, signed_number};
use crate::text::{
    ascii_lower, ends_with, in_class, is_digit, is_white, run, starts_with, trimmed,
    words, Class,
};
use crate::text_laws::{
    all_in, contained_character_stands_somewhere, contained_is_a_part, free_of, has_part, is_word,
    part_is_contained, run_is_as_long_as_it_can_be, signed_numbers_read_back,
    text_is_cut_at_the_first, trimming_takes_the_blanks, words_come_apart,
};
use crate::weather::{
    asks, asks_for_place, chinese_icon, city_or_default, english_icon, failure, first_or, first_url, forecast,
    forecast_url, lowered_description, openmeteo_icon, openmeteo_line, seniverse_icon, source_named,
    text_or, uapis_line, wttr_line, OmGeoResponse, OmWeatherResponse, Reply, UapisWeather, WeatherRequest,
    WeatherSource, WttrCurrent, WttrResult,
};

verus! {

/// A description in Chinese that holds the character for rain has the umbrella; one with snow and
/// no rain the flake; one with a cloud, an overcast sky, fog or haze and neither of the two the
/// cloud; every other one the sun.
pub proof fn description_has_its_icon(s: Seq<char>)
    ensures
        !free_of(s, '雨') ==> chinese_icon(s) == seq!['☂'],
        free_of(s, '雨') && !free_of(s, '雪') ==> chinese_icon(s) == seq!['❄'],
        free_of(s, '雨') && free_of(s, '雪') && !(free_of(s, '云') && free_of(s, '阴') && free_of(
            s,
            '雾',
        ) && free_of(s, '霾')) ==> chinese_icon(s) == seq!['☁'],
        free_of(s, '雨') && free_of(s, '雪') && free_of(s, '云') && free_of(s, '阴') && free_of(
            s,
            '雾',
        ) && free_of(s, '霾') ==> chinese_icon(s) == seq!['☀'],
{
    reveal_strlit("雨");
    reveal_strlit("雪");
    reveal_strlit("云");
    reveal_strlit("阴");
    reveal_strlit("雾");
    reveal_strlit("霾");
    reveal_strlit("☂");
    reveal_strlit("❄");
    reveal_strlit("☁");
    reveal_strlit("☀");
    assert("雨"@ =~= seq!['雨']);
    assert("雪"@ =~= seq!['雪']);
    assert("云"@ =~= seq!['云']);
    assert("阴"@ =~= seq!['阴']);
    assert("雾"@ =~= seq!['雾']);
    assert("霾"@ =~= seq!['霾']);
    assert("☂"@ =~= seq!['☂']);
    assert("❄"@ =~= seq!['❄']);
    assert("☁"@ =~= seq!['☁']);
    assert("☀"@ =~= seq!['☀']);
    contained_character_stands_somewhere(s, '雨');
    contained_character_stands_somewhere(s, '雪');
    contained_character_stands_somewhere(s, '云');
    contained_character_stands_somewhere(s, '阴');
    contained_character_stands_somewhere(s, '雾');
    contained_character_stands_somewhere(s, '霾');
}

/// A description in English speaks of rain.
pub open spec fn is_wet(s: Seq<char>) -> bool {
    has_part(s, "rain"@) || has_part(s, "shower"@) || has_part(s, "drizzle"@)
}

/// A description in English speaks of what is frozen.
pub open spec fn is_frozen(s: Seq<char>) -> bool {
    has_part(s, "snow"@) || has_part(s, "ice"@) || has_part(s, "hail"@)
}

/// A description in English has the first of these icons that fits: the umbrella for rain, the
/// flake for what is frozen, the flash for thunder, the cloud, fog, and for all else the sun.
pub proof fn english_description_has_its_icon(s: Seq<char>)
    ensures
        is_wet(s) ==> english_icon(s) == "☂"@,
        !is_wet(s) && is_frozen(s) ==> english_icon(s) == "❄"@,
        !is_wet(s) && !is_frozen(s) && has_part(s, "thunder"@) ==> english_icon(s) == "⚡"@,
        !is_wet(s) && !is_frozen(s) && !has_part(s, "thunder"@) ==> {
            &&& has_part(s, "cloud"@) || has_part(s, "overcast"@) ==> english_icon(s) == "☁"@
            &&& !has_part(s, "cloud"@) && !has_part(s, "overcast"@) ==> {
                &&& has_part(s, "mist"@) || has_part(s, "fog"@) ==> english_icon(s) == "🌫"@
                &&& !has_part(s, "mist"@) && !has_part(s, "fog"@) ==> english_icon(s) == "☀"@
            }
        },
{
    part_is_contained(s, "rain"@);
    part_is_contained(s, "shower"@);
    part_is_contained(s, "drizzle"@);
    part_is_contained(s, "snow"@);
    part_is_contained(s, "ice"@);
    part_is_contained(s, "hail"@);
    part_is_contained(s, "thunder"@);
    part_is_contained(s, "cloud"@);
    part_is_contained(s, "overcast"@);
    part_is_contained(s, "mist"@);
    part_is_contained(s, "fog"@);
}

/// How a description in English is written, in large letters or in small ones, makes no
/// difference; only the first one counts.
pub proof fn size_of_letters_does_not_count(c: WttrCurrent, d: WttrCurrent)
    requires
        c.weather_desc@.len() > 0,
        d.weather_desc@.len() > 0,
        is_ascii_chars(c.weather_desc@[0]@),
        is_ascii_chars(d.weather_desc@[0]@),
        ascii_lower(c.weather_desc@[0]@) == ascii_lower(d.weather_desc@[0]@),
    ensures
        lowered_description(c) == lowered_description(d),
        lowered_description(c).len() == c.weather_desc@[0]@.len(),
        forall|i: int|
            0 <= i < c.weather_desc@[0]@.len() && 'a' as u32 <= (#[trigger] c.weather_desc@[0]@[i])
                as u32 <= 'z' as u32 ==> lowered_description(c)[i] == c.weather_desc@[0]@[i],
{
}

/// Without a description the weather is taken for fair.
pub proof fn no_description_is_the_sun(c: WttrCurrent)
    requires
        c.weather_desc@.len() == 0,
    ensures
        english_icon(lowered_description(c)) == "☀"@,
{
    let s = lowered_description(c);
    reveal_strlit("rain");
    reveal_strlit("shower");
    reveal_strlit("drizzle");
    reveal_strlit("snow");
    reveal_strlit("ice");
    reveal_strlit("hail");
    reveal_strlit("thunder");
    reveal_strlit("cloud");
    reveal_strlit("overcast");
    reveal_strlit("mist");
    reveal_strlit("fog");
    assert(s.len() == 0);
}

/// A code of seniverse, with a plus sign or without, has the icon of its range; one below zero or
/// above all ranges, and a text that is no number, have the sun.
pub proof fn code_of_seniverse_has_its_icon(n: nat, s: Seq<char>)
    ensures
        n <= 3 ==> seniverse_icon(decimal(n)) == "☀"@,
        4 <= n <= 9 ==> seniverse_icon(decimal(n)) == "☁"@,
        10 <= n <= 19 ==> seniverse_icon(decimal(n)) == "☂"@,
        20 <= n <= 29 ==> seniverse_icon(decimal(n)) == "❄"@,
        30 <= n <= 36 ==> seniverse_icon(decimal(n)) == "☁"@,
        n > 36 ==> seniverse_icon(decimal(n)) == "☀"@,
        seniverse_icon(seq!['+'] + decimal(n)) == seniverse_icon(decimal(n)),
        seniverse_icon(seq!['-'] + decimal(n)) == "☀"@,
        (forall|i: int| 0 <= i < s.len() ==> !is_digit(#[trigger] s[i])) ==> seniverse_icon(s)
            == "☀"@,
{
    signed_numbers_read_back(n, s);
    decimal_reads_back(n);
    let p = seq!['+'] + decimal(n);
    assert(p.skip(1) == decimal(n));
    assert(is_digit(decimal(n)[0]));
    assert(signed_number(p) == signed_number(decimal(n)));
    if forall|i: int| 0 <= i < s.len() ==> !is_digit(#[trigger] s[i]) {
        if s.len() > 0 && all_digits(s) {
            assert(is_digit(s[0]));
        }
        if s.len() > 1 && all_digits(s.skip(1)) {
            assert(is_digit(s.skip(1)[0]));
            assert(s.skip(1)[0] == s[1]);
        }
    }
}

/// A code of open-meteo has the icon of its kind of weather.
pub proof fn code_of_openmeteo_has_its_icon(code: u8)
    ensures
        openmeteo_icon(0) == "☀"@,
        code == 1 || code == 2 || code == 3 ==> openmeteo_icon(code) == "☁"@,
        code == 45 || code == 48 ==> openmeteo_icon(code) == "🌫"@,
        50 < code < 68 || code == 80 || code == 81 || code == 82 ==> openmeteo_icon(code) == "☂"@,
        70 < code < 78 || code == 85 || code == 86 ==> openmeteo_icon(code) == "❄"@,
        94 < code < 100 ==> openmeteo_icon(code) == "⚡"@,
        3 < code < 45 || 45 < code < 48 || 48 < code < 51 || 67 < code < 71 || 77 < code < 80 || 82
            < code < 85 || 86 < code < 95 || code > 99 ==> openmeteo_icon(code) == "☁"@,
{
}

/// Five icons have a second shape. No other icon changes.
pub proof fn five_icons_move(s: Seq<char>)
    ensures
        other_icon(seq!['☀']) == seq!['☼'],
        other_icon(seq!['☂']) == seq!['☔'],
        other_icon(seq!['☁']) == seq!['🌥'],
        other_icon(seq!['❄']) == seq!['❅'],
        other_icon(seq!['⚡']) == seq!['☇'],
        s.len() != 1 ==> other_icon(s) == s,
        s.len() == 1 && s[0] != '☀' && s[0] != '☂' && s[0] != '☁' && s[0] != '❄' && s[0] != '⚡'
            ==> other_icon(s) == s,
{
    reveal_strlit("☀");
    reveal_strlit("☼");
    reveal_strlit("☂");
    reveal_strlit("☔");
    reveal_strlit("☁");
    reveal_strlit("🌥");
    reveal_strlit("❄");
    reveal_strlit("❅");
    reveal_strlit("⚡");
    reveal_strlit("☇");
    assert("☀"@ =~= seq!['☀']);
    assert("☼"@ =~= seq!['☼']);
    assert("☂"@ =~= seq!['☂']);
    assert("☔"@ =~= seq!['☔']);
    assert("☁"@ =~= seq!['☁']);
    assert("🌥"@ =~= seq!['🌥']);
    assert("❄"@ =~= seq!['❄']);
    assert("❅"@ =~= seq!['❅']);
    assert("⚡"@ =~= seq!['⚡']);
    assert("☇"@ =~= seq!['☇']);
    assert(seq!['☀'][0] == '☀');
    assert(seq!['☂'][0] == '☂');
    assert(seq!['☁'][0] == '☁');
    assert(seq!['❄'][0] == '❄');
    assert(seq!['⚡'][0] == '⚡');
}

/// A line of weather is made up of its icon, the temperature with its unit, and the bounds of the
/// day, the lower one first. They are its three words.
pub proof fn forecast_has_three_words(
    icon: Seq<char>,
    t: Seq<char>,
    low: Seq<char>,
    high: Seq<char>,
)
    ensures
        forecast(icon, t, low, high) == icon + seq![' '] + (t + seq!['℃'] + seq![' '] + (low + seq![
            '-',
        ] + high)),
        is_word(icon) && is_word(t) && is_word(low) && is_word(high) ==> words(
            forecast(icon, t, low, high),
        ) == seq![icon, t + seq!['℃'], low + seq!['-'] + high],
{
    reveal_strlit(" ");
    reveal_strlit("℃ ");
    reveal_strlit("-");
    let a = t + seq!['℃'];
    let b = low + seq!['-'] + high;
    assert(forecast(icon, t, low, high) =~= icon + seq![' '] + (a + seq![' '] + b));
    if is_word(icon) && is_word(t) && is_word(low) && is_word(high) {
        assert(is_word(a));
        assert forall|i: int| 0 <= i < b.len() implies !is_white(#[trigger] b[i]) by {
            if i < low.len() {
                assert(b[i] == low[i]);
            } else if i > low.len() {
                assert(b[i] == high[i - low.len() - 1]);
            }
        }
        assert(is_word(b));
        words_come_apart(icon, ' ', a + seq![' '] + b);
        words_come_apart(a, ' ', b);
        words_come_apart(b, ' ', b);
        assert(seq![icon] + (seq![a] + seq![b]) =~= seq![icon, a, b]);
    }
}

/// An icon that moves, and what stands behind it.
pub open spec fn moves(face: WeatherFace, icon: Seq<char>, tail: Seq<char>) -> bool {
    face matches WeatherFace::Moving(i, t) && i@ == icon && t@ == tail
}

/// In the simple format the icon of a line of weather is shown with its temperature: a number that
/// is not below zero with its unit, one below zero without.
pub proof fn simple_format_shows_the_temperature(
    face: WeatherFace,
    icon: Seq<char>,
    t: Seq<char>,
    low: Seq<char>,
    high: Seq<char>,
)
    requires
        free_of(icon, ' '),
        t.len() > 0,
        all_in(t, Class::Figure),
        high.len() > 0,
        !is_white(high.last()),
    ensures
        shows_weather(face, forecast(icon, t, low, high), "simple"@) ==> moves(
            face,
            icon,
            t + seq!['℃'],
        ),
        shows_weather(face, forecast(icon, seq!['-'] + t, low, high), "simple"@) ==> moves(
            face,
            icon,
            seq!['-'] + t,
        ),
{
    reveal_strlit("℃");
    assert("℃"@ =~= seq!['℃']);
    let rest = seq!['℃'] + seq![' '] + (low + seq!['-'] + high);
    let m = seq!['-'] + t;
    assert(in_class(Class::Figure, t[0]));
    temperature_ends_with_its_figures(t, rest);
    lemma_simple_tail(face, icon, t, low, high);
    lemma_simple_tail(face, icon, m, low, high);
}

proof fn lemma_simple_tail(
    face: WeatherFace,
    icon: Seq<char>,
    t: Seq<char>,
    low: Seq<char>,
    high: Seq<char>,
)
    requires
        free_of(icon, ' '),
        t.len() > 0,
        !is_white(t[0]),
        high.len() > 0,
        !is_white(high.last()),
    ensures
        ({
            let shown = leading_temperature(
                t + (seq!['℃'] + seq![' '] + (low + seq!['-'] + high)),
            );
            shows_weather(face, forecast(icon, t, low, high), "simple"@) ==> moves(
                face,
                icon,
                if shown.len() > 0 && shown[0] == '-' {
                    shown
                } else {
                    shown + "℃"@
                },
            )
        }),
{
    let rest = seq!['℃'] + seq![' '] + (low + seq!['-'] + high);
    let line = t + seq!['℃'] + seq![' '] + (low + seq!['-'] + high);
    assert(line =~= t + rest);
    forecast_has_three_words(icon, t, low, high);
    text_is_cut_at_the_first(icon, ' ', line);
    assert(line[0] == t[0]);
    assert(line.last() == high.last());
    lemma_blank_ends(line);
}

proof fn lemma_blank_ends(s: Seq<char>)
    requires
        s.len() > 0,
        !is_white(s[0]),
        !is_white(s.last()),
    ensures
        trimmed(s) == s,
{
    let e = Seq::<char>::empty();
    trimming_takes_the_blanks(e, s, e);
    assert(e + s + e =~= s);
}

/// In every other format the icon is shown with all that stands behind it, one blank between.
pub proof fn full_format_shows_all(
    face: WeatherFace,
    format: Seq<char>,
    icon: Seq<char>,
    rest: Seq<char>,
)
    requires
        format != "simple"@,
        free_of(icon, ' '),
        rest.len() > 0,
        !is_white(rest[0]),
        !is_white(rest.last()),
    ensures
        shows_weather(face, icon + seq![' '] + rest, format) ==> moves(
            face,
            icon,
            seq![' '] + rest,
        ),
{
    reveal_strlit(" ");
    assert(" "@ =~= seq![' ']);
    text_is_cut_at_the_first(icon, ' ', rest);
    lemma_blank_ends(rest);
}

/// A line without a blank, as that of a failure, is shown as it came, in every format.
pub proof fn line_without_a_blank_stands(face: WeatherFace, line: Seq<char>, format: Seq<char>)
    requires
        free_of(line, ' '),
    ensures
        shows_weather(face, line, format) ==> (face matches WeatherFace::Plain(text)
            && text@ == line),
{
    text_is_cut_at_the_first(line, ' ', line);
}

/// A temperature at the start of a text ends where its figures do.
pub proof fn temperature_ends_with_its_figures(t: Seq<char>, rest: Seq<char>)
    requires
        all_in(t, Class::Figure),
        rest.len() > 0 ==> !is_digit(rest[0]) && rest[0] != '.' && (t.len() == 0 ==> rest[0]
            != '-'),
    ensures
        leading_temperature(t + rest) == t,
        leading_temperature(seq!['-'] + t + rest) == seq!['-'] + t,
        weather_tail(Seq::<char>::empty(), "simple"@) == seq!['℃'],
{
    reveal_strlit("℃");
    assert("℃"@ =~= seq!['℃']);
    run_is_as_long_as_it_can_be(t, rest, Class::Figure);
    assert((t + rest).take(t.len() as int) =~= t);
    if t.len() > 0 {
        assert(in_class(Class::Figure, t[0]));
        assert((t + rest)[0] == t[0]);
    }
    let m = seq!['-'] + t + rest;
    assert(m.skip(1) =~= t + rest);
    assert(m.take((1 + t.len()) as int) =~= seq!['-'] + t);
    let e = Seq::<char>::empty();
    assert(trimmed(e) =~= e) by {
        trimming_takes_the_blanks(e, e, e);
        assert(e + e + e =~= e);
    }
    assert(run(e, Class::Figure) == 0);
    assert(e.take(0) =~= e);
    assert(e + seq!['℃'] =~= seq!['℃']);
}

/// Every source has its name, and every other name is the first source.
pub proof fn sources_have_their_names(s: Seq<char>)
    ensures
        source_named("wttr"@) == WeatherSource::Wttr,
        source_named("seniverse"@) == WeatherSource::Seniverse,
        source_named("openmeteo"@) == WeatherSource::OpenMeteo,
        source_named("uapis"@) == WeatherSource::Uapis,
        s != "wttr"@ && s != "seniverse"@ && s != "openmeteo"@ ==> source_named(s)
            == WeatherSource::Uapis,
{
    reveal_strlit("wttr");
    reveal_strlit("seniverse");
    reveal_strlit("openmeteo");
    reveal_strlit("uapis");
    assert("wttr"@.len() == 4);
    assert("seniverse"@[0] == 's');
    assert("openmeteo"@[0] == 'o');
    assert("uapis"@.len() == 5);
    assert("seniverse"@.len() == 9 && "openmeteo"@.len() == 9);
}

/// A request begins with the address of its source and holds the city, and the key where the
/// source wants one, each whole and in its place.
pub proof fn request_names_the_city(key: Seq<char>, city: Seq<char>)
    ensures
        first_url(WeatherSource::Uapis, key, city)
            == "https://uapis.cn/api/v1/misc/weather?city="@ + (city + "&forecast=true"@),
        first_url(WeatherSource::Wttr, key, city) == "https://wttr.in/"@ + (city + "?format=j1"@),
        first_url(WeatherSource::Seniverse, key, city)
            == "https://api.seniverse.com/v3/weather/daily.json?key="@ + (key + ("&location="@ + (
        city + "&language=en&unit=c&start=0&days=1"@))),
        first_url(WeatherSource::OpenMeteo, key, city)
            == "https://geocoding-api.open-meteo.com/v1/search?name="@ + (city
            + "&count=1&language=zh&format=json"@),
        city.len() > 0 ==> city_or_default(city) == city,
        city_or_default(Seq::<char>::empty()) == "北京"@,
{
    assert(first_url(WeatherSource::Uapis, key, city)
        =~= "https://uapis.cn/api/v1/misc/weather?city="@ + (city + "&forecast=true"@));
    assert(first_url(WeatherSource::Wttr, key, city) =~= "https://wttr.in/"@ + (city
        + "?format=j1"@));
    assert(first_url(WeatherSource::Seniverse, key, city)
        =~= "https://api.seniverse.com/v3/weather/daily.json?key="@ + (key + ("&location="@ + (city
        + "&language=en&unit=c&start=0&days=1"@))));
    assert(first_url(WeatherSource::OpenMeteo, key, city)
        =~= "https://geocoding-api.open-meteo.com/v1/search?name="@ + (city
        + "&count=1&language=zh&format=json"@));
}

/// The second request to open-meteo names the place: its latitude, and its longitude.
pub proof fn request_names_the_place(latitude: Seq<char>, longitude: Seq<char>)
    ensures
        starts_with(
            forecast_url(latitude, longitude),
            "https://api.open-meteo.com/v1/forecast?latitude="@ + latitude + "&longitude="@
                + longitude,
        ),
        ends_with(
            forecast_url(latitude, longitude),
            "&longitude="@ + longitude
                + "&current_weather=true&daily=temperature_2m_max,temperature_2m_min&forecast_days=1&timezone=auto"@,
        ),
        forecast_url(latitude, longitude).len()
            == "https://api.open-meteo.com/v1/forecast?latitude="@.len() + latitude.len()
            + "&longitude="@.len() + longitude.len()
            + "&current_weather=true&daily=temperature_2m_max,temperature_2m_min&forecast_days=1&timezone=auto"@.len(),
{
    let head = "https://api.open-meteo.com/v1/forecast?latitude="@ + latitude;
    let tail =
        "&current_weather=true&daily=temperature_2m_max,temperature_2m_min&forecast_days=1&timezone=auto"@;
    let mid = "&longitude="@ + longitude;
    let url = forecast_url(latitude, longitude);
    assert(url =~= head + mid + tail);
    assert(head + "&longitude="@ + longitude =~= head + mid);
    contained_is_a_part(head, head + mid, tail, url);
    contained_is_a_part(head, mid + tail, tail, url);
    assert(url =~= head + (mid + tail));
}

/// A reply without data has the text of its failure, one with data has none.
pub proof fn failures_have_their_texts<T>(data: T)
    ensures
        failure(Reply::<T>::NetErr) == Some("W:NetErr"@),
        failure(Reply::<T>::JsonErr) == Some("W:JsonErr"@),
        failure(Reply::Data(data)) is None,
{
}

/// What is there is taken as it is, and only what is missing has something else in its place.
pub proof fn missing_bound_has_another_in_its_place(
    s: String,
    v: Seq<String>,
    other: Seq<char>,
)
    ensures
        text_or(Some(s), other) == s@,
        text_or(None, other) == other,
        v.len() > 0 ==> first_or(v, other) == v[0]@,
        first_or(Seq::<String>::empty(), other) == other,
{
}

/// The line for an answer of uapis: the icon of its description, its temperature, and the bounds of
/// its day, for which the temperature stands where they are missing.
pub proof fn answer_of_uapis_is_shown(d: UapisWeather)
    ensures
        ({
            let line = uapis_line(Reply::Data(d));
            let t = d.temperature@;
            let low = match d.temp_min {
                Some(s) => s@,
                None => t,
            };
            let high = match d.temp_max {
                Some(s) => s@,
                None => t,
            };
            let rest = seq![' '] + t + seq!['℃', ' '] + low + seq!['-'] + high;
            let w = d.weather@;
            &&& !free_of(w, '雨') ==> line == seq!['☂'] + rest
            &&& free_of(w, '雨') && !free_of(w, '雪') ==> line == seq!['❄'] + rest
            &&& free_of(w, '雨') && free_of(w, '雪') && !free_of(w, '云') ==> line == seq!['☁'] + rest
            &&& free_of(w, '雨') && free_of(w, '雪') && free_of(w, '云') && free_of(w, '阴')
                && free_of(w, '雾') && free_of(w, '霾') ==> line == seq!['☀'] + rest
        }),
        uapis_line(Reply::NetErr) == "W:NetErr"@,
        uapis_line(Reply::JsonErr) == "W:JsonErr"@,
{
    let t = d.temperature@;
    let low = text_or(d.temp_min, t);
    let high = text_or(d.temp_max, t);
    let icon = chinese_icon(d.weather@);
    description_has_its_icon(d.weather@);
    lemma_forecast_signs(icon, t, low, high);
}

proof fn lemma_forecast_signs(icon: Seq<char>, t: Seq<char>, low: Seq<char>, high: Seq<char>)
    ensures
        forecast(icon, t, low, high) == icon + (seq![' '] + t + seq!['℃', ' '] + low + seq!['-']
            + high),
{
    reveal_strlit(" ");
    reveal_strlit("℃ ");
    reveal_strlit("-");
    assert(" "@ =~= seq![' ']);
    assert("℃ "@ =~= seq!['℃', ' ']);
    assert("-"@ =~= seq!['-']);
    assert(forecast(icon, t, low, high) =~= icon + (seq![' '] + t + seq!['℃', ' '] + low + seq!['-']
        + high));
}

/// The line for an answer of wttr: the icon of the first description, in whatever letters, the
/// temperature of the first moment, and the bounds of the first day.
pub proof fn answer_of_wttr_is_shown(j: WttrResult)
    ensures
        j.current_condition@.len() > 0 && j.weather@.len() > 0 ==> ({
            let now = j.current_condition@[0];
            let day = j.weather@[0];
            let rest = seq![' '] + now.temp_c@ + seq!['℃', ' '] + day.min_temp_c@ + seq!['-']
                + day.max_temp_c@;
            let icon = english_icon(lowered_description(now));
            wttr_line(Reply::Data(j)) == icon + rest
        }),
        j.current_condition@.len() == 0 || j.weather@.len() == 0 ==> wttr_line(Reply::Data(j))
            == "W:DataErr"@,
        wttr_line(Reply::NetErr) == "W:NetErr"@,
        wttr_line(Reply::JsonErr) == "W:JsonErr"@,
{
    if j.current_condition@.len() > 0 && j.weather@.len() > 0 {
        let now = j.current_condition@[0];
        let day = j.weather@[0];
        let icon = english_icon(lowered_description(now));
        lemma_forecast_signs(icon, now.temp_c@, day.min_temp_c@, day.max_temp_c@);
    }
}

/// The line for an answer of open-meteo: the icon of its code, its temperature, and the bounds of its
/// first day, for which the temperature stands where they are missing. Without days it is the
/// temperature alone, in tenths.
pub proof fn answer_of_openmeteo_is_shown(d: OmWeatherResponse)
    ensures
        ({
            let line = openmeteo_line(Reply::Data(d));
            let icon = openmeteo_icon(d.weathercode);
            match d.daily {
                Some(days) => {
                    let low = if days.temperature_min@.len() > 0 {
                        days.temperature_min@[0]@
                    } else {
                        d.temperature@
                    };
                    let high = if days.temperature_max@.len() > 0 {
                        days.temperature_max@[0]@
                    } else {
                        d.temperature@
                    };
                    line == icon + (seq![' '] + d.temperature@ + seq!['℃', ' '] + low + seq!['-']
                        + high)
                },
                None => line == icon + (seq![' '] + d.temperature_tenths@ + seq!['℃']),
            }
        }),
        openmeteo_line(Reply::NetErr) == "W:NetErr"@,
        openmeteo_line(Reply::JsonErr) == "W:JsonErr"@,
{
    reveal_strlit(" ");
    reveal_strlit("℃");
    assert(" "@ =~= seq![' ']);
    assert("℃"@ =~= seq!['℃']);
    let icon = openmeteo_icon(d.weathercode);
    if let Some(days) = d.daily {
        lemma_forecast_signs(
            icon,
            d.temperature@,
            first_or(days.temperature_min@, d.temperature@),
            first_or(days.temperature_max@, d.temperature@),
        );
    } else {
        assert(icon + " "@ + d.temperature_tenths@ + "℃"@ =~= icon + (seq![' ']
            + d.temperature_tenths@ + seq!['℃']));
    }
}

/// A source is asked for the city of the setting, or for the default one. The source that wants a key
/// is not asked without one; every other one is, whatever the key.
pub proof fn source_is_asked_for_the_city(
    r: WeatherRequest,
    source: Seq<char>,
    key: Seq<char>,
    city: Seq<char>,
)
    requires
        asks(r, source, key, city),
    ensures
        source_named(source) != WeatherSource::Seniverse || trimmed(key).len() > 0 ==> (r
            matches WeatherRequest::Ask(who, url) && who == source_named(source) && (city.len() > 0
            ==> url@ == first_url(who, key, city)) && (city.len() == 0 ==> url@ == first_url(
            who,
            key,
            "北京"@,
        ))),
        source_named(source) == WeatherSource::Seniverse && trimmed(key).len() == 0 ==> (r
            matches WeatherRequest::NoKey(s) && s@ == "W:NoKey"@),
{
}

/// The first place that was found is asked for; without one there is a failure, as there is without
/// an answer.
pub proof fn first_place_is_asked_for(r: Result<String, String>, reply: Reply<OmGeoResponse>)
    requires
        asks_for_place(r, reply),
    ensures
        r is Ok <==> (reply matches Reply::Data(g) && g.results is Some
            && g.results->Some_0@.len() > 0),
        r matches Ok(url) ==> (reply matches Reply::Data(g) && url@ == forecast_url(
            g.results->Some_0@[0].latitude@,
            g.results->Some_0@[0].longitude@,
        )),
        reply is NetErr ==> (r matches Err(e) && e@ == "W:GeoNet"@),
        reply is JsonErr ==> (r matches Err(e) && e@ == "W:GeoJson"@),
        reply is Data && r is Err ==> (r matches Err(e) && e@ == "W:NoCity"@),
{
}

} // verus!
