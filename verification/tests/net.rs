use athena_led::args::Args;
use athena_led::fetch::{
    extract_json_number, ip_of_body, ip_text, price_places, read_price, read_stock, shorten,
    stock_line, FetchReply, PriceReply,
};
use athena_led::net_agent::{
    collect_results, is_good, should_try, AgentCfg, Backoffs, NetAgent, NetSnapshot, RefreshKind,
    RefreshPlan,
};
use athena_led::weather::{
    forecast_line, icon_in_english, openmeteo_forecast_url, seniverse_day, weather_openmeteo,
    weather_request, weather_seniverse, weather_uapis, weather_wttr, OmDaily, OmGeoResponse,
    OmLocation, OmWeatherResponse, Reply, SeniverseDaily, SeniverseResponse, SeniverseResult,
    UapisWeather, WeatherRequest, WeatherSource, WttrCurrent, WttrDaily, WttrResult,
};

const SEC: u64 = 1_000_000_000;

fn s(t: &str) -> String {
    t.to_string()
}

fn asked(source: &str, key: &str, city: &str) -> (WeatherSource, String) {
    match weather_request(source, key, city) {
        WeatherRequest::Ask(who, url) => (who, url),
        WeatherRequest::NoKey(t) => panic!("{}", t),
    }
}

#[test]
fn weather_is_asked_for_at_its_source() {
    let uapis = (WeatherSource::Uapis, s("https://uapis.cn/api/v1/misc/weather?city=Beijing&forecast=true"));
    assert_eq!(asked("uapis", "", "Beijing"), uapis);
    assert_eq!(asked("", "", "Beijing"), uapis);
    assert_eq!(asked("elsewhere", "", "Beijing"), uapis);
    assert_eq!(
        asked("uapis", "", "").1,
        "https://uapis.cn/api/v1/misc/weather?city=北京&forecast=true"
    );
    assert_eq!(
        asked("wttr", "", "Ulm"),
        (WeatherSource::Wttr, s("https://wttr.in/Ulm?format=j1"))
    );
    assert_eq!(
        asked("openmeteo", "", "Ulm"),
        (
            WeatherSource::OpenMeteo,
            s("https://geocoding-api.open-meteo.com/v1/search?name=Ulm&count=1&language=zh&format=json")
        )
    );
    assert_eq!(
        asked("seniverse", "abc", "Ulm"),
        (
            WeatherSource::Seniverse,
            s("https://api.seniverse.com/v3/weather/daily.json?key=abc&location=Ulm&language=en&unit=c&start=0&days=1")
        )
    );
    assert!(matches!(weather_request("seniverse", " \t", "Ulm"), WeatherRequest::NoKey(t) if t == "W:NoKey"));
}

fn uapis(weather: &str, max: Option<&str>, min: Option<&str>) -> String {
    weather_uapis(&Reply::Data(UapisWeather {
        weather: s(weather),
        temperature: s("25"),
        temp_max: max.map(s),
        temp_min: min.map(s),
    }))
}

#[test]
fn uapis_gives_a_line() {
    assert_eq!(uapis("晴", Some("30"), Some("18")), "☀ 25℃ 18-30");
    assert_eq!(uapis("雨夹雪", None, Some("18")), "☂ 25℃ 18-25");
    assert_eq!(uapis("小雪", Some("30"), None), "❄ 25℃ 25-30");
    for cloudy in ["多云", "阴", "雾", "霾"] {
        assert_eq!(uapis(cloudy, None, None), "☁ 25℃ 25-25");
    }
    assert_eq!(weather_uapis(&Reply::NetErr), "W:NetErr");
    assert_eq!(weather_uapis(&Reply::JsonErr), "W:JsonErr");
    assert_eq!(forecast_line("☀", "1", "-2", "3"), "☀ 1℃ -2-3");
}

fn wttr(desc: Vec<String>) -> WttrResult {
    WttrResult {
        current_condition: vec![WttrCurrent { temp_c: s("7"), weather_desc: desc }],
        weather: vec![WttrDaily { max_temp_c: s("9"), min_temp_c: s("2") }],
    }
}

#[test]
fn wttr_gives_a_line() {
    assert_eq!(weather_wttr(&Reply::Data(wttr(vec![s("Light RAIN")]))), "☂ 7℃ 2-9");
    assert_eq!(weather_wttr(&Reply::Data(wttr(vec![s("OVERCAST")]))), "☁ 7℃ 2-9");
    assert_eq!(weather_wttr(&Reply::Data(wttr(Vec::new()))), "☀ 7℃ 2-9");
    let mut no_day = wttr(Vec::new());
    no_day.weather.clear();
    assert_eq!(weather_wttr(&Reply::Data(no_day)), "W:DataErr");
    let mut no_moment = wttr(Vec::new());
    no_moment.current_condition.clear();
    assert_eq!(weather_wttr(&Reply::Data(no_moment)), "W:DataErr");
    assert_eq!(weather_wttr(&Reply::NetErr), "W:NetErr");
    assert_eq!(weather_wttr(&Reply::JsonErr), "W:JsonErr");
}

#[test]
fn descriptions_have_icons() {
    for (text, icon) in [
        ("patchy rain", "☂"),
        ("shower", "☂"),
        ("drizzle", "☂"),
        ("snow", "❄"),
        ("ice pellets", "❄"),
        ("hail", "❄"),
        ("thunder", "⚡"),
        ("partly cloudy", "☁"),
        ("overcast", "☁"),
        ("mist", "🌫"),
        ("freezing fog", "🌫"),
        ("sunny", "☀"),
        ("RAIN", "☀"),
    ] {
        assert_eq!(icon_in_english(text), icon, "{}", text);
    }
}

#[test]
fn seniverse_gives_a_line() {
    let day = SeniverseDaily { high: s("30"), low: s("18"), code_day: s("13") };
    let full = Reply::Data(SeniverseResponse { results: vec![SeniverseResult { daily: vec![day] }] });
    let found = seniverse_day(&full).unwrap();
    assert_eq!((found.high.as_str(), found.low.as_str(), found.code_day.as_str()), ("30", "18", "13"));
    let no_day = Reply::Data(SeniverseResponse { results: vec![SeniverseResult { daily: Vec::new() }] });
    assert_eq!(seniverse_day(&no_day).unwrap_err(), "W:DataErr");
    let nothing = Reply::Data(SeniverseResponse { results: Vec::new() });
    assert_eq!(seniverse_day(&nothing).unwrap_err(), "W:DataErr");
    assert_eq!(seniverse_day(&Reply::NetErr).unwrap_err(), "W:NetErr");
    assert_eq!(seniverse_day(&Reply::JsonErr).unwrap_err(), "W:JsonErr");
    for (code, icon) in [
        ("0", "☀"), ("3", "☀"), ("4", "☁"), ("9", "☁"), ("10", "☂"), ("19", "☂"), ("20", "❄"),
        ("29", "❄"), ("30", "☁"), ("36", "☁"), ("37", "☀"), ("99", "☀"), ("-1", "☀"), ("x", "☀"),
    ] {
        assert_eq!(weather_seniverse(code, "24", "18", "30"), format!("{} 24℃ 18-30", icon));
    }
}

fn om(code: u8, daily: Option<OmDaily>) -> String {
    weather_openmeteo(&Reply::Data(OmWeatherResponse {
        weathercode: code,
        temperature: s("12"),
        temperature_tenths: s("12.3"),
        daily,
    }))
}

#[test]
fn openmeteo_gives_a_line() {
    let place = OmLocation { latitude: s("48.4"), longitude: s("9.98") };
    assert_eq!(
        openmeteo_forecast_url(&Reply::Data(OmGeoResponse { results: Some(vec![place]) })),
        Ok(s("https://api.open-meteo.com/v1/forecast?latitude=48.4&longitude=9.98&current_weather=true&daily=temperature_2m_max,temperature_2m_min&forecast_days=1&timezone=auto"))
    );
    let none = |results| openmeteo_forecast_url(&Reply::Data(OmGeoResponse { results }));
    assert_eq!(none(None), Err(s("W:NoCity")));
    assert_eq!(none(Some(Vec::new())), Err(s("W:NoCity")));
    assert_eq!(openmeteo_forecast_url(&Reply::NetErr), Err(s("W:GeoNet")));
    assert_eq!(openmeteo_forecast_url(&Reply::JsonErr), Err(s("W:GeoJson")));
    assert_eq!(om(0, None), "☀ 12.3℃");
    let days = OmDaily { temperature_max: vec![s("15"), s("99")], temperature_min: Vec::new() };
    assert_eq!(om(95, Some(days)), "⚡ 12℃ 12-15");
    assert_eq!(weather_openmeteo(&Reply::NetErr), "W:NetErr");
    assert_eq!(weather_openmeteo(&Reply::JsonErr), "W:JsonErr");
    for code in 0..=255u8 {
        let icon = match code {
            0 => "☀",
            1 | 2 | 3 => "☁",
            45 | 48 => "🌫",
            51..=67 | 80..=82 => "☂",
            71..=77 | 85..=86 => "❄",
            95..=99 => "⚡",
            _ => "☁",
        };
        assert_eq!(om(code, None), format!("{} 12.3℃", icon));
    }
}

#[test]
fn address_is_found_in_an_answer() {
    assert_eq!(ip_of_body("Current IP: 203.0.113.7\n"), "IP:203.0.113.7");
    assert_eq!(ip_of_body("1.2.3 4.5.6.7 8.9.10.11"), "IP:4.5.6.7");
    assert_eq!(ip_of_body("1234.5.6.7"), "IP:Err");
    assert_eq!(ip_of_body("999.999.999.999"), "IP:999.999.999.999");
    assert_eq!(ip_of_body("a1.2.3.4"), "IP:Err");
    assert_eq!(ip_of_body(""), "IP:Err");
    assert_eq!(ip_text(Some("1.2.3.4")), "IP:1.2.3.4");
    assert_eq!(ip_text(None), "IP:Err");
}

#[test]
fn text_is_cut_between_characters() {
    assert_eq!(shorten("  北京欢迎你  ", 3), "北京欢");
    assert_eq!(shorten(" short ", 15), "short");
    assert_eq!(shorten("abc", 0), "");
    assert_eq!(shorten("a b", 2), "a ");
}

#[test]
fn price_is_read_from_json() {
    let f = read_price(br#"{"price": 12.5, "last": 3, "close": "x"}"#).unwrap();
    assert_eq!(f.price, Some(12.5f64.to_bits()));
    assert_eq!(f.price_text, None);
    assert_eq!(f.last, Some(3f64.to_bits()));
    assert_eq!(f.close, None);
    assert_eq!(f.pick(None), Some(12.5f64.to_bits()));
    let t = read_price(br#"{"price": "7.25", "last": 3}"#).unwrap();
    assert_eq!(t.price, None);
    assert_eq!(t.price_text.as_deref(), Some("7.25"));
    assert_eq!(t.pick(Some(7.25f64.to_bits())), Some(7.25f64.to_bits()));
    assert_eq!(t.pick(None), Some(3f64.to_bits()));
    let c = read_price(br#"{"close": 9}"#).unwrap();
    assert_eq!(c.pick(Some(1)), Some(9f64.to_bits()));
    let e = read_price(b"[1, 2]").unwrap();
    assert_eq!(e.pick(None), None);
    assert!(read_price(b"{").is_none());
    assert!(read_price(b"").is_none());
}

#[test]
fn large_prices_have_no_places() {
    for (p, places) in [
        (0.0, 2), (999.99, 2), (1000.0, 2), (1000.0000001, 0), (1e300, 0), (f64::INFINITY, 0),
        (-5000.0, 2), (f64::NEG_INFINITY, 2), (f64::NAN, 2), (-f64::NAN, 2), (-0.0, 2),
    ] {
        assert_eq!(price_places(f64::to_bits(p)), places, "{}", p);
        assert_eq!(price_places(p.to_bits()) == 0, p > 1000.0);
    }
}

#[test]
fn stock_has_its_failures() {
    assert_eq!(read_stock(&PriceReply::NetErr).unwrap_err(), "Stock:NetErr");
    assert_eq!(read_stock(&PriceReply::BodyErr).unwrap_err(), "Stock:JsonErr");
    assert_eq!(read_stock(&PriceReply::Body(b"no".to_vec())).unwrap_err(), "Stock:JsonErr");
    let f = read_stock(&PriceReply::Body(br#"{"last": 2}"#.to_vec())).unwrap();
    assert_eq!(f.pick(None), Some(2f64.to_bits()));
    assert_eq!(stock_line(Some(s("2.00"))), "2.00");
    assert_eq!(stock_line(None), "Stock:NoPrice");
}

#[test]
fn number_is_found_in_a_text_like_json() {
    let text = r#"{"lat": 48.4, "lon":-9.98,"name":"Ulm"}"#;
    assert_eq!(extract_json_number(text, "lat").as_deref(), Some("48.4"));
    assert_eq!(extract_json_number(text, "lon").as_deref(), Some("-9.98"));
    assert_eq!(extract_json_number(text, "name").as_deref(), Some(""));
    assert_eq!(extract_json_number(text, "alt"), None);
    assert_eq!(extract_json_number(r#"{"lat" 5}"#, "lat"), None);
}

fn cfg() -> AgentCfg {
    AgentCfg {
        cache_secs: 300,
        weather_city: s("Beijing"),
        weather_source: s("uapis"),
        seniverse_key: String::new(),
        ip_url: s("http://ip"),
        custom_http_url: s("http://text"),
        http_length: 5,
        stock_url: s("http://stock"),
        want_weather: true,
        want_ip: true,
        want_stock: true,
        want_http: true,
    }
}

fn settings(profile: &str, cache: u64) -> Args {
    Args {
        seconds: 5,
        light_level: 5,
        display_order: s(profile),
        profile: vec![s(profile)],
        net_interface: s("br-lan"),
        ip_url: s("http://ip"),
        custom_text: String::new(),
        custom_http_url: s("http://text"),
        http_length: 15,
        weather_city: s("Ulm"),
        weather_source: s("wttr"),
        seniverse_key: s("key"),
        stock_url: s("http://stock"),
        temp_flag: s("4"),
        sleep_start: String::new(),
        sleep_end: String::new(),
        weather_format: s("simple"),
        http_cache_secs: cache,
        gpio_backend: s("auto"),
        button_gpio: s("71"),
        gpio_base: s("auto"),
        enable_mesh_button: 0,
        mesh_button_gpio: s("72"),
        mesh_short_action: s("none"),
        mesh_long_action: s("none"),
        disable_led_clock: false,
        disable_led_medal: false,
        disable_led_up: false,
        disable_led_down: false,
    }
}

#[test]
fn only_what_is_shown_is_fetched() {
    let wanted = |p: &str| {
        let c = AgentCfg::from_args(&settings(p, 300));
        (c.want_weather, c.want_ip, c.want_stock, c.want_http)
    };
    assert_eq!(wanted("date cpu"), (false, false, false, false));
    assert_eq!(wanted("date weather stock"), (true, false, true, false));
    assert_eq!(wanted("ip http_custom"), (false, true, false, true));
    assert_eq!(wanted("wan_ip"), (false, true, false, false));
    assert_eq!(wanted("weather#5 ip:long"), (true, true, false, false));
    assert_eq!(wanted("#weather :ip Stock"), (false, false, false, false));
    let c = AgentCfg::from_args(&settings("", 3));
    assert_eq!(c.cache_secs, 10);
    assert_eq!(AgentCfg::from_args(&settings("", 11)).cache_secs, 11);
    assert_eq!((c.weather_city.as_str(), c.weather_source.as_str()), ("Ulm", "wttr"));
    assert_eq!((c.seniverse_key.as_str(), c.ip_url.as_str()), ("key", "http://ip"));
    assert_eq!((c.custom_http_url.as_str(), c.stock_url.as_str()), ("http://text", "http://stock"));
    assert_eq!(c.http_length, 15);
}

#[test]
fn agent_knows_nothing_at_first() {
    let a = NetAgent::new(cfg(), 7);
    let snap = a.snapshot();
    assert_eq!((snap.weather.as_str(), snap.ip.as_str()), ("Wait...", "IP:Wait"));
    assert_eq!((snap.stock_text.as_str(), snap.http_text.as_str()), ("", ""));
    assert_eq!(snap.sun, "SUN:--");
    assert!(snap.pings.is_empty());
    assert_eq!(a.backoff, Backoffs::default());
    assert_eq!(a.cached_ip(7), None);
    assert_eq!(a.cached_http(7), None);
    assert_eq!(NetSnapshot::default().ip, "IP:Wait");
    let all = NetAgent::force_refresh_all();
    assert!(all.ip && all.weather && all.stock && all.http);
}

#[test]
fn results_count_by_their_kind() {
    for (kind, text, good) in [
        (RefreshKind::Ip, "IP:1.2.3.4", true),
        (RefreshKind::Ip, "", false),
        (RefreshKind::Ip, "IP:NetErr", false),
        (RefreshKind::Ip, "IP:Wait", false),
        (RefreshKind::Weather, "☀ 25℃", true),
        (RefreshKind::Weather, "W:NetErr", false),
        (RefreshKind::Weather, "Wait...", false),
        (RefreshKind::Weather, "", false),
        (RefreshKind::Stock, "12.50", true),
        (RefreshKind::Stock, "Stock:NoPrice", true),
        (RefreshKind::Stock, "Stock:JsonErr", false),
        (RefreshKind::Stock, "", false),
        (RefreshKind::Http, "", true),
        (RefreshKind::Http, "hello", true),
        (RefreshKind::Http, "HTTP:Err", false),
        (RefreshKind::Http, "HTTP:Wait", false),
    ] {
        assert_eq!(is_good(kind, text), good, "{:?} {:?}", kind, text);
    }
}

#[test]
fn good_results_are_shown_and_bad_ones_counted() {
    let mut a = NetAgent::new(cfg(), 0);
    a.apply_results(
        &vec![
            (s("IP:NetErr"), RefreshKind::Ip),
            (s("☀ 25℃"), RefreshKind::Weather),
            (s("12.50"), RefreshKind::Stock),
            (s("HTTP:Wait"), RefreshKind::Http),
        ],
        9,
    );
    assert_eq!(a.backoff, Backoffs { weather: 0, ip: 1, stock: 0, http: 1 });
    assert_eq!((a.snapshot.ip.as_str(), a.snapshot.weather.as_str()), ("IP:Wait", "☀ 25℃"));
    assert_eq!((a.snapshot.stock_text.as_str(), a.snapshot.http_text.as_str()), ("12.50", ""));
    assert_eq!((a.cached_weather_time, a.cached_ip_time), (9, 0));
    for _ in 0..5 {
        a.apply_results(&vec![(s(""), RefreshKind::Ip)], 10);
    }
    assert_eq!(a.backoff.ip, 3);
    a.apply_results(&vec![(s("IP:1.2.3.4"), RefreshKind::Ip)], 11);
    assert_eq!(a.backoff.ip, 0);
    assert_eq!((a.snapshot.ip.as_str(), a.cached_ip_time), ("IP:1.2.3.4", 11));
}

#[test]
fn tries_become_rarer_with_failures() {
    for (failures, wait) in [(0, 300), (1, 600), (2, 1200), (3, 2400), (9, 2400)] {
        assert!(!should_try(failures, 5 * SEC, 300, (wait + 5) * SEC - 1));
        assert!(should_try(failures, 5 * SEC, 300, (wait + 5) * SEC));
    }
    assert!(!should_try(3, 0, u64::MAX, u64::MAX));
    assert!(should_try(0, 9, 0, 3));
}

#[test]
fn waits_are_shorter_after_failures() {
    let mut a = NetAgent::new(cfg(), 0);
    assert_eq!(a.backoff_sleep_secs(), None);
    assert_eq!(a.sleep_slices(), 150);
    for b in 1..4 {
        a.backoff = Backoffs { weather: 0, ip: 1, stock: b, http: 0 };
        assert_eq!(a.backoff_sleep_secs(), Some(30));
        assert_eq!(a.sleep_slices(), 15);
    }
    a.backoff = Backoffs { weather: 0, ip: 1, stock: 0, http: 0 };
    assert_eq!(a.backoff_sleep_secs(), Some(30));
    a.cfg.cache_secs = 20;
    assert_eq!(a.sleep_slices(), 10);
    a.backoff = Backoffs::default();
    a.cfg.cache_secs = 1;
    assert_eq!(a.sleep_slices(), 1);
}

#[test]
fn due_data_are_refreshed() {
    let mut a = NetAgent::new(cfg(), 0);
    let none = RefreshPlan { ip: false, weather: false, stock: true, http: false };
    assert_eq!(a.tick(299 * SEC), none);
    let all = RefreshPlan { ip: true, weather: true, stock: true, http: true };
    assert_eq!(a.tick(300 * SEC), all);
    a.backoff.ip = 1;
    assert_eq!(a.tick(300 * SEC), RefreshPlan { ip: false, ..all });
    assert_eq!(a.tick(600 * SEC), all);
    a.cfg.want_stock = false;
    a.cfg.want_weather = false;
    assert_eq!(a.tick(600 * SEC), RefreshPlan { ip: true, weather: false, stock: false, http: true });
}

#[test]
fn only_what_was_refreshed_has_a_result() {
    let plan = RefreshPlan { ip: true, weather: false, stock: true, http: false };
    let r = collect_results(plan, s("i"), s("w"), s("s"), s("h"));
    assert_eq!(r, vec![(s("i"), RefreshKind::Ip), (s("s"), RefreshKind::Stock)]);
    let all = collect_results(NetAgent::force_refresh_all(), s("i"), s("w"), s("s"), s("h"));
    let kinds: Vec<RefreshKind> = all.iter().map(|p| p.1).collect();
    assert_eq!(
        kinds,
        vec![RefreshKind::Ip, RefreshKind::Weather, RefreshKind::Stock, RefreshKind::Http]
    );
}

#[test]
fn order_of_results_is_no_matter() {
    let results = [
        (s("IP:1.2.3.4"), RefreshKind::Ip),
        (s("W:NetErr"), RefreshKind::Weather),
        (s("5.00"), RefreshKind::Stock),
        (s("text"), RefreshKind::Http),
    ];
    let mut a = NetAgent::new(cfg(), 0);
    a.apply_results(&results.to_vec(), 5);
    let mut b = NetAgent::new(cfg(), 0);
    b.apply_results(&results.iter().rev().cloned().collect(), 5);
    assert_eq!(format!("{:?}", a), format!("{:?}", b));
}

#[test]
fn address_is_kept_for_an_hour() {
    let mut a = NetAgent::new(cfg(), 0);
    assert_eq!(a.refresh_ip(&FetchReply::NetErr, 5), "IP:NetErr");
    assert_eq!(a.refresh_ip(&FetchReply::BodyErr, 5), "IP:Err");
    assert_eq!(a.refresh_ip(&FetchReply::Body(s("none")), 5), "IP:Err");
    assert_eq!(a.cached_ip(5), None);
    assert_eq!(a.refresh_ip(&FetchReply::Body(s("ip 1.2.3.4")), SEC), "IP:1.2.3.4");
    assert_eq!(a.cached_ip(3601 * SEC - 1).as_deref(), Some("IP:1.2.3.4"));
    assert_eq!(a.cached_ip(3601 * SEC), None);
}

#[test]
fn weather_is_kept_where_it_is_no_failure() {
    let mut a = NetAgent::new(cfg(), 0);
    assert_eq!(a.refresh_weather(s("W:NetErr"), 5), "W:NetErr");
    assert_eq!((a.cached_weather_text.as_str(), a.cached_weather_time), ("Wait...", 0));
    assert_eq!(a.refresh_weather(s("☀ 25℃"), 6), "☀ 25℃");
    assert_eq!((a.cached_weather_text.as_str(), a.cached_weather_time), ("☀ 25℃", 6));
}

#[test]
fn text_is_kept_while_it_is_fresh() {
    let mut a = NetAgent::new(cfg(), 0);
    assert_eq!(a.refresh_http(&FetchReply::NetErr, 5), "HTTP:Wait");
    assert_eq!(a.refresh_http(&FetchReply::BodyErr, 5), "HTTP:Err");
    assert_eq!(a.refresh_http(&FetchReply::Body(s(" 北京欢迎你们 ")), SEC), "北京欢迎你");
    assert_eq!(a.cached_http(301 * SEC - 1).as_deref(), Some("北京欢迎你"));
    assert_eq!(a.cached_http(301 * SEC), None);
    assert_eq!(a.refresh_http(&FetchReply::NetErr, 400 * SEC), "北京欢迎你");
    a.cfg.custom_http_url = String::new();
    assert_eq!(a.cached_http(400 * SEC).as_deref(), Some(""));
}

#[test]
fn price_is_asked_for_only_with_an_address() {
    let mut a = NetAgent::new(cfg(), 0);
    assert_eq!(a.cached_stock(), None);
    a.cfg.stock_url = String::new();
    assert_eq!(a.cached_stock().as_deref(), Some(""));
}

#[test]
fn only_what_counts_is_shown() {
    let mut a = NetAgent::new(cfg(), 0);
    let texts = ["IP:NetErr", "W:JsonErr", "Stock:NetErr", "HTTP:Wait", "", "☀ 25℃", "9.00"];
    let kinds = [RefreshKind::Ip, RefreshKind::Weather, RefreshKind::Stock, RefreshKind::Http];
    for (i, text) in texts.iter().cycle().take(60).enumerate() {
        let kind = kinds[i * 7 % 4];
        a.apply_results(&vec![(s(text), kind)], i as u64);
        let snap = a.snapshot();
        assert!(snap.ip == "IP:Wait" || is_good(RefreshKind::Ip, &snap.ip));
        assert!(snap.weather == "Wait..." || is_good(RefreshKind::Weather, &snap.weather));
        assert!(snap.stock_text.is_empty() || is_good(RefreshKind::Stock, &snap.stock_text));
        assert!(is_good(RefreshKind::Http, &snap.http_text));
        assert!(a.backoff.ip <= 3 && a.backoff.weather <= 3);
        assert!(a.backoff.stock <= 3 && a.backoff.http <= 3);
    }
}

#[test]
fn forecasts_count_and_failures_do_not() {
    for low in ["-3", "0", "NaN", "inf"] {
        assert!(is_good(RefreshKind::Weather, &forecast_line("☁", "5", low, "7")));
    }
    for text in [
        weather_uapis(&Reply::NetErr),
        weather_wttr(&Reply::JsonErr),
        openmeteo_forecast_url(&Reply::NetErr).unwrap_err(),
        openmeteo_forecast_url(&Reply::JsonErr).unwrap_err(),
    ] {
        assert!(!is_good(RefreshKind::Weather, &text), "{}", text);
    }
    assert!(is_good(RefreshKind::Ip, &ip_of_body("1.2.3.4")));
    assert!(!is_good(RefreshKind::Ip, &ip_of_body("none")));
}

#[test]
fn fresh_data_are_not_asked_for() {
    let all = NetAgent::force_refresh_all();
    let mut a = NetAgent::new(cfg(), 0);
    assert_eq!(a.requests(all, 5), all);
    a.refresh_ip(&FetchReply::Body(s("1.2.3.4")), SEC);
    a.refresh_http(&FetchReply::Body(s("text")), SEC);
    a.cfg.stock_url = String::new();
    let weather = RefreshPlan { ip: false, weather: true, stock: false, http: false };
    assert_eq!(a.requests(all, 2 * SEC), weather);
    assert_eq!(a.requests(all, 301 * SEC), RefreshPlan { http: true, ..weather });
    assert_eq!(a.requests(all, 3601 * SEC), RefreshPlan { ip: true, http: true, ..weather });
    a.cfg.custom_http_url = String::new();
    assert_eq!(a.requests(all, 3601 * SEC), RefreshPlan { ip: true, ..weather });
    assert_eq!(a.requests(RefreshPlan { weather: false, ..weather }, 0).weather, false);
}

#[test]
fn address_is_asked_for_again_after_an_hour() {
    let all = NetAgent::force_refresh_all();
    let mut a = NetAgent::new(cfg(), 0);
    a.refresh_ip(&FetchReply::Body(s("1.2.3.4")), 0);
    for at in [0, 600, 3000, 3599] {
        assert!(!a.requests(all, at * SEC).ip);
        let known = a.cached_ip(at * SEC).unwrap();
        a.apply_results(&vec![(known, RefreshKind::Ip)], at * SEC);
        assert_eq!(a.cached_ip_time, 0);
    }
    assert!(a.requests(all, 3600 * SEC).ip);
    assert!(a.requests(all, 6000 * SEC).ip);
    let again = a.refresh_ip(&FetchReply::Body(s("1.2.3.4")), 6000 * SEC);
    a.apply_results(&vec![(again, RefreshKind::Ip)], 6001 * SEC);
    assert_eq!(a.cached_ip_time, 6000 * SEC);
    assert!(!a.requests(all, 9599 * SEC).ip);
    assert_eq!(a.snapshot.ip, "IP:1.2.3.4");
    a.apply_results(&vec![(s("IP:5.6.7.8"), RefreshKind::Ip)], 9000 * SEC);
    assert_eq!(a.cached_ip_time, 9000 * SEC);
}
