//! What holds of the data from the net: of their results, their failures and
//! the time between two tries.
use vstd::prelude::*;
use crate::fetch::{address_is_no_failure, ip_shown, like_an_address};
use crate::net_agent::{
    accepts, backoff_factor, due, seconds_since, NetAgent, NetSnapshot, RefreshKind, RefreshPlan,
    IP_CACHE_SECS, MIN_CACHE_SECS, RETRY_SECS,
};
use crate::text::{contains, matches_at, starts_with};
use crate::weather::{
    chinese_icon, english_icon, failure, forecast, openmeteo_icon, seniverse_icon, Reply,
};

verus! {

/// How often a kind of data has failed in a row.
pub open spec fn failures(a: NetAgent, kind: RefreshKind) -> u32 {
    match kind {
        RefreshKind::Ip => a.backoff.ip,
        RefreshKind::Weather => a.backoff.weather,
        RefreshKind::Stock => a.backoff.stock,
        RefreshKind::Http => a.backoff.http,
    }
}

/// What is shown of a kind of data.
pub open spec fn shown(s: NetSnapshot, kind: RefreshKind) -> Seq<char> {
    match kind {
        RefreshKind::Ip => s.ip@,
        RefreshKind::Weather => s.weather@,
        RefreshKind::Stock => s.stock_text@,
        RefreshKind::Http => s.http_text@,
    }
}

/// A good result is shown, and ends the failures of its kind.
pub proof fn good_result_is_shown(a: NetAgent, text: String, kind: RefreshKind, now: u64)
    requires
        accepts(kind, text@),
    ensures
        shown(a.behind_result(text, kind, now).snapshot, kind) == text@,
        failures(a.behind_result(text, kind, now), kind) == 0,
{
}

/// A bad result leaves all that is known as it was, and when it was learned.
pub proof fn bad_result_changes_no_data(a: NetAgent, text: String, kind: RefreshKind, now: u64)
    requires
        !accepts(kind, text@),
    ensures
        a.behind_result(text, kind, now) == (NetAgent {
            backoff: a.behind_result(text, kind, now).backoff,
            ..a
        }),
{
}

/// A result of one kind changes neither what is shown of another kind nor its failures.
pub proof fn kinds_are_apart(
    a: NetAgent,
    text: String,
    kind: RefreshKind,
    other: RefreshKind,
    now: u64,
)
    requires
        kind != other,
    ensures
        shown(a.behind_result(text, kind, now).snapshot, other) == shown(a.snapshot, other),
        failures(a.behind_result(text, kind, now), other) == failures(a, other),
{
}

/// It is no matter which of two results of different kinds comes first.
pub proof fn results_come_in_any_order(
    a: NetAgent,
    first: (String, RefreshKind),
    second: (String, RefreshKind),
    now: u64,
)
    requires
        first.1 != second.1,
    ensures
        a.behind_results(seq![first, second], now) == a.behind_results(seq![second, first], now),
{
    reveal_with_fuel(NetAgent::behind_results, 3);
    assert(seq![first, second].drop_last() == seq![first]);
    assert(seq![second, first].drop_last() == seq![second]);
    assert(seq![first].drop_last() == Seq::<(String, RefreshKind)>::empty());
    assert(seq![second].drop_last() == Seq::<(String, RefreshKind)>::empty());
}

/// Failures in a row are counted, up to three.
pub proof fn failures_are_counted(
    a: NetAgent,
    results: Seq<(String, RefreshKind)>,
    kind: RefreshKind,
    now: u64,
)
    requires
        a.wf(),
        forall|i: int|
            0 <= i < results.len() ==> (#[trigger] results[i]).1 == kind && !accepts(
                kind,
                results[i].0@,
            ),
    ensures
        failures(a.behind_results(results, now), kind) == (if failures(a, kind) + results.len()
            > 3 {
            3
        } else {
            failures(a, kind) + results.len()
        }),
    decreases results.len(),
{
    if results.len() > 0 {
        let before = results.drop_last();
        assert forall|i: int| 0 <= i < before.len() implies (#[trigger] before[i]).1 == kind
            && !accepts(kind, before[i].0@) by {
            assert(before[i] == results[i]);
        }
        failures_are_counted(a, before, kind, now);
        assert(results.last() == results[results.len() - 1]);
    }
}

/// The time between two tries doubles with each failure, up to eight times the usual: after
/// `n` failures a try is due exactly when `factor` times the seconds of the setting have passed.
pub proof fn tries_become_rarer(n: u32, last: u64, cache_secs: u64, now: u64)
    requires
        cache_secs * 8 <= u64::MAX,
    ensures
        due(n, last, cache_secs, now) <==> seconds_since(last, now) >= cache_secs * backoff_factor(n),
        backoff_factor(0) == 1,
        n < 3 ==> backoff_factor((n + 1) as u32) == 2 * backoff_factor(n),
        n >= 3 ==> backoff_factor(n) == 8,
{
    let f = backoff_factor(n);
    assert(cache_secs * f <= cache_secs * 8) by (nonlinear_arith)
        requires
            f <= 8,
            cache_secs >= 0,
    ;
}

/// The agent looks again before data that are fresh now have become old, and within half a minute
/// where something has failed.
pub proof fn looks_again_in_time(a: NetAgent)
    requires
        a.cfg.cache_secs >= MIN_CACHE_SECS,
    ensures
        MIN_CACHE_SECS <= a.sleep_secs() <= a.cfg.cache_secs,
        a.backoff_secs() is None ==> a.sleep_secs() == a.cfg.cache_secs,
        a.backoff_secs() is Some ==> a.sleep_secs() <= RETRY_SECS,
{
}

/// A known address runs out after an hour: from then on it is asked for again, however often it was
/// handed on meanwhile.
pub proof fn known_address_runs_out(
    a: NetAgent,
    results: Seq<(String, RefreshKind)>,
    then: u64,
    plan: RefreshPlan,
    now: u64,
)
    requires
        forall|i: int|
            0 <= i < results.len() && (#[trigger] results[i]).1 == RefreshKind::Ip && accepts(
                RefreshKind::Ip,
                results[i].0@,
            ) ==> results[i].0@ == a.cached_ip_text@,
        seconds_since(a.cached_ip_time, now) >= IP_CACHE_SECS,
        plan.ip,
    ensures
        a.behind_results(results, then).cached_ip_time == a.cached_ip_time,
        a.behind_results(results, then).requested(plan, now).ip,
{
    lemma_address_keeps_its_age(a, results, then);
}

proof fn lemma_address_keeps_its_age(
    a: NetAgent,
    results: Seq<(String, RefreshKind)>,
    then: u64,
)
    requires
        forall|i: int|
            0 <= i < results.len() && (#[trigger] results[i]).1 == RefreshKind::Ip && accepts(
                RefreshKind::Ip,
                results[i].0@,
            ) ==> results[i].0@ == a.cached_ip_text@,
    ensures
        a.behind_results(results, then).cached_ip_time == a.cached_ip_time,
        a.behind_results(results, then).cached_ip_text@ == a.cached_ip_text@,
    decreases results.len(),
{
    if results.len() > 0 {
        let shorter = results.drop_last();
        assert forall|i: int|
            0 <= i < shorter.len() && (#[trigger] shorter[i]).1 == RefreshKind::Ip && accepts(
                RefreshKind::Ip,
                shorter[i].0@,
            ) implies shorter[i].0@ == a.cached_ip_text@ by {
            assert(shorter[i] == results[i]);
        }
        lemma_address_keeps_its_age(a, shorter, then);
        assert(results.last() == results[results.len() - 1]);
    }
}

/// All that is shown is what stood there at the start, or a result that counts: an address or a
/// fetched text without `Err` and `Wait` in it, weather that does not begin with `W:` and is without
/// `Wait`, a price without `Err`. That an answer holds no price counts as a result.
pub open spec fn shows_what_counts(s: NetSnapshot) -> bool {
    &&& s.weather@ == "Wait..."@ || accepts(RefreshKind::Weather, s.weather@)
    &&& s.ip@ == "IP:Wait"@ || accepts(RefreshKind::Ip, s.ip@)
    &&& s.stock_text@.len() == 0 || accepts(RefreshKind::Stock, s.stock_text@)
    &&& s.http_text@.len() == 0 || accepts(RefreshKind::Http, s.http_text@)
}

/// Whatever results come, none is shown that does not count: no failed request, no answer that
/// could not be read, and nothing that is still waited for.
pub proof fn only_what_counts_is_shown(
    a: NetAgent,
    results: Seq<(String, RefreshKind)>,
    now: u64,
)
    requires
        shows_what_counts(a.snapshot),
    ensures
        shows_what_counts(a.behind_results(results, now).snapshot),
    decreases results.len(),
{
    if results.len() > 0 {
        only_what_counts_is_shown(a, results.drop_last(), now);
    }
}

/// A request for the address counts exactly where an address was found.
pub proof fn only_an_address_counts(found: Option<Seq<char>>)
    requires
        found matches Some(m) ==> like_an_address(m),
    ensures
        accepts(RefreshKind::Ip, ip_shown(found)) <==> found is Some,
        !accepts(RefreshKind::Ip, "IP:NetErr"@),
{
    reveal_strlit("IP:");
    reveal_strlit("IP:Err");
    reveal_strlit("IP:NetErr");
    reveal_strlit("Err");
    if let Some(m) = found {
        address_is_no_failure(m);
    }
    assert("IP:Err"@.subrange(3, 6) == "Err"@);
    assert(matches_at("IP:Err"@, "Err"@, 3));
    assert("IP:NetErr"@.subrange(6, 9) == "Err"@);
    assert(matches_at("IP:NetErr"@, "Err"@, 6));
}

/// A price that could not be had does not count.
pub proof fn failed_price_does_not_count()
    ensures
        !accepts(RefreshKind::Stock, "Stock:NetErr"@),
        !accepts(RefreshKind::Stock, "Stock:JsonErr"@),
{
    reveal_strlit("Stock:NetErr");
    reveal_strlit("Stock:JsonErr");
    reveal_strlit("Err");
    assert("Stock:NetErr"@.subrange(9, 12) == "Err"@);
    assert(matches_at("Stock:NetErr"@, "Err"@, 9));
    assert("Stock:JsonErr"@.subrange(10, 13) == "Err"@);
    assert(matches_at("Stock:JsonErr"@, "Err"@, 10));
}

/// Weather that could not be had does not count.
pub proof fn failed_weather_does_not_count<T>(reply: Reply<T>)
    ensures
        failure(reply) matches Some(text) ==> !accepts(RefreshKind::Weather, text),
        !accepts(RefreshKind::Weather, "W:DataErr"@),
        !accepts(RefreshKind::Weather, "W:NoKey"@),
        !accepts(RefreshKind::Weather, "W:GeoNet"@),
        !accepts(RefreshKind::Weather, "W:GeoJson"@),
        !accepts(RefreshKind::Weather, "W:NoCity"@),
{
    reveal_strlit("W:");
    reveal_strlit("W:NetErr");
    reveal_strlit("W:JsonErr");
    reveal_strlit("W:DataErr");
    reveal_strlit("W:NoKey");
    reveal_strlit("W:GeoNet");
    reveal_strlit("W:GeoJson");
    reveal_strlit("W:NoCity");
    assert("W:NetErr"@.subrange(0, 2) == "W:"@);
    assert("W:JsonErr"@.subrange(0, 2) == "W:"@);
    assert("W:DataErr"@.subrange(0, 2) == "W:"@);
    assert("W:NoKey"@.subrange(0, 2) == "W:"@);
    assert("W:GeoNet"@.subrange(0, 2) == "W:"@);
    assert("W:GeoJson"@.subrange(0, 2) == "W:"@);
    assert("W:NoCity"@.subrange(0, 2) == "W:"@);
}

/// One of the icons of the weather.
pub open spec fn is_icon(icon: Seq<char>) -> bool {
    icon == "☀"@ || icon == "☁"@ || icon == "☂"@ || icon == "❄"@ || icon == "⚡"@ || icon
        == "🌫"@
}

/// Every description and every code has one of the icons.
pub proof fn all_weather_has_an_icon(description: Seq<char>, code: u8)
    ensures
        is_icon(chinese_icon(description)),
        is_icon(english_icon(description)),
        is_icon(seniverse_icon(description)),
        is_icon(openmeteo_icon(code)),
{
}

pub open spec fn without_w(s: Seq<char>) -> bool {
    forall|i: int| 0 <= i < s.len() ==> #[trigger] s[i] != 'W'
}

proof fn text_without_w_is_no_failure(s: Seq<char>)
    requires
        s.len() > 0,
        without_w(s),
    ensures
        accepts(RefreshKind::Weather, s),
{
    reveal_strlit("W:");
    reveal_strlit("Wait");
    if starts_with(s, "W:"@) {
        assert(s.subrange(0, 2)[0] == s[0]);
    }
    if contains(s, "Wait"@) {
        let i = choose|i: int| matches_at(s, "Wait"@, i);
        assert(s.subrange(i, i + 4)[0] == s[i]);
    }
}

/// A forecast counts, and so does a temperature alone, where the temperatures are numbers: at
/// least, hold no W.
pub proof fn weather_counts(icon: Seq<char>, t: Seq<char>, low: Seq<char>, high: Seq<char>)
    requires
        is_icon(icon),
        without_w(t),
        without_w(low),
        without_w(high),
    ensures
        accepts(RefreshKind::Weather, forecast(icon, t, low, high)),
        accepts(RefreshKind::Weather, icon + " "@ + t + "℃"@),
{
    reveal_strlit("☀");
    reveal_strlit("☁");
    reveal_strlit("☂");
    reveal_strlit("❄");
    reveal_strlit("⚡");
    reveal_strlit("🌫");
    reveal_strlit(" ");
    reveal_strlit("℃");
    reveal_strlit("℃ ");
    reveal_strlit("-");
    text_without_w_is_no_failure(forecast(icon, t, low, high));
    text_without_w_is_no_failure(icon + " "@ + t + "℃"@);
}

} // verus!
