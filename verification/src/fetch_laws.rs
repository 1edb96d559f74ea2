//! What holds of the data from the net: what is asked for and when, what counts, and what is taken
//! from an answer.
use vstd::prelude::*;
use crate::args::Args;
use crate::button::since;
use crate::fetch::{
    ip_pattern, ip_shown, is_letter, json_number_text, like_an_address, places_of, regex_match,
    shortened, FetchReply, PriceFields, INFINITY_BITS, THOUSAND_BITS,
};
use crate::net_agent::{
    accepts, backoff_factor, collected, due, module_name, names_module, seconds_since, wants,
    AgentCfg, NetAgent, RefreshKind, RefreshPlan, IP_CACHE_SECS, MIN_CACHE_SECS, RETRY_SECS,
};
use crate::net_laws::only_an_address_counts;
use crate::text::{
    contains, in_class, is_white, lemma_first_match, lemma_no_match, matches_at, second_part,
    string_views, words, Class,
};
use crate::text_laws::{
    all_in, contained_character_stands_somewhere, contained_is_a_part,
    first_match_has_none_before_it, first_of, free_of, has_part, is_word, match_is_a_part,
    part_is_contained, run_is_as_long_as_it_can_be, text_is_cut_at_the_first, trimming_takes_the_blanks, words_come_apart,
};

verus! {

/// A result counts that says nothing of a failure: no address, price or fetched text with `Err` in
/// it, no weather that begins with `W:`, and nothing but a price with `Wait` in it. A fetched text
/// may be empty, nothing else may.
pub proof fn result_counts_without_a_failure(text: Seq<char>)
    ensures
        accepts(RefreshKind::Ip, text) <==> text.len() > 0 && !has_part(text, seq!['E', 'r', 'r'])
            && !has_part(text, seq!['W', 'a', 'i', 't']),
        accepts(RefreshKind::Weather, text) <==> text.len() > 0 && !(text.len() > 1 && text[0] == 'W'
            && text[1] == ':') && !has_part(text, seq!['W', 'a', 'i', 't']),
        accepts(RefreshKind::Stock, text) <==> text.len() > 0 && !has_part(
            text,
            seq!['E', 'r', 'r'],
        ),
        accepts(RefreshKind::Http, text) <==> !has_part(text, seq!['E', 'r', 'r']) && !has_part(
            text,
            seq!['W', 'a', 'i', 't'],
        ),
{
    reveal_strlit("Err");
    reveal_strlit("Wait");
    reveal_strlit("W:");
    assert("Err"@ =~= seq!['E', 'r', 'r']);
    assert("Wait"@ =~= seq!['W', 'a', 'i', 't']);
    assert("W:"@ =~= seq!['W', ':']);
    part_is_contained(text, "Err"@);
    part_is_contained(text, "Wait"@);
    if text.len() > 1 {
        let two = text.subrange(0, 2);
        assert(two[0] == text[0] && two[1] == text[1]);
        if text[0] == 'W' && text[1] == ':' {
            assert(two =~= "W:"@);
        }
    }
}

/// A good result is remembered with its time, so that it need not be asked for again: weather and a
/// fetched text from now on, an address from when it was first known.
pub proof fn good_result_is_remembered(a: NetAgent, text: String, kind: RefreshKind, now: u64)
    requires
        accepts(kind, text@),
    ensures
        ({
            let b = a.behind_result(text, kind, now);
            &&& kind == RefreshKind::Weather ==> b.cached_weather_text == text
                && b.cached_weather_time == now
            &&& kind == RefreshKind::Http ==> b.cached_http_text == text && b.cached_http_time == now
            &&& kind == RefreshKind::Ip ==> b.cached_ip_text == text
            &&& kind == RefreshKind::Ip && text@ != a.cached_ip_text@ ==> b.cached_ip_time == now
            &&& kind == RefreshKind::Ip && text@ == a.cached_ip_text@ ==> b.cached_ip_time
                == a.cached_ip_time
        }),
{
}

/// A result changes nothing that is remembered of another kind, no setting, and nothing else that is
/// shown.
pub proof fn result_leaves_the_rest(a: NetAgent, text: String, kind: RefreshKind, now: u64)
    ensures
        ({
            let b = a.behind_result(text, kind, now);
            &&& b.cfg == a.cfg
            &&& b.snapshot.pings == a.snapshot.pings && b.snapshot.sun == a.snapshot.sun
            &&& kind != RefreshKind::Weather ==> b.cached_weather_text == a.cached_weather_text
                && b.cached_weather_time == a.cached_weather_time && b.snapshot.weather
                == a.snapshot.weather
            &&& kind != RefreshKind::Http ==> b.cached_http_text == a.cached_http_text
                && b.cached_http_time == a.cached_http_time && b.snapshot.http_text
                == a.snapshot.http_text
            &&& kind != RefreshKind::Ip ==> b.cached_ip_text == a.cached_ip_text && b.cached_ip_time
                == a.cached_ip_time && b.snapshot.ip == a.snapshot.ip
            &&& kind != RefreshKind::Stock ==> b.snapshot.stock_text == a.snapshot.stock_text
        }),
{
}

/// Results are taken in one behind the other.
pub proof fn results_are_taken_in_turn(
    a: NetAgent,
    first: Seq<(String, RefreshKind)>,
    one: (String, RefreshKind),
    second: Seq<(String, RefreshKind)>,
    now: u64,
)
    ensures
        a.behind_results(first + second, now) == a.behind_results(first, now).behind_results(
            second,
            now,
        ),
        a.behind_results(seq![one], now) == a.behind_result(one.0, one.1, now),
        a.behind_results(Seq::<(String, RefreshKind)>::empty(), now) == a,
    decreases second.len(),
{
    assert(seq![one].drop_last() =~= Seq::<(String, RefreshKind)>::empty());
    reveal_with_fuel(NetAgent::behind_results, 2);
    if second.len() == 0 {
        assert(first + second =~= first);
    } else {
        results_are_taken_in_turn(a, first, one, second.drop_last(), now);
        assert((first + second).drop_last() =~= first + second.drop_last());
        assert((first + second).last() == second.last());
    }
}

/// Seconds are whole.
pub proof fn seconds_are_whole(start: u64, secs: nat, nanos: nat)
    requires
        nanos < 1_000_000_000,
        start + secs * 1_000_000_000 + nanos <= u64::MAX,
    ensures
        seconds_since(start, (start + secs * 1_000_000_000 + nanos) as u64) == secs,
        secs + nanos > 0 ==> seconds_since(
            (start + secs * 1_000_000_000 + nanos) as u64,
            start,
        ) == 0,
{
}

/// A try is due when the time of the setting has passed since the last one: once without a failure,
/// twice behind one, four times behind two, eight times behind three and more.
pub proof fn try_is_due_in_its_time(failures: u32, last: u64, cache_secs: u64, now: u64)
    ensures
        due(0, last, cache_secs, now) <==> since(last, now) >= cache_secs * 1_000_000_000,
        due(1, last, cache_secs, now) <==> since(last, now) >= cache_secs * 2_000_000_000,
        due(2, last, cache_secs, now) <==> since(last, now) >= cache_secs * 4_000_000_000,
        failures >= 3 ==> (due(failures, last, cache_secs, now) <==> since(last, now) >= cache_secs
            * 8_000_000_000),
        backoff_factor(0) == 1 && backoff_factor(1) == 2 && backoff_factor(2) == 4,
{
}

/// The agent looks again within half a minute where anything has failed, and else when its data are
/// no longer fresh.
pub proof fn agent_sleeps_as_long_as_it_may(a: NetAgent)
    ensures
        a.backoff_secs() == (if a.backoff.weather == 0 && a.backoff.ip == 0 && a.backoff.stock == 0
            && a.backoff.http == 0 {
            None
        } else {
            Some(30int)
        }),
        a.backoff_secs() is None ==> a.sleep_secs() == a.cfg.cache_secs,
        a.backoff_secs() is Some ==> {
            &&& a.cfg.cache_secs <= 10 ==> a.sleep_secs() == 10
            &&& 10 <= a.cfg.cache_secs <= 30 ==> a.sleep_secs() == a.cfg.cache_secs
            &&& a.cfg.cache_secs >= 30 ==> a.sleep_secs() == 30
        },
        MIN_CACHE_SECS == 10 && RETRY_SECS == 30 && IP_CACHE_SECS == 60 * 60,
{
}

/// The place of a kind in a row of results.
pub open spec fn place(kind: RefreshKind) -> int {
    match kind {
        RefreshKind::Ip => 0,
        RefreshKind::Weather => 1,
        RefreshKind::Stock => 2,
        RefreshKind::Http => 3,
    }
}

/// Whether a plan refreshes a kind of data.
pub open spec fn refreshes(plan: RefreshPlan, kind: RefreshKind) -> bool {
    match kind {
        RefreshKind::Ip => plan.ip,
        RefreshKind::Weather => plan.weather,
        RefreshKind::Stock => plan.stock,
        RefreshKind::Http => plan.http,
    }
}

/// What was refreshed has one result, its own, and all else has none. The results stand in the order
/// of the kinds.
pub proof fn refreshed_data_have_one_result(
    plan: RefreshPlan,
    ip: String,
    weather: String,
    stock: String,
    http: String,
    kind: RefreshKind,
    i: int,
    j: int,
)
    ensures
        ({
            let all = collected(plan, ip, weather, stock, http);
            let own = match kind {
                RefreshKind::Ip => ip,
                RefreshKind::Weather => weather,
                RefreshKind::Stock => stock,
                RefreshKind::Http => http,
            };
            &&& refreshes(plan, kind) ==> exists|k: int|
                0 <= k < all.len() && #[trigger] all[k] == (own, kind)
            &&& 0 <= i < all.len() ==> refreshes(plan, all[i].1) && (all[i].1 == kind ==> all[i].0
                == own)
            &&& 0 <= i < j < all.len() ==> place(all[i].1) < place(all[j].1)
        }),
{
    let all = collected(plan, ip, weather, stock, http);
    let a: int = if plan.ip {
        1
    } else {
        0
    };
    let b: int = a + if plan.weather {
        1int
    } else {
        0
    };
    let c: int = b + if plan.stock {
        1int
    } else {
        0
    };
    if plan.ip {
        assert(all[0] == (ip, RefreshKind::Ip));
    }
    if plan.weather {
        assert(all[a] == (weather, RefreshKind::Weather));
    }
    if plan.stock {
        assert(all[b] == (stock, RefreshKind::Stock));
    }
    if plan.http {
        assert(all[c] == (http, RefreshKind::Http));
    }
}

/// A known address is good for an hour.
pub proof fn known_address_is_good_for_an_hour(a: NetAgent, now: u64)
    ensures
        a.fresh_ip(now) <==> a.cached_ip_text@.len() > 0 && !has_part(
            a.cached_ip_text@,
            seq!['E', 'r', 'r'],
        ) && since(a.cached_ip_time, now) < 3_600_000_000_000,
{
    reveal_strlit("Err");
    assert("Err"@ =~= seq!['E', 'r', 'r']);
    part_is_contained(a.cached_ip_text@, "Err"@);
}

/// Only what is planned is asked for. Weather always is; an address that is known is not, for an
/// hour; without an address to ask, neither a price is nor a text; and no text that is fresh.
pub proof fn only_what_is_missing_is_asked_for(a: NetAgent, plan: RefreshPlan, now: u64)
    ensures
        ({
            let r = a.requested(plan, now);
            &&& r.weather == plan.weather
            &&& r.ip <==> plan.ip && !a.fresh_ip(now)
            &&& r.stock <==> plan.stock && a.cfg.stock_url@.len() > 0
            &&& r.http ==> plan.http && a.cfg.custom_http_url@.len() > 0
            &&& plan.http && a.cfg.custom_http_url@.len() > 0 && a.cached_http_text@.len() == 0
                ==> r.http
            &&& plan.http && a.cfg.custom_http_url@.len() > 0 ==> (!r.http <==>
                a.cached_http_text@.len() > 0 && since(a.cached_http_time, now) < a.cfg.cache_secs
                * 1_000_000_000)
        }),
{
}

/// An entry names its module before a hash sign or a colon.
pub proof fn entry_names_its_module(name: Seq<char>, rest: Seq<char>)
    requires
        free_of(name, '#'),
        free_of(name, ':'),
    ensures
        module_name(name) == name,
        module_name(name + seq!['#'] + rest) == name,
        module_name(name + seq![':'] + rest) == name,
{
    text_is_cut_at_the_first(name, '#', rest);
    text_is_cut_at_the_first(name, ':', rest);
    let s = name + seq![':'] + rest;
    if free_of(rest, '#') {
        assert(free_of(s, '#')) by {
            assert forall|i: int| 0 <= i < s.len() implies #[trigger] s[i] != '#' by {
                if i < name.len() {
                    assert(s[i] == name[i]);
                } else if i > name.len() {
                    assert(s[i] == rest[i - name.len() - 1]);
                }
            }
        }
        text_is_cut_at_the_first(s, '#', rest);
    } else {
        let n = first_of(rest, '#');
        let m = rest.take(n);
        let front = name + seq![':'] + m;
        assert(s =~= front + seq!['#'] + rest.skip(n + 1));
        assert(free_of(front, '#')) by {
            assert forall|i: int| 0 <= i < front.len() implies #[trigger] front[i] != '#' by {
                if i < name.len() {
                    assert(front[i] == name[i]);
                } else if i > name.len() {
                    assert(front[i] == m[i - name.len() - 1]);
                }
            }
        }
        text_is_cut_at_the_first(front, '#', rest.skip(n + 1));
        text_is_cut_at_the_first(name, ':', m);
    }
}

/// A profile names the modules of its entries, which blanks separate, and no others.
pub proof fn profile_names_its_entries(a: Seq<char>, b: Seq<char>, name: Seq<char>)
    ensures
        names_module(a + seq![' '] + b, name) <==> names_module(a, name) || names_module(b, name),
        is_word(a) ==> (names_module(a, name) <==> module_name(a) == name),
        !names_module(Seq::<char>::empty(), name),
{
    words_come_apart(a, ' ', b);
    let all = words(a + seq![' '] + b);
    let left = words(a);
    let right = words(b);
    if names_module(a + seq![' '] + b, name) {
        let j = choose|j: int| 0 <= j < all.len() && module_name(#[trigger] all[j]) == name;
        if j < left.len() {
            assert(all[j] == left[j]);
        } else {
            assert(all[j] == right[j - left.len()]);
        }
    }
    if names_module(a, name) {
        let j = choose|j: int| 0 <= j < left.len() && module_name(#[trigger] left[j]) == name;
        assert(all[j] == left[j]);
    }
    if names_module(b, name) {
        let j = choose|j: int| 0 <= j < right.len() && module_name(#[trigger] right[j]) == name;
        assert(all[left.len() + j] == right[j]);
    }
    if is_word(a) {
        assert(left[0] == a);
    }
}

/// A module is wanted where one of the profiles names it.
pub proof fn one_profile_is_enough(profiles: Seq<Seq<char>>, p: Seq<char>, name: Seq<char>)
    ensures
        wants(profiles.push(p), name) <==> wants(profiles, name) || names_module(p, name),
        !wants(Seq::<Seq<char>>::empty(), name),
{
    let all = profiles.push(p);
    if wants(all, name) {
        let i = choose|i: int| 0 <= i < all.len() && names_module(#[trigger] all[i], name);
        if i < profiles.len() {
            assert(all[i] == profiles[i]);
        }
    }
    if wants(profiles, name) {
        let i = choose|i: int| 0 <= i < profiles.len() && names_module(
            #[trigger] profiles[i],
            name,
        );
        assert(all[i] == profiles[i]);
    }
    if names_module(p, name) {
        assert(all[profiles.len() as int] == p);
    }
}

/// An address is shown behind its mark, whole; where none was found, the failure is.
pub proof fn address_is_shown_whole(m: Seq<char>, c: char)
    ensures
        ip_shown(Some(m)) == seq!['I', 'P', ':'] + m,
        ip_shown(None) == seq!['I', 'P', ':', 'E', 'r', 'r'],
        like_an_address(m) ==> 7 <= m.len() <= 15 && free_of(m, 'E') && free_of(m, 'W'),
        is_letter(c) <==> 65 <= c as u32 <= 90 || 97 <= c as u32 <= 122,
        ip_pattern() == "\\b(?:\\d{1,3}\\.){3}\\d{1,3}\\b"@,
{
    reveal_strlit("IP:");
    reveal_strlit("IP:Err");
    assert("IP:"@ =~= seq!['I', 'P', ':']);
    assert("IP:Err"@ =~= seq!['I', 'P', ':', 'E', 'r', 'r']);
    assert(is_letter('E') && is_letter('W'));
    if like_an_address(m) {
        assert forall|i: int| 0 <= i < m.len() implies #[trigger] m[i] != 'E' && m[i] != 'W' by {
            assert(!is_letter(m[i]));
        }
    }
}

/// A fetched text is shown without the blanks round it: whole where it is short enough, and else as
/// many of its first characters as may be.
pub proof fn fetched_text_is_cut_at_its_end(
    front: Seq<char>,
    s: Seq<char>,
    more: Seq<char>,
    back: Seq<char>,
    n: nat,
)
    requires
        all_in(front, Class::White),
        all_in(back, Class::White),
        s.len() > 0 ==> !is_white(s[0]) && !is_white(s.last()),
        more.len() > 0 ==> s.len() > 0 && !is_white(more.last()),
    ensures
        s.len() <= n ==> shortened(front + s + back, n) == s,
        s.len() == n && more.len() > 0 ==> shortened(front + (s + more) + back, n) == s,
{
    trimming_takes_the_blanks(front, s, back);
    if more.len() > 0 {
        assert((s + more).last() == more.last());
        assert((s + more)[0] == s[0]);
        trimming_takes_the_blanks(front, s + more, back);
        assert((s + more).take(s.len() as int) =~= s);
    }
}

/// The number under a key is what stands behind the key in quotes and a colon, blanks before it or
/// not, as far as it looks like a number. Without the key there is none.
pub proof fn number_stands_behind_its_key(
    a: Seq<char>,
    key: Seq<char>,
    between: Seq<char>,
    blanks: Seq<char>,
    number: Seq<char>,
    rest: Seq<char>,
    text: Seq<char>,
)
    requires
        free_of(between, ':'),
        all_in(blanks, Class::White),
        number.len() > 0,
        all_in(number, Class::Number),
        free_of(rest, ':'),
        rest.len() > 0 ==> !in_class(Class::Number, rest[0]),
        ({
            let p = seq!['"'] + key + seq!['"'];
            let m = between + seq![':'] + (blanks + number + rest);
            &&& !contains(m, p)
            &&& forall|j: int| 0 <= j < a.len() ==> !#[trigger] matches_at(a + p + m, p, j)
            &&& !contains(text, p)
        }),
    ensures
        json_number_text(
            a + (seq!['"'] + key + seq!['"']) + (between + seq![':'] + (blanks + number + rest)),
            key,
        ) == Some(number),
        json_number_text(text, key) is None,
{
    reveal_strlit("\"");
    reveal_strlit(":");
    assert("\""@ =~= seq!['"']);
    assert(":"@ =~= seq![':']);
    let p = seq!['"'] + key + seq!['"'];
    let v = blanks + number + rest;
    let m = between + seq![':'] + v;
    lemma_only_second_part(a, p, m);
    lemma_value_is_free(blanks, number, rest);
    lemma_behind_the_colon(between, v);
    run_is_as_long_as_it_can_be(blanks, number + rest, Class::White);
    assert(in_class(Class::Number, number[0]));
    assert(blanks + (number + rest) =~= v);
    assert(v.skip(blanks.len() as int) =~= number + rest);
    run_is_as_long_as_it_can_be(number, rest, Class::Number);
    assert((number + rest).take(number.len() as int) =~= number);
    first_match_has_none_before_it(text, p);
}

proof fn lemma_only_second_part(a: Seq<char>, p: Seq<char>, m: Seq<char>)
    requires
        p.len() > 0,
        !contains(m, p),
        forall|j: int| 0 <= j < a.len() ==> !#[trigger] matches_at(a + p + m, p, j),
    ensures
        second_part(a + p + m, p) == Some(m),
{
    let s = a + p + m;
    contained_is_a_part(a, p, m, s);
    match_is_a_part(a, p, m, s, 0);
    lemma_first_match(s, p, a.len() as int);
    assert(s.skip((a.len() + p.len()) as int) =~= m);
    lemma_no_match(m, p);
}

proof fn lemma_value_is_free(blanks: Seq<char>, number: Seq<char>, rest: Seq<char>)
    requires
        all_in(blanks, Class::White),
        all_in(number, Class::Number),
        free_of(rest, ':'),
    ensures
        free_of(blanks + number + rest, ':'),
{
    let v = blanks + number + rest;
    assert forall|i: int| 0 <= i < v.len() implies #[trigger] v[i] != ':' by {
        if i < blanks.len() {
            assert(v[i] == blanks[i]);
            assert(in_class(Class::White, blanks[i]));
        } else if i < blanks.len() + number.len() {
            assert(v[i] == number[i - blanks.len()]);
            assert(in_class(Class::Number, number[i - blanks.len()]));
        } else {
            assert(v[i] == rest[i - blanks.len() - number.len()]);
        }
    }
}

proof fn lemma_behind_the_colon(between: Seq<char>, v: Seq<char>)
    requires
        free_of(between, ':'),
        free_of(v, ':'),
    ensures
        second_part(between + seq![':'] + v, seq![':']) == Some(v),
{
    let p = seq![':'];
    let m = between + p + v;
    contained_character_stands_somewhere(v, ':');
    assert forall|j: int| 0 <= j < between.len() implies !#[trigger] matches_at(m, p, j) by {
        if matches_at(m, p, j) {
            assert(m.subrange(j, j + 1)[0] == m[j]);
            assert(m[j] == between[j]);
        }
    }
    lemma_only_second_part(between, p, v);
}

/// The bits of a thousand and of infinity, as the format of double-precision numbers has them: the
/// exponent, counted from -1023, and behind it the fraction.
pub proof fn thousand_is_a_double()
    ensures
        THOUSAND_BITS == (1023 + 9) * 0x10_0000_0000_0000 + (1000 - 512) * (0x10_0000_0000_0000int
            / 512),
        INFINITY_BITS == 2047 * 0x10_0000_0000_0000,
{
}

/// What a profile names is wanted: the weather, the address under either name, the price, and the
/// text. All else is taken from the settings as it is, but that nothing is fetched more often than
/// every ten seconds.
pub proof fn settings_are_kept(c: AgentCfg, args: Args)
    requires
        c.is_asked_by(args),
    ensures
        ({
            let profiles = string_views(args.profile@);
            &&& c.want_weather <==> wants(profiles, seq!['w', 'e', 'a', 't', 'h', 'e', 'r'])
            &&& c.want_ip <==> wants(profiles, seq!['i', 'p']) || wants(
                profiles,
                seq!['w', 'a', 'n', '_', 'i', 'p'],
            )
            &&& c.want_stock <==> wants(profiles, seq!['s', 't', 'o', 'c', 'k'])
            &&& c.want_http <==> wants(profiles, "http_custom"@)
        }),
        args.http_cache_secs >= 10 ==> c.cache_secs == args.http_cache_secs,
        args.http_cache_secs < 10 ==> c.cache_secs == 10,
        c.weather_city == args.weather_city && c.weather_source == args.weather_source,
        c.seniverse_key == args.seniverse_key && c.ip_url == args.ip_url,
        c.custom_http_url == args.custom_http_url && c.http_length == args.http_length,
        c.stock_url == args.stock_url,
{
    reveal_strlit("weather");
    reveal_strlit("ip");
    reveal_strlit("wan_ip");
    reveal_strlit("stock");
    assert("weather"@ =~= seq!['w', 'e', 'a', 't', 'h', 'e', 'r']);
    assert("ip"@ =~= seq!['i', 'p']);
    assert("wan_ip"@ =~= seq!['w', 'a', 'n', '_', 'i', 'p']);
    assert("stock"@ =~= seq!['s', 't', 'o', 'c', 'k']);
}

/// What is wanted is refreshed once its time has passed: without failures after the seconds of the
/// setting. A price is always refreshed, and what is not wanted never is.
pub proof fn wanted_data_are_refreshed_in_time(a: NetAgent, now: u64)
    ensures
        ({
            let p = a.planned(now);
            &&& p.stock == a.cfg.want_stock
            &&& p.ip ==> a.cfg.want_ip
            &&& p.weather ==> a.cfg.want_weather
            &&& p.http ==> a.cfg.want_http
            &&& a.backoff.ip == 0 && a.cfg.want_ip ==> (p.ip <==> since(a.cached_ip_time, now)
                >= a.cfg.cache_secs * 1_000_000_000)
            &&& a.backoff.weather == 0 && a.cfg.want_weather ==> (p.weather <==> since(
                a.cached_weather_time,
                now,
            ) >= a.cfg.cache_secs * 1_000_000_000)
            &&& a.backoff.http == 0 && a.cfg.want_http ==> (p.http <==> since(
                a.cached_http_time,
                now,
            ) >= a.cfg.cache_secs * 1_000_000_000)
            &&& a.cfg.want_ip ==> p.ip == due(
                a.backoff.ip,
                a.cached_ip_time,
                a.cfg.cache_secs,
                now,
            )
            &&& a.cfg.want_weather ==> p.weather == due(
                a.backoff.weather,
                a.cached_weather_time,
                a.cfg.cache_secs,
                now,
            )
            &&& a.cfg.want_http ==> p.http == due(
                a.backoff.http,
                a.cached_http_time,
                a.cfg.cache_secs,
                now,
            )
        }),
{
}

/// An address that was found counts, and is not asked for again within the hour. No other answer to
/// the request counts, or changes what is known.
pub proof fn found_address_is_kept(
    a: NetAgent,
    reply: FetchReply,
    now: u64,
    later: u64,
    plan: RefreshPlan,
    next: NetAgent,
    r: String,
)
    requires
        a.takes_address(reply, now, next, r),
        now <= later,
    ensures
        accepts(RefreshKind::Ip, r@) && later - now < 3_600_000_000_000 ==> {
            &&& next.fresh_ip(later)
            &&& !next.requested(plan, later).ip
            &&& next.cached_ip_text == r
        },
        accepts(RefreshKind::Ip, r@) ==> reply is Body,
        !accepts(RefreshKind::Ip, r@) ==> next == a,
        reply is NetErr ==> r@ == "IP:NetErr"@,
        reply is BodyErr ==> r@ == "IP:Err"@,
        next == (NetAgent {
            cached_ip_text: next.cached_ip_text,
            cached_ip_time: next.cached_ip_time,
            ..a
        }),
{
    only_an_address_counts(None);
    assert(ip_shown(None) == "IP:Err"@);
    if let FetchReply::Body(text) = reply {
        if let Some(found) = regex_match(ip_pattern(), text@) {
            only_an_address_counts(found);
        }
    }
}

/// A fetched text is kept, cut to its length, and not asked for again while it is fresh. A failed
/// request shows the last text again, and changes nothing.
pub proof fn fetched_text_is_kept(
    a: NetAgent,
    reply: FetchReply,
    now: u64,
    later: u64,
    plan: RefreshPlan,
    next: NetAgent,
    r: String,
)
    requires
        a.takes_text(reply, now, next, r),
        now <= later,
    ensures
        reply is Body ==> {
            &&& r@.len() <= a.cfg.http_length
            &&& next.cached_http_text == r
            &&& r@.len() > 0 && later - now < a.cfg.cache_secs * 1_000_000_000 ==> !next.requested(
                plan,
                later,
            ).http
            &&& r@.len() > 0 && later - now < a.cfg.cache_secs * 1_000_000_000
                && a.cfg.custom_http_url@.len() > 0 ==> next.kept_text(later) == Some(r@)
        },
        !(reply is Body) ==> next == a,
        reply is BodyErr ==> !accepts(RefreshKind::Http, r@),
        reply is NetErr && a.cached_http_text@.len() > 0 ==> r@ == a.cached_http_text@,
        reply is NetErr && a.cached_http_text@.len() == 0 ==> !accepts(RefreshKind::Http, r@),
        next == (NetAgent {
            cached_http_text: next.cached_http_text,
            cached_http_time: next.cached_http_time,
            ..a
        }),
{
    reveal_strlit("HTTP:Err");
    reveal_strlit("HTTP:Wait");
    reveal_strlit("Err");
    reveal_strlit("Wait");
    assert("HTTP:Err"@.subrange(5, 8) =~= "Err"@);
    assert(matches_at("HTTP:Err"@, "Err"@, 5));
    assert("HTTP:Wait"@.subrange(5, 9) =~= "Wait"@);
    assert(matches_at("HTTP:Wait"@, "Wait"@, 5));
}

/// A text need not be asked for where there is no address to ask, and then there is none, or where
/// it is fresh.
pub proof fn kept_text_is_what_need_not_be_asked_for(a: NetAgent, plan: RefreshPlan, now: u64)
    requires
        plan.http,
    ensures
        a.kept_text(now) is None <==> a.requested(plan, now).http,
        a.cfg.custom_http_url@.len() == 0 ==> (a.kept_text(now) matches Some(s) && s.len() == 0),
        a.cfg.custom_http_url@.len() > 0 ==> (a.kept_text(now) matches Some(s) ==> s
            == a.cached_http_text@ && s.len() > 0),
{
}

/// A line of weather that counts is kept with its time; a failure changes nothing.
pub proof fn fetched_weather_is_kept(a: NetAgent, line: String, now: u64)
    ensures
        accepts(RefreshKind::Weather, line@) ==> a.behind_weather(line, now) == (NetAgent {
            cached_weather_text: line,
            cached_weather_time: now,
            ..a
        }),
        line@.len() > 0 && !accepts(RefreshKind::Weather, line@) ==> a.behind_weather(line, now)
            == a,
{
}

/// The price of an answer goes before the last one, and that before the one of the close; a price as
/// a text counts as its number.
pub proof fn price_goes_before_the_others(f: PriceFields, parsed: Option<u64>)
    ensures
        f.price is Some ==> f.picked(parsed) == f.price,
        f.price is None && f.price_text is Some && parsed is Some ==> f.picked(parsed) == parsed,
        f.price is None && (f.price_text is None || parsed is None) ==> {
            &&& f.last is Some ==> f.picked(parsed) == f.last
            &&& f.last is None ==> f.picked(parsed) == f.close
        },
{
}

/// A price above a thousand has no places, any other two.
pub proof fn large_price_has_no_places(bits: u64)
    ensures
        0x408f_4000_0000_0000 < bits <= 0x7ff0_0000_0000_0000 ==> places_of(bits) == 0,
        bits <= 0x408f_4000_0000_0000 || bits > 0x7ff0_0000_0000_0000 ==> places_of(bits) == 2,
{
}

/// The agent sleeps in slices of two seconds, as many as fit into its time, and one at least.
pub proof fn slices_fill_the_time(a: NetAgent)
    ensures
        a.slices() >= 1,
        a.sleep_secs() >= 2 ==> 2 * a.slices() <= a.sleep_secs() < 2 * a.slices() + 2,
        a.sleep_secs() < 2 ==> a.slices() == 1,
{
}

} // verus!
