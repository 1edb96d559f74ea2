//! The data from the net: what to refresh and when, which answers count, and
//! what is shown meanwhile.
//!
//! Times are nanoseconds of a clock that never goes back.
use std::collections::HashMap;
use vstd::prelude::*;
use crate::args::Args;
use crate::button::{elapsed, since};
use crate::fetch::{
    ip_of_body, ip_pattern, ip_shown, like_an_address, regex_match, shorten, shortened, FetchReply,
};
use crate::text::{
    before, begins, chars_of, contains, cut_before, holds, same, same_chars, split_words, starts_with,
    string_views, views, words,
};

verus! {

/// What is known from the net, for the screen.
#[derive(Debug, Clone)]
pub struct NetSnapshot {
    pub weather: String,
    pub ip: String,
    pub stock_text: String,
    pub http_text: String,
    pub pings: HashMap<String, String>,
    pub sun: String,
}

impl Default for NetSnapshot {
    /// What is shown before the first answer.
    fn default() -> (s: NetSnapshot)
        ensures
            s.weather@ == "Wait..."@,
            s.ip@ == "IP:Wait"@,
            s.stock_text@.len() == 0,
            s.http_text@.len() == 0,
            s.pings@ == Map::<String, String>::empty(),
            s.sun@ == "SUN:--"@,
    {
        NetSnapshot {
            weather: "Wait...".to_string(),
            ip: "IP:Wait".to_string(),
            stock_text: String::new(),
            http_text: String::new(),
            pings: HashMap::new(),
            sun: "SUN:--".to_string(),
        }
    }
}

/// How often each kind of data has failed in a row, up to three times.
#[derive(Clone, Copy, Debug, PartialEq, Eq, Structural)]
pub struct Backoffs {
    pub weather: u32,
    pub ip: u32,
    pub stock: u32,
    pub http: u32,
}

impl Backoffs {
    pub open spec fn wf(self) -> bool {
        self.weather <= 3 && self.ip <= 3 && self.stock <= 3 && self.http <= 3
    }
}

impl Default for Backoffs {
    fn default() -> (b: Backoffs)
        ensures
            b == (Backoffs { weather: 0, ip: 0, stock: 0, http: 0 }),
            b.wf(),
    {
        Backoffs { weather: 0, ip: 0, stock: 0, http: 0 }
    }
}

/// A kind of data.
#[derive(Clone, Copy, Debug, PartialEq, Eq, Structural)]
pub enum RefreshKind {
    Ip,
    Weather,
    Stock,
    Http,
}

/// What to fetch, from where, and how often.
#[derive(Debug)]
pub struct AgentCfg {
    pub cache_secs: u64,
    pub weather_city: String,
    pub weather_source: String,
    pub seniverse_key: String,
    pub ip_url: String,
    pub custom_http_url: String,
    pub http_length: usize,
    pub stock_url: String,
    pub want_weather: bool,
    pub want_ip: bool,
    pub want_stock: bool,
    pub want_http: bool,
}

/// The module that an entry of a profile names: what stands before a hash sign or a colon.
pub open spec fn module_name(token: Seq<char>) -> Seq<char> {
    before(before(token, '#'), ':')
}

/// A profile names a module.
pub open spec fn names_module(profile: Seq<char>, name: Seq<char>) -> bool {
    exists|j: int| 0 <= j < words(profile).len() && module_name(#[trigger] words(profile)[j]) == name
}

/// One of the profiles names a module.
pub open spec fn wants(profiles: Seq<Seq<char>>, name: Seq<char>) -> bool {
    exists|i: int| 0 <= i < profiles.len() && names_module(#[trigger] profiles[i], name)
}

/// Whether a profile names a module.
fn profile_names(profile: &str, name: &[char]) -> (r: bool)
    ensures
        r == names_module(profile@, name@),
{
    let cs = chars_of(profile);
    let tokens = split_words(cs.as_slice());
    let mut j: usize = 0;
    while j < tokens.len()
        invariant
            j <= tokens.len(),
            views(tokens@) == words(profile@),
            forall|k: int| 0 <= k < j ==> module_name(#[trigger] words(profile@)[k]) != name@,
        decreases tokens.len() - j,
    {
        let token = tokens[j].as_slice();
        assert(token@ == views(tokens@)[j as int]);
        if same_chars(cut_before(cut_before(token, '#'), ':'), name) {
            return true;
        }
        j += 1;
    }
    false
}

/// Whether one of the profiles names a module.
fn profiles_want(profiles: &Vec<String>, name: &str) -> (r: bool)
    ensures
        r == wants(string_views(profiles@), name@),
{
    let n = chars_of(name);
    let ghost all = string_views(profiles@);
    let mut i: usize = 0;
    while i < profiles.len()
        invariant
            i <= profiles.len(),
            n@ == name@,
            all == string_views(profiles@),
            forall|k: int| 0 <= k < i ==> !names_module(#[trigger] all[k], name@),
        decreases profiles.len() - i,
    {
        if profile_names(profiles[i].as_str(), n.as_slice()) {
            assert(names_module(all[i as int], name@));
            return true;
        }
        i += 1;
    }
    false
}

/// The shortest time, in seconds, that data stay fresh.
pub const MIN_CACHE_SECS: u64 = 10;

impl AgentCfg {
    /// The settings ask for this.
    pub open spec fn is_asked_by(self, args: Args) -> bool {
        let profiles = string_views(args.profile@);
        &&& self.cache_secs == (if args.http_cache_secs < MIN_CACHE_SECS {
            MIN_CACHE_SECS
        } else {
            args.http_cache_secs
        })
        &&& self.weather_city == args.weather_city
        &&& self.weather_source == args.weather_source
        &&& self.seniverse_key == args.seniverse_key
        &&& self.ip_url == args.ip_url
        &&& self.custom_http_url == args.custom_http_url
        &&& self.http_length == args.http_length
        &&& self.stock_url == args.stock_url
        &&& self.want_weather == wants(profiles, "weather"@)
        &&& self.want_ip == (wants(profiles, "ip"@) || wants(profiles, "wan_ip"@))
        &&& self.want_stock == wants(profiles, "stock"@)
        &&& self.want_http == wants(profiles, "http_custom"@)
    }

    /// What the settings ask for: only the data that a profile names are fetched, and never more
    /// often than every ten seconds.
    pub fn from_args(args: &Args) -> (c: AgentCfg)
        ensures
            c.is_asked_by(*args),
            c.cache_secs == (if args.http_cache_secs < MIN_CACHE_SECS {
                MIN_CACHE_SECS
            } else {
                args.http_cache_secs
            }),
            c.weather_city == args.weather_city,
            c.weather_source == args.weather_source,
            c.seniverse_key == args.seniverse_key,
            c.ip_url == args.ip_url,
            c.custom_http_url == args.custom_http_url,
            c.http_length == args.http_length,
            c.stock_url == args.stock_url,
            c.want_weather == wants(string_views(args.profile@), "weather"@),
            c.want_ip == (wants(string_views(args.profile@), "ip"@) || wants(
                string_views(args.profile@),
                "wan_ip"@,
            )),
            c.want_stock == wants(string_views(args.profile@), "stock"@),
            c.want_http == wants(string_views(args.profile@), "http_custom"@),
    {
        AgentCfg {
            cache_secs: if args.http_cache_secs < MIN_CACHE_SECS {
                MIN_CACHE_SECS
            } else {
                args.http_cache_secs
            },
            weather_city: args.weather_city.clone(),
            weather_source: args.weather_source.clone(),
            seniverse_key: args.seniverse_key.clone(),
            ip_url: args.ip_url.clone(),
            custom_http_url: args.custom_http_url.clone(),
            http_length: args.http_length,
            stock_url: args.stock_url.clone(),
            want_weather: profiles_want(&args.profile, "weather"),
            want_ip: profiles_want(&args.profile, "ip") || profiles_want(&args.profile, "wan_ip"),
            want_stock: profiles_want(&args.profile, "stock"),
            want_http: profiles_want(&args.profile, "http_custom"),
        }
    }
}

/// Which data to refresh.
#[derive(Clone, Copy, Debug, PartialEq, Eq, Structural)]
pub struct RefreshPlan {
    pub ip: bool,
    pub weather: bool,
    pub stock: bool,
    pub http: bool,
}

/// The results of what was refreshed, in the order of the kinds.
pub open spec fn collected(
    plan: RefreshPlan,
    ip: String,
    weather: String,
    stock: String,
    http: String,
) -> Seq<(String, RefreshKind)> {
    let none = Seq::<(String, RefreshKind)>::empty();
    (if plan.ip {
        seq![(ip, RefreshKind::Ip)]
    } else {
        none
    }) + (if plan.weather {
        seq![(weather, RefreshKind::Weather)]
    } else {
        none
    }) + (if plan.stock {
        seq![(stock, RefreshKind::Stock)]
    } else {
        none
    }) + (if plan.http {
        seq![(http, RefreshKind::Http)]
    } else {
        none
    })
}

/// The results of what was refreshed, in the order of the kinds. What was not refreshed has none.
pub fn collect_results(
    plan: RefreshPlan,
    ip: String,
    weather: String,
    stock: String,
    http: String,
) -> (r: Vec<(String, RefreshKind)>)
    ensures
        r@ == collected(plan, ip, weather, stock, http),
{
    let mut results: Vec<(String, RefreshKind)> = Vec::new();
    if plan.ip {
        results.push((ip, RefreshKind::Ip));
    }
    if plan.weather {
        results.push((weather, RefreshKind::Weather));
    }
    if plan.stock {
        results.push((stock, RefreshKind::Stock));
    }
    if plan.http {
        results.push((http, RefreshKind::Http));
    }
    results
}

/// The whole seconds since a moment.
pub open spec fn seconds_since(start: u64, now: u64) -> int {
    since(start, now) / 1_000_000_000
}

fn secs_since(start: u64, now: u64) -> (r: u64)
    ensures
        r == seconds_since(start, now),
{
    elapsed(start, now) / 1_000_000_000
}

/// By what the time between two tries grows: 1, 2, 4 or 8, for no failure to three and more.
pub open spec fn backoff_factor(failures: u32) -> int {
    if failures == 0 {
        1
    } else if failures == 1 {
        2
    } else if failures == 2 {
        4
    } else {
        8
    }
}

/// Enough time has passed for another try.
pub open spec fn due(failures: u32, last: u64, cache_secs: u64, now: u64) -> bool {
    let wait = cache_secs * backoff_factor(failures);
    seconds_since(last, now) >= if wait > u64::MAX {
        u64::MAX as int
    } else {
        wait
    }
}

fn factor(failures: u32) -> (r: u64)
    ensures
        r == backoff_factor(failures),
{
    let n: u32 = if failures < 3 {
        failures
    } else {
        3
    };
    assert(1u64 << 0u32 == 1 && 1u64 << 1u32 == 2 && 1u64 << 2u32 == 4 && 1u64 << 3u32 == 8)
        by (bit_vector);
    1u64 << n
}

/// Whether enough time has passed for another try.
pub fn should_try(failures: u32, last: u64, cache_secs: u64, now: u64) -> (r: bool)
    ensures
        r == due(failures, last, cache_secs, now),
{
    let wait = match cache_secs.checked_mul(factor(failures)) {
        Some(w) => w,
        None => u64::MAX,
    };
    secs_since(last, now) >= wait
}

/// A result counts: it is no text that says of itself that it is a failure or none yet.
pub open spec fn accepts(kind: RefreshKind, text: Seq<char>) -> bool {
    match kind {
        RefreshKind::Ip => text.len() > 0 && !contains(text, "Err"@) && !contains(text, "Wait"@),
        RefreshKind::Weather => text.len() > 0 && !starts_with(text, "W:"@) && !contains(
            text,
            "Wait"@,
        ),
        RefreshKind::Stock => text.len() > 0 && !contains(text, "Err"@),
        RefreshKind::Http => !contains(text, "Err"@) && !contains(text, "Wait"@),
    }
}

/// Whether a result counts.
pub fn is_good(kind: RefreshKind, text: &str) -> (r: bool)
    ensures
        r == accepts(kind, text@),
{
    match kind {
        RefreshKind::Ip => !text.is_empty() && !holds(text, "Err") && !holds(text, "Wait"),
        RefreshKind::Weather => !text.is_empty() && !begins(text, "W:") && !holds(text, "Wait"),
        RefreshKind::Stock => !text.is_empty() && !holds(text, "Err"),
        RefreshKind::Http => !holds(text, "Err") && !holds(text, "Wait"),
    }
}

/// The count of failures behind a result.
pub open spec fn counted(failures: u32, good: bool) -> u32 {
    if good {
        0
    } else if failures >= 3 {
        3
    } else {
        (failures + 1) as u32
    }
}

fn count(failures: u32, good: bool) -> (r: u32)
    ensures
        r == counted(failures, good),
{
    if good {
        0
    } else if failures >= 3 {
        3
    } else {
        failures + 1
    }
}

/// How long to wait at most, in seconds, once something has failed.
pub const RETRY_SECS: u64 = 30;

/// How long an address stays fresh, in seconds.
pub const IP_CACHE_SECS: u64 = 3600;

/// What the agent knows, and when it learned it.
#[derive(Debug)]
pub struct NetAgent {
    pub snapshot: NetSnapshot,
    pub cfg: AgentCfg,
    pub backoff: Backoffs,
    pub cached_weather_text: String,
    pub cached_weather_time: u64,
    pub cached_ip_text: String,
    pub cached_ip_time: u64,
    pub cached_http_text: String,
    pub cached_http_time: u64,
}

impl NetAgent {
    pub open spec fn wf(self) -> bool {
        self.backoff.wf()
    }

    /// The agent behind a result of one kind. A good one is kept and ends the failures of its
    /// kind; a bad one is counted, and what is shown stays. An address that is known already is
    /// no newer for being handed on.
    pub open spec fn behind_result(self, text: String, kind: RefreshKind, now: u64) -> NetAgent {
        let good = accepts(kind, text@);
        match kind {
            RefreshKind::Ip => {
                let backoff = Backoffs { ip: counted(self.backoff.ip, good), ..self.backoff };
                if good {
                    NetAgent {
                        snapshot: NetSnapshot { ip: text, ..self.snapshot },
                        cached_ip_text: text,
                        cached_ip_time: if text@ == self.cached_ip_text@ {
                            self.cached_ip_time
                        } else {
                            now
                        },
                        backoff,
                        ..self
                    }
                } else {
                    NetAgent { backoff, ..self }
                }
            },
            RefreshKind::Weather => {
                let backoff = Backoffs {
                    weather: counted(self.backoff.weather, good),
                    ..self.backoff
                };
                if good {
                    NetAgent {
                        snapshot: NetSnapshot { weather: text, ..self.snapshot },
                        cached_weather_text: text,
                        cached_weather_time: now,
                        backoff,
                        ..self
                    }
                } else {
                    NetAgent { backoff, ..self }
                }
            },
            RefreshKind::Stock => {
                let backoff = Backoffs { stock: counted(self.backoff.stock, good), ..self.backoff };
                if good {
                    NetAgent {
                        snapshot: NetSnapshot { stock_text: text, ..self.snapshot },
                        backoff,
                        ..self
                    }
                } else {
                    NetAgent { backoff, ..self }
                }
            },
            RefreshKind::Http => {
                let backoff = Backoffs { http: counted(self.backoff.http, good), ..self.backoff };
                if good {
                    NetAgent {
                        snapshot: NetSnapshot { http_text: text, ..self.snapshot },
                        cached_http_text: text,
                        cached_http_time: now,
                        backoff,
                        ..self
                    }
                } else {
                    NetAgent { backoff, ..self }
                }
            },
        }
    }

    /// The agent behind some results, one by one.
    pub open spec fn behind_results(self, results: Seq<(String, RefreshKind)>, now: u64) -> NetAgent
        decreases results.len(),
    {
        if results.len() == 0 {
            self
        } else {
            self.behind_results(results.drop_last(), now).behind_result(
                results.last().0,
                results.last().1,
                now,
            )
        }
    }

    /// An agent that knows nothing yet.
    pub fn new(cfg: AgentCfg, now: u64) -> (a: NetAgent)
        ensures
            a.wf(),
            a.cfg == cfg,
            a.backoff == (Backoffs { weather: 0, ip: 0, stock: 0, http: 0 }),
            a.snapshot.weather@ == "Wait..."@,
            a.snapshot.ip@ == "IP:Wait"@,
            a.snapshot.stock_text@.len() == 0,
            a.snapshot.http_text@.len() == 0,
            a.snapshot.pings@ == Map::<String, String>::empty(),
            a.snapshot.sun@ == "SUN:--"@,
            a.cached_weather_text@ == "Wait..."@,
            a.cached_ip_text@ == "IP:Err"@,
            a.cached_http_text@.len() == 0,
            a.cached_weather_time == now,
            a.cached_ip_time == now,
            a.cached_http_time == now,
    {
        NetAgent {
            snapshot: NetSnapshot::default(),
            cfg,
            backoff: Backoffs::default(),
            cached_weather_text: "Wait...".to_string(),
            cached_weather_time: now,
            cached_ip_text: "IP:Err".to_string(),
            cached_ip_time: now,
            cached_http_text: String::new(),
            cached_http_time: now,
        }
    }

    /// What is known from the net.
    pub fn snapshot(&self) -> (s: &NetSnapshot)
        ensures
            *s == self.snapshot,
    {
        &self.snapshot
    }

    /// How many seconds to wait where something has failed.
    pub open spec fn backoff_secs(self) -> Option<int> {
        let b = self.backoff;
        if b.weather > 0 || b.ip > 0 || b.stock > 0 || b.http > 0 {
            Some(RETRY_SECS as int)
        } else {
            None
        }
    }

    /// How many seconds to wait where something has failed.
    pub fn backoff_sleep_secs(&self) -> (r: Option<u64>)
        ensures
            match r {
                Some(n) => self.backoff_secs() == Some(n as int),
                None => self.backoff_secs() is None,
            },
    {
        let b = self.backoff;
        if b.weather > 0 || b.ip > 0 || b.stock > 0 || b.http > 0 {
            Some(RETRY_SECS)
        } else {
            None
        }
    }

    /// The seconds until the next look, were they not cut into slices.
    pub open spec fn sleep_secs(self) -> int {
        let fresh = if self.cfg.cache_secs < MIN_CACHE_SECS {
            MIN_CACHE_SECS as int
        } else {
            self.cfg.cache_secs as int
        };
        let wanted = match self.backoff_secs() {
            Some(n) => n,
            None => self.cfg.cache_secs as int,
        };
        if wanted < fresh {
            wanted
        } else {
            fresh
        }
    }

    /// How many slices of two seconds to sleep until the next look.
    pub open spec fn slices(self) -> int {
        if self.sleep_secs() < 2 {
            1
        } else {
            self.sleep_secs() / 2
        }
    }

    /// How many slices of two seconds to sleep until the next look.
    pub fn sleep_slices(&self) -> (r: u64)
        ensures
            r == self.slices(),
            r == (if self.sleep_secs() / 2 < 1 {
                1
            } else {
                self.sleep_secs() / 2
            }),
    {
        let shortest = match self.backoff_sleep_secs() {
            Some(n) => n,
            None => self.cfg.cache_secs,
        };
        let fresh = if self.cfg.cache_secs < MIN_CACHE_SECS {
            MIN_CACHE_SECS
        } else {
            self.cfg.cache_secs
        };
        let sleep = if shortest < fresh {
            shortest
        } else {
            fresh
        };
        if sleep / 2 < 1 {
            1
        } else {
            sleep / 2
        }
    }

    /// What to refresh at the start: everything.
    pub fn force_refresh_all() -> (p: RefreshPlan)
        ensures
            p == (RefreshPlan { ip: true, weather: true, stock: true, http: true }),
    {
        RefreshPlan { ip: true, weather: true, stock: true, http: true }
    }

    /// What is wanted and due.
    pub open spec fn planned(self, now: u64) -> RefreshPlan {
        let cache = self.cfg.cache_secs;
        RefreshPlan {
            ip: self.cfg.want_ip && due(self.backoff.ip, self.cached_ip_time, cache, now),
            weather: self.cfg.want_weather && due(
                self.backoff.weather,
                self.cached_weather_time,
                cache,
                now,
            ),
            stock: self.cfg.want_stock,
            http: self.cfg.want_http && due(self.backoff.http, self.cached_http_time, cache, now),
        }
    }

    /// What to refresh now: what is wanted and due. A price is always due.
    pub fn tick(&self, now: u64) -> (p: RefreshPlan)
        ensures
            p == self.planned(now),
            p == (RefreshPlan {
                ip: self.cfg.want_ip && due(
                    self.backoff.ip,
                    self.cached_ip_time,
                    self.cfg.cache_secs,
                    now,
                ),
                weather: self.cfg.want_weather && due(
                    self.backoff.weather,
                    self.cached_weather_time,
                    self.cfg.cache_secs,
                    now,
                ),
                stock: self.cfg.want_stock,
                http: self.cfg.want_http && due(
                    self.backoff.http,
                    self.cached_http_time,
                    self.cfg.cache_secs,
                    now,
                ),
            }),
    {
        let cache = self.cfg.cache_secs;
        RefreshPlan {
            ip: self.cfg.want_ip && should_try(self.backoff.ip, self.cached_ip_time, cache, now),
            weather: self.cfg.want_weather && should_try(
                self.backoff.weather,
                self.cached_weather_time,
                cache,
                now,
            ),
            stock: self.cfg.want_stock,
            http: self.cfg.want_http && should_try(
                self.backoff.http,
                self.cached_http_time,
                cache,
                now,
            ),
        }
    }

    /// Takes in the results of a refresh.
    pub fn apply_results(&mut self, results: &Vec<(String, RefreshKind)>, now: u64)
        requires
            old(self).wf(),
        ensures
            final(self).wf(),
            *final(self) == old(self).behind_results(results@, now),
    {
        let ghost start = *self;
        let mut i: usize = 0;
        proof {
            assert(results@.take(0) == Seq::<(String, RefreshKind)>::empty());
        }
        while i < results.len()
            invariant
                i <= results.len(),
                self.wf(),
                *self == start.behind_results(results@.take(i as int), now),
            decreases results.len() - i,
        {
            proof {
                let longer = results@.take(i + 1);
                assert(longer.drop_last() == results@.take(i as int));
                assert(longer.last() == results@[i as int]);
            }
            let text = &results[i].0;
            let kind = results[i].1;
            let good = is_good(kind, text.as_str());
            match kind {
                RefreshKind::Ip => {
                    if good {
                        self.snapshot.ip = text.clone();
                        if !same(text.as_str(), self.cached_ip_text.as_str()) {
                            self.cached_ip_time = now;
                        }
                        self.cached_ip_text = text.clone();
                    }
                    self.backoff.ip = count(self.backoff.ip, good);
                },
                RefreshKind::Weather => {
                    if good {
                        self.snapshot.weather = text.clone();
                        self.cached_weather_text = text.clone();
                        self.cached_weather_time = now;
                    }
                    self.backoff.weather = count(self.backoff.weather, good);
                },
                RefreshKind::Stock => {
                    if good {
                        self.snapshot.stock_text = text.clone();
                    }
                    self.backoff.stock = count(self.backoff.stock, good);
                },
                RefreshKind::Http => {
                    if good {
                        self.snapshot.http_text = text.clone();
                        self.cached_http_text = text.clone();
                        self.cached_http_time = now;
                    }
                    self.backoff.http = count(self.backoff.http, good);
                },
            }
            i += 1;
        }
        assert(results@.take(i as int) == results@);
    }

    /// The address that need not be asked for: one that is known, for an hour.
    pub open spec fn fresh_ip(self, now: u64) -> bool {
        &&& seconds_since(self.cached_ip_time, now) < IP_CACHE_SECS
        &&& !contains(self.cached_ip_text@, "Err"@)
        &&& self.cached_ip_text@.len() > 0
    }

    /// The address that need not be asked for, if there is one.
    pub fn cached_ip(&self, now: u64) -> (r: Option<String>)
        ensures
            r == (if self.fresh_ip(now) {
                Some(self.cached_ip_text)
            } else {
                None
            }),
    {
        if secs_since(self.cached_ip_time, now) < IP_CACHE_SECS && !holds(
            self.cached_ip_text.as_str(),
            "Err",
        ) && !self.cached_ip_text.as_str().is_empty() {
            Some(self.cached_ip_text.clone())
        } else {
            None
        }
    }

    /// The agent `next`, and the text `r`, come of an answer to a request for the address.
    pub open spec fn takes_address(
        self,
        reply: FetchReply,
        now: u64,
        next: NetAgent,
        r: String,
    ) -> bool {
        match reply {
            FetchReply::NetErr => r@ == "IP:NetErr"@ && next == self,
            FetchReply::BodyErr => r@ == "IP:Err"@ && next == self,
            FetchReply::Body(text) => match regex_match(ip_pattern(), text@) {
                Some(found) => {
                    &&& found matches Some(m) ==> like_an_address(m)
                    &&& r@ == ip_shown(found)
                    &&& next == (if found is Some {
                        NetAgent { cached_ip_text: r, cached_ip_time: now, ..self }
                    } else {
                        self
                    })
                },
                None => false,
            },
        }
    }

    /// The agent `next`, and the text `r`, come of an answer to a request for a text.
    pub open spec fn takes_text(
        self,
        reply: FetchReply,
        now: u64,
        next: NetAgent,
        r: String,
    ) -> bool {
        match reply {
            FetchReply::Body(text) => r@ == shortened(text@, self.cfg.http_length as nat) && next
                == (NetAgent { cached_http_text: r, cached_http_time: now, ..self }),
            FetchReply::BodyErr => r@ == "HTTP:Err"@ && next == self,
            FetchReply::NetErr => next == self && r@ == (if self.cached_http_text@.len() > 0 {
                self.cached_http_text@
            } else {
                "HTTP:Wait"@
            }),
        }
    }

    /// The agent, once a line of weather has come.
    pub open spec fn behind_weather(self, result: String, now: u64) -> NetAgent {
        if !starts_with(result@, "W:"@) && !contains(result@, "Wait"@) {
            NetAgent { cached_weather_text: result, cached_weather_time: now, ..self }
        } else {
            self
        }
    }

    /// Takes in the answer to a request for the address. One that holds an address is kept.
    pub fn refresh_ip(&mut self, reply: &FetchReply, now: u64) -> (r: String)
        ensures
            old(self).takes_address(*reply, now, *final(self), r),
            match *reply {
                FetchReply::NetErr => r@ == "IP:NetErr"@ && *final(self) == *old(self),
                FetchReply::BodyErr => r@ == "IP:Err"@ && *final(self) == *old(self),
                FetchReply::Body(text) => match regex_match(ip_pattern(), text@) {
                    Some(found) => r@ == ip_shown(found) && *final(self) == (if found is Some {
                        NetAgent { cached_ip_text: r, cached_ip_time: now, ..*old(self) }
                    } else {
                        *old(self)
                    }),
                    None => false,
                },
            },
    {
        match reply {
            FetchReply::NetErr => "IP:NetErr".to_string(),
            FetchReply::BodyErr => "IP:Err".to_string(),
            FetchReply::Body(text) => {
                let out = ip_of_body(text.as_str());
                proof {
                    if let Some(m) = regex_match(ip_pattern(), text@)->Some_0 {
                        crate::fetch::address_is_no_failure(m);
                    } else {
                        reveal_strlit("IP:Err");
                        reveal_strlit("Err");
                        assert("IP:Err"@.subrange(3, 6) == "Err"@);
                        assert(crate::text::matches_at(out@, "Err"@, 3));
                    }
                }
                if !holds(out.as_str(), "Err") {
                    self.cached_ip_text = out.clone();
                    self.cached_ip_time = now;
                }
                out
            },
        }
    }

    /// Takes in the line of text that came of a request for the weather. One that is no failure is
    /// kept.
    pub fn refresh_weather(&mut self, result: String, now: u64) -> (r: String)
        ensures
            r == result,
            *final(self) == old(self).behind_weather(result, now),
            *final(self) == (if !starts_with(result@, "W:"@) && !contains(result@, "Wait"@) {
                NetAgent { cached_weather_text: result, cached_weather_time: now, ..*old(self) }
            } else {
                *old(self)
            }),
    {
        if !begins(result.as_str(), "W:") && !holds(result.as_str(), "Wait") {
            self.cached_weather_text = result.clone();
            self.cached_weather_time = now;
        }
        result
    }

    /// Which of the data that a plan refreshes are to be asked for: all but those that are fresh, and
    /// those without an address to ask.
    pub open spec fn requested(self, plan: RefreshPlan, now: u64) -> RefreshPlan {
        RefreshPlan {
            ip: plan.ip && !self.fresh_ip(now),
            weather: plan.weather,
            stock: plan.stock && self.cfg.stock_url@.len() > 0,
            http: plan.http && self.cfg.custom_http_url@.len() > 0 && !(seconds_since(
                self.cached_http_time,
                now,
            ) < self.cfg.cache_secs && self.cached_http_text@.len() > 0),
        }
    }

    /// Which of the data that a plan refreshes are to be asked for: all but those that are fresh, and
    /// those without an address to ask.
    pub fn requests(&self, plan: RefreshPlan, now: u64) -> (r: RefreshPlan)
        ensures
            r == self.requested(plan, now),
    {
        RefreshPlan {
            ip: plan.ip && self.cached_ip(now).is_none(),
            weather: plan.weather,
            stock: plan.stock && self.cached_stock().is_none(),
            http: plan.http && self.cached_http(now).is_none(),
        }
    }

    /// The price that need not be asked for: none where there is no address to ask.
    pub fn cached_stock(&self) -> (r: Option<String>)
        ensures
            match r {
                Some(s) => self.cfg.stock_url@.len() == 0 && s@.len() == 0,
                None => self.cfg.stock_url@.len() > 0,
            },
    {
        if self.cfg.stock_url.as_str().is_empty() {
            Some(String::new())
        } else {
            None
        }
    }

    /// The text that need not be asked for.
    pub open spec fn kept_text(self, now: u64) -> Option<Seq<char>> {
        if self.cfg.custom_http_url@.len() == 0 {
            Some(seq![])
        } else if seconds_since(self.cached_http_time, now) < self.cfg.cache_secs
            && self.cached_http_text@.len() > 0 {
            Some(self.cached_http_text@)
        } else {
            None
        }
    }

    /// The text that need not be asked for: none where there is no address to ask, else one that is
    /// fresh.
    pub fn cached_http(&self, now: u64) -> (r: Option<String>)
        ensures
            match r {
                Some(s) => self.kept_text(now) == Some(s@),
                None => self.kept_text(now) is None,
            },
            if self.cfg.custom_http_url@.len() == 0 {
                r matches Some(s) && s@.len() == 0
            } else if seconds_since(self.cached_http_time, now) < self.cfg.cache_secs
                && self.cached_http_text@.len() > 0 {
                r == Some(self.cached_http_text)
            } else {
                r is None
            },
    {
        if self.cfg.custom_http_url.as_str().is_empty() {
            return Some(String::new());
        }
        if secs_since(self.cached_http_time, now) < self.cfg.cache_secs
            && !self.cached_http_text.as_str().is_empty() {
            return Some(self.cached_http_text.clone());
        }
        None
    }

    /// Takes in the answer to a request for a text: without blanks round it, and cut to its length.
    /// Without an answer the last one is shown again.
    pub fn refresh_http(&mut self, reply: &FetchReply, now: u64) -> (r: String)
        ensures
            old(self).takes_text(*reply, now, *final(self), r),
            match *reply {
                FetchReply::Body(text) => r@ == shortened(text@, old(self).cfg.http_length as nat)
                    && *final(self) == (NetAgent {
                    cached_http_text: r,
                    cached_http_time: now,
                    ..*old(self)
                }),
                FetchReply::BodyErr => r@ == "HTTP:Err"@ && *final(self) == *old(self),
                FetchReply::NetErr => *final(self) == *old(self) && r@ == (
                if old(self).cached_http_text@.len() > 0 {
                    old(self).cached_http_text@
                } else {
                    "HTTP:Wait"@
                }),
            },
    {
        match reply {
            FetchReply::Body(text) => {
                let s = shorten(text.as_str(), self.cfg.http_length);
                self.cached_http_text = s.clone();
                self.cached_http_time = now;
                s
            },
            FetchReply::BodyErr => "HTTP:Err".to_string(),
            FetchReply::NetErr => {
                if !self.cached_http_text.as_str().is_empty() {
                    self.cached_http_text.clone()
                } else {
                    "HTTP:Wait".to_string()
                }
            },
        }
    }
}

} // verus!
