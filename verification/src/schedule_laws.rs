//! What holds of the channels, of the keys that lead to them, and of the time for which each
//! module is shown.
use vstd::prelude::*;
use crate::button::since;
use crate::control::Signal;
use crate::scheduler::{
    channel_of, Animation, Cycle, Scheduler, Show, ShowPhase, ShowStep, DARK_NAP_MILLIS,
    SHOW_NAP_MILLIS, SLEEP_NAP_MILLIS,
};

verus! {

/// A command for a channel leads to that channel, of all there are, whether the screen is on or
/// not; a command beyond the last one goes round. So every channel has a command that leads to
/// it. Neither the screen nor the number of channels changes.
pub proof fn command_leads_to_its_channel(s: Scheduler, current: Signal, beyond: Signal)
    requires
        s.wf(),
        current.number != s.last_seen,
        beyond.number != s.last_seen,
        1 <= current.command <= s.total,
        beyond.command > s.total,
    ensures
        s.commanded(current) == (Scheduler {
            channel: current.command as usize,
            last_seen: current.number,
            ..s
        }),
        1 <= s.commanded(beyond).channel <= s.total,
        s.commanded(beyond).channel == s.commanded(
            Signal { command: (beyond.command - s.total) as i32, ..beyond },
        ).channel,
        s.commanded(beyond) == (Scheduler {
            channel: s.commanded(beyond).channel,
            last_seen: beyond.number,
            ..s
        }),
        s.keyed(Some(current.command)) == (Scheduler { channel: current.command as usize, ..s }),
        s.keyed(Some(beyond.command)).channel == s.commanded(beyond).channel,
{
    let total = s.total as int;
    vstd::arithmetic::div_mod::lemma_small_mod((current.command - 1) as nat, total as nat);
    vstd::arithmetic::div_mod::lemma_mod_bound(beyond.command - 1, total);
    vstd::arithmetic::div_mod::lemma_mod_sub_multiples_vanish(beyond.command - 1, total);
    assert((beyond.command - 1 - total) % total == (beyond.command - 1) % total);
}

/// The switch turns the screen off, and leaves the channel; it turns it on again at channel 1.
pub proof fn switch_turns_the_screen(s: Scheduler, current: Signal)
    requires
        s.wf(),
        current.number != s.last_seen,
        current.command == -1,
    ensures
        s.commanded(current) == (Scheduler {
            screen_on: !s.screen_on,
            channel: if s.screen_on {
                s.channel
            } else {
                1
            },
            last_seen: current.number,
            ..s
        }),
        s.keyed(Some(-1i32)) == s,
        s.keyed(None) == s,
{
}

/// What is neither a channel nor the switch changes nothing, and neither does a signal that was
/// served before.
pub proof fn other_commands_change_nothing(s: Scheduler, current: Signal)
    requires
        current.number == s.last_seen || current.command == 0 || current.command < -1,
    ensures
        s.commanded(current) == (Scheduler { last_seen: current.number, ..s }),
{
}

/// A signal is served once.
pub proof fn signal_is_served_once(s: Scheduler, current: Signal)
    ensures
        s.commanded(current).commanded(current) == s.commanded(current),
{
}

/// The module of the current channel is shown where the program runs, the screen is on and it is no
/// hour of sleep; else none is.
pub proof fn current_channel_is_shown(
    s: Scheduler,
    running: bool,
    go_home: bool,
    current: Signal,
    sleep_time: bool,
)
    requires
        s.wf(),
    ensures
        ({
            let (next, cycle) = s.begun(running, go_home, current, sleep_time);
            &&& cycle is Stop <==> !running
            &&& cycle is Show <==> running && s.commanded(current).screen_on && !sleep_time
            &&& cycle is Dark <==> running && !s.commanded(current).screen_on
            &&& cycle is Sleep <==> running && s.commanded(current).screen_on && sleep_time
            &&& cycle matches Cycle::Show(index) ==> index + 1 == next.channel && index < s.total
            &&& next.screen_on <==> cycle is Show || (cycle is Stop && s.screen_on)
            &&& next.total == s.total
        }),
{
    if current.command > 0 {
        vstd::arithmetic::div_mod::lemma_mod_bound(current.command - 1, s.total as int);
    }
}

/// A new command for a channel shows that channel, a double click the first one, and without either
/// the channel stays.
pub proof fn keys_lead_to_what_is_shown(s: Scheduler, current: Signal, other: Signal)
    requires
        s.wf(),
        s.screen_on,
        current.number != s.last_seen,
        1 <= current.command <= s.total,
        other.number == s.last_seen,
    ensures
        s.begun(true, false, current, false).1 == Cycle::Show((current.command - 1) as usize),
        s.begun(true, true, current, false).1 == Cycle::Show(0),
        s.begun(true, true, other, false).1 == Cycle::Show(0),
        s.begun(true, false, other, false).1 == Cycle::Show((s.channel - 1) as usize),
{
    vstd::arithmetic::div_mod::lemma_small_mod((current.command - 1) as nat, s.total as nat);
}

/// A dark screen wakes for a new signal that is a channel or the switch, and for nothing else; its
/// channels stay as they are.
pub proof fn dark_screen_wakes_for_a_key(s: Scheduler, current: Signal, seen: u64)
    ensures
        s.woken(current, seen).screen_on <==> current.number != seen && (current.command >= 1
            || current.command == -1),
        s.woken(current, seen).channel == s.channel,
        s.woken(current, seen).total == s.total,
        s.woken(current, seen).last_seen == (if current.number != seen && current.command == -1 {
            current.number
        } else {
            s.last_seen
        }),
{
}

/// One look at a module that is shown.
pub struct Look {
    pub now: u64,
    pub current: Signal,
}

/// A module behind some looks.
pub open spec fn shown_after(s: Show, secs: u64, looks: Seq<Look>) -> Show
    decreases looks.len(),
{
    if looks.len() == 0 {
        s
    } else {
        shown_after(s, secs, looks.drop_last()).next(secs, looks.last().now, looks.last().current)
    }
}

/// What a module wants at look `i`.
pub open spec fn wanted(s: Show, secs: u64, looks: Seq<Look>, i: int) -> ShowStep {
    shown_after(s, secs, looks.take(i)).step(secs, looks[i].now, looks[i].current)
}

/// No signal comes while the module is looked at.
pub open spec fn no_signal(s: Show, looks: Seq<Look>) -> bool {
    forall|i: int| 0 <= i < looks.len() ==> (#[trigger] looks[i]).current.number == s.seen
}

proof fn lemma_shown_after(s: Show, secs: u64, looks: Seq<Look>, i: int)
    requires
        0 <= i < looks.len(),
    ensures
        shown_after(s, secs, looks.take(i + 1)) == shown_after(s, secs, looks.take(i)).next(
            secs,
            looks[i].now,
            looks[i].current,
        ),
        shown_after(s, secs, looks.take(0)) == s,
{
    assert(looks.take(i + 1).drop_last() == looks.take(i));
    assert(looks.take(i + 1).last() == looks[i]);
}

proof fn lemma_standing(s: Show, secs: u64, looks: Seq<Look>, i: int)
    requires
        s.phase is Fresh,
        no_signal(s, looks),
        2 <= i <= looks.len(),
    ensures
        shown_after(s, secs, looks.take(i)) == (Show {
            phase: ShowPhase::Standing,
            start: looks[1].now,
            seen: s.seen,
        }),
    decreases i,
{
    lemma_shown_after(s, secs, looks, i - 1);
    assert(looks[i - 1].current.number == s.seen);
    if i == 2 {
        lemma_shown_after(s, secs, looks, 0);
        assert(looks[0].current.number == s.seen);
    } else {
        lemma_standing(s, secs, looks, i - 1);
    }
}

/// A module with one picture draws it once. Then, while no key comes, it naps for 200 milliseconds
/// at a time, until its seconds have passed since the first look behind the drawing.
pub proof fn still_module_is_drawn_once(s: Show, secs: u64, looks: Seq<Look>, i: int)
    requires
        s.phase is Fresh,
        no_signal(s, looks),
        0 <= i < looks.len(),
    ensures
        wanted(s, secs, looks, i) == (if i == 0 {
            ShowStep::Draw(false)
        } else if since(looks[1].now, looks[i].now) >= secs * 1_000_000_000 {
            ShowStep::Ended(false)
        } else {
            ShowStep::Nap(200)
        }),
{
    lemma_shown_after(s, secs, looks, i);
    assert(looks[i].current.number == s.seen);
    if i == 1 {
        lemma_shown_after(s, secs, looks, 0);
        assert(looks[0].current.number == s.seen);
    } else if i > 1 {
        lemma_standing(s, secs, looks, i);
    }
}

/// Until a look, the time of a module was not up when a picture was due.
pub open spec fn in_its_time(s: Show, secs: u64, looks: Seq<Look>, period: int, i: int) -> bool {
    forall|j: int|
        0 <= j < i && j % period == 0 ==> since(s.start, (#[trigger] looks[j]).now) < secs
            * 1_000_000_000
}

proof fn lemma_moving(s: Show, a: Animation, secs: u64, looks: Seq<Look>, i: int)
    requires
        s.phase == ShowPhase::Moving(a),
        a.naps_left == 0 && !a.napped,
        a.naps > 0,
        no_signal(s, looks),
        0 <= i <= looks.len(),
        in_its_time(s, secs, looks, a.naps + 1, i),
    ensures
        ({
            let p = a.naps + 1;
            let now = shown_after(s, secs, looks.take(i));
            &&& now.start == s.start
            &&& now.seen == s.seen
            &&& now.phase matches ShowPhase::Moving(b)
            &&& b.naps == a.naps && b.nap_millis == a.nap_millis
            &&& b.naps_left == (if i % p == 0 {
                0
            } else {
                p - i % p
            })
            &&& b.napped == (i > 0 && i % p != 1)
            &&& b.flag == (if ((i + a.naps) / p) % 2 == 0 {
                a.flag
            } else {
                !a.flag
            })
        }),
    decreases i,
{
    let p = a.naps + 1;
    if i == 0 {
        assert(looks.take(0).len() == 0);
        assert(a.naps as int / p == 0) by (nonlinear_arith)
            requires
                p == a.naps + 1,
        ;
        assert(0int % p == 0) by (nonlinear_arith)
            requires
                p > 0,
        ;
    } else {
        lemma_moving(s, a, secs, looks, i - 1);
        lemma_shown_after(s, secs, looks, i - 1);
        assert(looks[i - 1].current.number == s.seen);
        lemma_period(i - 1, p);
        if (i - 1) % p == 0 {
            assert(since(s.start, looks[i - 1].now) < secs * 1_000_000_000);
        }
    }
}

proof fn lemma_period(n: int, p: int)
    requires
        n >= 0,
        p >= 2,
    ensures
        (n + 1) % p == (if n % p == p - 1 {
            0
        } else {
            n % p + 1
        }),
        (n + 1 + (p - 1)) / p == (n + (p - 1)) / p + (if n % p == 0 {
            1int
        } else {
            0
        }),
        0 <= n % p < p,
{
    let q = n / p;
    let r = n % p;
    vstd::arithmetic::div_mod::lemma_fundamental_div_mod(n, p);
    vstd::arithmetic::div_mod::lemma_mod_bound(n, p);
    assert(n == p * q + r);
    assert(p * (q + 1) == p * q + p) by (nonlinear_arith);
    if r == p - 1 {
        vstd::arithmetic::div_mod::lemma_fundamental_div_mod_converse(n + 1, p, q + 1, 0);
    } else {
        vstd::arithmetic::div_mod::lemma_fundamental_div_mod_converse(n + 1, p, q, r + 1);
    }
    vstd::arithmetic::div_mod::lemma_fundamental_div_mod_converse(n + p, p, q + 1, r);
    if r == 0 {
        vstd::arithmetic::div_mod::lemma_fundamental_div_mod_converse(n + p - 1, p, q, p - 1);
    } else {
        vstd::arithmetic::div_mod::lemma_fundamental_div_mod_converse(n + p - 1, p, q + 1, r - 1);
    }
}

/// A module with two pictures draws them in turns, and naps as often as it says behind each. Its
/// time is up at the first picture that would come behind its seconds.
pub proof fn moving_module_draws_in_turns(
    s: Show,
    a: Animation,
    secs: u64,
    looks: Seq<Look>,
    i: int,
)
    requires
        s.phase == ShowPhase::Moving(a),
        a.naps_left == 0 && !a.napped,
        a.naps > 0,
        no_signal(s, looks),
        0 <= i < looks.len(),
        in_its_time(s, secs, looks, a.naps + 1, i),
    ensures
        ({
            let p = a.naps + 1;
            wanted(s, secs, looks, i) == (if i % p != 0 {
                ShowStep::Nap(a.nap_millis)
            } else if since(s.start, looks[i].now) >= secs * 1_000_000_000 {
                ShowStep::Ended(false)
            } else {
                ShowStep::Draw(
                    if (i / p) % 2 == 0 {
                        a.flag
                    } else {
                        !a.flag
                    },
                )
            })
        }),
{
    let p = a.naps + 1;
    lemma_moving(s, a, secs, looks, i);
    assert(looks[i].current.number == s.seen);
    lemma_period(i, p);
    if i % p == 0 {
        vstd::arithmetic::div_mod::lemma_fundamental_div_mod(i, p);
        vstd::arithmetic::div_mod::lemma_fundamental_div_mod_converse(
            i + a.naps,
            p,
            i / p,
            a.naps as int,
        );
    }
}

/// The first new command, for a channel or of the switch, that a module looks at ends it at once.
pub proof fn new_command_ends_a_module_at_once(s: Show, secs: u64, now: u64, current: Signal)
    requires
        s.looks(secs, now),
        current.number != s.seen,
        current.command == -1 || current.command > 0,
    ensures
        s.step(secs, now, current) == ShowStep::Ended(true),
{
}

/// A module looks at the keys while its picture stands and its time is not up, behind each nap of
/// an animation, and before each of its pictures. It does not while a picture is drawn.
pub proof fn module_looks_at_the_keys(s: Show, secs: u64, now: u64)
    ensures
        s.phase is Fresh ==> !s.looks(secs, now),
        s.phase == ShowPhase::Drawn(true) ==> s.looks(secs, now),
        s.phase == ShowPhase::Drawn(false) ==> !s.looks(secs, now),
        s.phase is Standing ==> (s.looks(secs, now) <==> since(s.start, now) < secs
            * 1_000_000_000),
        s.phase matches ShowPhase::Moving(a) ==> {
            &&& a.napped ==> s.looks(secs, now)
            &&& !a.napped && a.naps_left > 0 ==> !s.looks(secs, now)
            &&& !a.napped && a.naps_left == 0 ==> (s.looks(secs, now) <==> since(s.start, now)
                < secs * 1_000_000_000)
        },
{
}

/// Time goes on: what began `n` nanoseconds ago has gone on for `n` nanoseconds.
pub proof fn time_goes_on(start: u64, n: nat)
    requires
        start + n <= u64::MAX,
    ensures
        since(start, (start + n) as u64) == n,
        n > 0 ==> since((start + n) as u64, start) == 0,
{
}

/// The channels are counted from 1, and a command that is one of them is its own channel.
pub proof fn channels_are_counted_from_one(cmd: i32, total: int)
    requires
        1 <= cmd <= total,
    ensures
        channel_of(cmd, total) == cmd,
{
    vstd::arithmetic::div_mod::lemma_small_mod((cmd - 1) as nat, total as nat);
}

/// A dark screen waits until a key wakes it, or the program ends; a look at the keys that wakes
/// nothing changes nothing but what was seen.
pub proof fn dark_screen_waits(s: Scheduler, running: bool, current: Signal, seen: u64)
    ensures
        ({
            let (next, saw, over) = s.watched(running, current, seen);
            &&& !running || s.screen_on ==> over && next == s && saw == seen
            &&& running && !s.screen_on ==> {
                &&& over <==> current.number != seen && (current.command >= 1 || current.command
                    == -1)
                &&& saw == current.number
                &&& next.screen_on == over
                &&& !over ==> next == s
                &&& next.channel == s.channel && next.total == s.total
            }
        }),
{
}

/// A key that wakes a dark screen is served: one for a channel brings up that channel, the switch
/// the first one, and nothing is served twice.
pub proof fn key_brings_a_dark_screen_to_its_channel(s: Scheduler, current: Signal)
    requires
        s.wf(),
        !s.screen_on,
        current.number != s.last_seen,
        current.command == -1 || 1 <= current.command <= s.total,
    ensures
        ({
            let woken = s.watched(true, current, s.last_seen).0.awake(true);
            let (next, cycle) = woken.begun(true, false, current, false);
            &&& cycle == Cycle::Show(
                if current.command == -1 {
                    0
                } else {
                    (current.command - 1) as usize
                },
            )
            &&& next.screen_on && next.last_seen == current.number
        }),
{
    if current.command > 0 {
        vstd::arithmetic::div_mod::lemma_small_mod((current.command - 1) as nat, s.total as nat);
    }
}

/// The wait ends at channel 1, unless the program has ended.
pub proof fn waking_begins_at_the_first_channel(s: Scheduler)
    ensures
        s.awake(true) == (Scheduler { channel: 1, ..s }),
        s.awake(false) == s,
{
}

/// The sleep ends at its hour, with the screen on. Before that a key ends it, whose command is still
/// to be served, and nothing else does while the program runs.
pub proof fn sleep_ends_at_its_hour(
    s: Scheduler,
    secs: u64,
    elapsed: u64,
    running: bool,
    current: Signal,
    seen: u64,
)
    ensures
        ({
            let (next, saw, over) = s.dozed(secs, elapsed, running, current, seen);
            &&& next.last_seen == s.last_seen && next.channel == s.channel && next.total == s.total
            &&& elapsed >= secs * 1_000_000_000 ==> over && next.screen_on
            &&& elapsed < secs * 1_000_000_000 && (!running || s.screen_on) ==> over && next == s
                && saw == seen
            &&& elapsed < secs * 1_000_000_000 && running && !s.screen_on ==> {
                &&& over <==> current.number != seen && (current.command >= 1 || current.command
                    == -1)
                &&& next.screen_on == over
                &&& saw == current.number
            }
        }),
{
}

/// A key that ends the sleep leads to its channel.
pub proof fn key_ends_the_sleep_with_its_channel(
    s: Scheduler,
    secs: u64,
    elapsed: u64,
    current: Signal,
)
    requires
        s.wf(),
        !s.screen_on,
        elapsed < secs * 1_000_000_000,
        current.number != s.last_seen,
        1 <= current.command <= s.total,
    ensures
        s.dozed(secs, elapsed, true, current, s.last_seen).0.awake(true).begun(
            true,
            false,
            current,
            false,
        ).1 == Cycle::Show((current.command - 1) as usize),
{
    vstd::arithmetic::div_mod::lemma_small_mod((current.command - 1) as nat, s.total as nat);
}

/// A module stands for its seconds: then it has ended by itself, whatever key comes. Before that it
/// ends for a new command, for a channel or of the switch, and the channel is the one of the
/// command.
pub proof fn module_stands_for_its_seconds(
    s: Scheduler,
    secs: u64,
    elapsed: u64,
    current: Signal,
    seen: u64,
)
    requires
        s.wf(),
    ensures
        ({
            let (next, saw, r) = s.stood(secs, elapsed, current, seen);
            &&& elapsed >= secs * 1_000_000_000 ==> r == Some(false) && next == s && saw == seen
            &&& elapsed < secs * 1_000_000_000 ==> {
                &&& saw == current.number
                &&& r == (if current.number != seen && (current.command > 0 || current.command
                    == -1) {
                    Some(true)
                } else {
                    None
                })
                &&& current.number != seen && 1 <= current.command <= s.total ==> next == (
                Scheduler { channel: current.command as usize, ..s })
                &&& current.number == seen || current.command <= 0 ==> next == s
            }
        }),
{
    if 1 <= current.command <= s.total {
        vstd::arithmetic::div_mod::lemma_small_mod((current.command - 1) as nat, s.total as nat);
    }
}

/// A double click brings up the first channel, and without one nothing changes.
pub proof fn double_click_leads_home(s: Scheduler)
    ensures
        s.sent_home(true) == (Scheduler { channel: 1, ..s }),
        s.sent_home(false) == s,
{
}

/// How long the naps are, in milliseconds, between two looks at the keys.
pub proof fn naps_are_short()
    ensures
        DARK_NAP_MILLIS == 200 && SLEEP_NAP_MILLIS == 500 && SHOW_NAP_MILLIS == 200,
{
}

} // verus!
