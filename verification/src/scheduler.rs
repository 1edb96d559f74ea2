//! What is shown when: the channels, one module each, the keys that switch
//! between them, and the times at which the screen is dark.
//!
//! A key sends commands: 1 and up for a channel, -1 to switch the screen off or
//! on. The latest is there until the next one comes, and its number tells whether
//! it has been seen.
use vstd::prelude::*;
use crate::button::{elapsed, since, TOGGLE};
use crate::control::{unseen, Signal};
use crate::text::{chars_of, split_words, string_of, string_views, views, words};

verus! {

pub const NANOS_PER_SEC: u128 = 1_000_000_000;

/// How long to sleep between two looks at the keys, while the screen is dark.
pub const DARK_NAP_MILLIS: u64 = 200;

/// The same, at the hours of sleep.
pub const SLEEP_NAP_MILLIS: u64 = 500;

/// The same, while a module is shown.
pub const SHOW_NAP_MILLIS: u64 = 200;

/// The modules of a setting, in order.
pub fn modules_of(display_order: &str) -> (r: Vec<String>)
    ensures
        string_views(r@) == words(display_order@),
{
    let cs = chars_of(display_order);
    let parts = split_words(cs.as_slice());
    let mut out: Vec<String> = Vec::new();
    let mut i: usize = 0;
    while i < parts.len()
        invariant
            i <= parts.len(),
            out.len() == i,
            forall|j: int| 0 <= j < i ==> (#[trigger] out@[j])@ == parts@[j]@,
        decreases parts.len() - i,
    {
        out.push(string_of(parts[i].as_slice()));
        i += 1;
    }
    assert(string_views(out@) == views(parts@));
    out
}

/// Looks at the latest signal: gives its command if it was sent since the last look.
pub fn poll_cmd(current: Signal, last_seen: &mut u64) -> (r: Option<i32>)
    ensures
        r == unseen(current, *old(last_seen)),
        *final(last_seen) == current.number,
{
    if current.number != *last_seen {
        *last_seen = current.number;
        Some(current.command)
    } else {
        None
    }
}

/// The channel of a command, counted from 1: the commands go round the channels.
pub open spec fn channel_of(cmd: i32, total: int) -> int {
    (cmd - 1) % total + 1
}

fn channel_for(cmd: i32, total: usize) -> (r: usize)
    requires
        cmd > 0,
        total > 0,
    ensures
        r == channel_of(cmd, total as int),
        1 <= r <= total,
{
    let n = (cmd - 1) as usize % total;
    n + 1
}

proof fn lemma_next_in_the_round(n: int, total: int)
    requires
        0 < total,
    ensures
        0 <= n % total < total,
        (n + 1) % total == (if n % total == total - 1 {
            0
        } else {
            n % total + 1
        }),
{
    let m = n % total;
    let q = n / total;
    vstd::arithmetic::div_mod::lemma_fundamental_div_mod(n, total);
    vstd::arithmetic::div_mod::lemma_mod_bound(n, total);
    if m == total - 1 {
        assert(n + 1 == (q + 1) * total) by (nonlinear_arith)
            requires
                n == total * q + m,
                m == total - 1,
        ;
        vstd::arithmetic::div_mod::lemma_mod_multiples_basic(q + 1, total);
    } else {
        assert(n + 1 == total * q + (m + 1));
        vstd::arithmetic::div_mod::lemma_mod_multiples_vanish(q, m + 1, total);
        vstd::arithmetic::div_mod::lemma_small_mod((m + 1) as nat, total as nat);
    }
}

/// The commands go round the channels: each leads to one of them, the next command to the next
/// channel, and behind the last comes the first.
pub proof fn commands_go_round_the_channels(cmd: i32, total: int)
    requires
        0 < cmd < i32::MAX,
        0 < total,
    ensures
        1 <= channel_of(cmd, total) <= total,
        cmd <= total ==> channel_of(cmd, total) == cmd,
        channel_of((cmd + 1) as i32, total) == (if channel_of(cmd, total) == total {
            1
        } else {
            channel_of(cmd, total) + 1
        }),
{
    lemma_next_in_the_round(cmd - 1, total);
    if cmd <= total {
        vstd::arithmetic::div_mod::lemma_small_mod((cmd - 1) as nat, total as nat);
    }
}

/// What to do next.
#[derive(Clone, Copy, Debug, PartialEq, Eq, Structural)]
pub enum Cycle {
    /// End.
    Stop,
    /// Blank the screen, and wait until a key switches it on.
    Dark,
    /// Blank the screen, and sleep until the hour of waking.
    Sleep,
    /// Show the module with this index.
    Show(usize),
}

/// The state of the scheduler.
#[derive(Clone, Copy, Debug, PartialEq, Eq, Structural)]
pub struct Scheduler {
    /// How many channels there are.
    pub total: usize,
    /// The current channel, counted from 1.
    pub channel: usize,
    /// The number of the signal that was served last.
    pub last_seen: u64,
    pub screen_on: bool,
}

/// A command wakes a dark screen.
pub open spec fn wakes(cmd: Option<i32>) -> bool {
    match cmd {
        Some(c) => c >= 1 || c == TOGGLE,
        None => false,
    }
}

impl Scheduler {
    pub open spec fn wf(self) -> bool {
        1 <= self.channel <= self.total
    }

    /// The scheduler, once it has served what was sent since the last look: a command for a channel
    /// leads to that channel; the switch leads to the other state of the screen, and to channel 1
    /// if that is on.
    pub open spec fn commanded(self, current: Signal) -> Scheduler {
        let seen = Scheduler { last_seen: current.number, ..self };
        match unseen(current, self.last_seen) {
            Some(cmd) => if cmd == TOGGLE {
                if self.screen_on {
                    Scheduler { screen_on: false, ..seen }
                } else {
                    Scheduler { screen_on: true, channel: 1, ..seen }
                }
            } else if cmd > 0 {
                Scheduler { channel: channel_of(cmd, self.total as int) as usize, ..seen }
            } else {
                seen
            },
            None => seen,
        }
    }

    /// The scheduler, once a double click has asked for channel 1, or not.
    pub open spec fn sent_home(self, go_home: bool) -> Scheduler {
        if go_home {
            Scheduler { channel: 1, ..self }
        } else {
            self
        }
    }

    /// The scheduler at the start of a cycle, and what is to be done.
    pub open spec fn begun(
        self,
        running: bool,
        go_home: bool,
        current: Signal,
        sleep_time: bool,
    ) -> (Scheduler, Cycle) {
        let next = self.commanded(current).sent_home(go_home);
        if !running {
            (self, Cycle::Stop)
        } else if !next.screen_on {
            (next, Cycle::Dark)
        } else if sleep_time {
            (Scheduler { screen_on: false, ..next }, Cycle::Sleep)
        } else {
            (next, Cycle::Show((next.channel - 1) as usize))
        }
    }

    /// The scheduler behind a module that was shown to its end, or that a key cut short.
    pub open spec fn finished(self, interrupted: bool) -> Scheduler {
        if interrupted {
            self
        } else if self.channel >= self.total {
            Scheduler { channel: 1, ..self }
        } else {
            Scheduler { channel: (self.channel + 1) as usize, ..self }
        }
    }

    /// A scheduler at channel 1, with the screen on, that has seen the signal `current`; none
    /// where there is no module to show.
    pub fn new(total: usize, current: Signal) -> (r: Option<Scheduler>)
        ensures
            r == (if total == 0 {
                None
            } else {
                Some(Scheduler { total, channel: 1, last_seen: current.number, screen_on: true })
            }),
            r matches Some(s) ==> s.wf(),
    {
        if total == 0 {
            None
        } else {
            Some(Scheduler { total, channel: 1, last_seen: current.number, screen_on: true })
        }
    }

    /// Begins a cycle: takes in whether the program still runs, whether a double click asked for
    /// channel 1, the latest signal, and whether it is an hour of sleep, and says what to do. A
    /// double click sends a command of its own, so its request is served behind the command.
    pub fn begin(&mut self, running: bool, go_home: bool, current: Signal, sleep_time: bool) -> (r:
        Cycle)
        requires
            old(self).wf(),
        ensures
            final(self).wf(),
            (*final(self), r) == old(self).begun(running, go_home, current, sleep_time),
            if !running {
                r == Cycle::Stop && *final(self) == *old(self)
            } else {
                let next = old(self).commanded(current).sent_home(go_home);
                if !next.screen_on {
                    r == Cycle::Dark && *final(self) == next
                } else if sleep_time {
                    r == Cycle::Sleep && *final(self) == (Scheduler { screen_on: false, ..next })
                } else {
                    r == Cycle::Show((next.channel - 1) as usize) && *final(self) == next
                }
            },
    {
        if !running {
            return Cycle::Stop;
        }
        if let Some(cmd) = poll_cmd(current, &mut self.last_seen) {
            if cmd == TOGGLE {
                if self.screen_on {
                    self.screen_on = false;
                } else {
                    self.screen_on = true;
                    self.channel = 1;
                }
            } else if cmd > 0 {
                self.channel = channel_for(cmd, self.total);
            }
        }
        if go_home {
            self.channel = 1;
        }
        if !self.screen_on {
            return Cycle::Dark;
        }
        if sleep_time {
            self.screen_on = false;
            return Cycle::Sleep;
        }
        Cycle::Show(self.channel - 1)
    }

    /// The scheduler, once a signal has come while the screen is dark: the first command for a
    /// channel, and the switch, wake it. The switch is served by that; a channel is still to come
    /// up.
    pub open spec fn woken(self, current: Signal, seen: u64) -> Scheduler {
        let cmd = unseen(current, seen);
        Scheduler {
            screen_on: wakes(cmd),
            last_seen: if cmd == Some(TOGGLE) {
                current.number
            } else {
                self.last_seen
            },
            ..self
        }
    }

    /// The scheduler behind a look at the keys while the screen is dark, what it has seen, and whether
    /// the wait is over.
    pub open spec fn watched(self, running: bool, current: Signal, seen: u64) -> (
        Scheduler,
        u64,
        bool,
    ) {
        if !running || self.screen_on {
            (self, seen, true)
        } else {
            (self.woken(current, seen), current.number, wakes(unseen(current, seen)))
        }
    }

    /// The scheduler behind a look at the keys at the hours of sleep, what it has seen, and whether
    /// the sleep is over.
    pub open spec fn dozed(
        self,
        total_secs: u64,
        elapsed: u64,
        running: bool,
        current: Signal,
        seen: u64,
    ) -> (Scheduler, u64, bool) {
        if elapsed >= total_secs * NANOS_PER_SEC {
            (Scheduler { screen_on: true, ..self }, seen, true)
        } else if !running || self.screen_on {
            (self, seen, true)
        } else {
            let woken = wakes(unseen(current, seen));
            (Scheduler { screen_on: woken, ..self }, current.number, woken)
        }
    }

    /// The scheduler, once the wait on a dark screen is over.
    pub open spec fn awake(self, running: bool) -> Scheduler {
        if running {
            Scheduler { channel: 1, ..self }
        } else {
            self
        }
    }

    /// The scheduler behind a look at the keys while a module stands, what it has seen, and whether
    /// the module has ended, and how.
    pub open spec fn stood(self, secs: u64, elapsed: u64, current: Signal, seen: u64) -> (
        Scheduler,
        u64,
        Option<bool>,
    ) {
        let cmd = unseen(current, seen);
        if elapsed >= secs * NANOS_PER_SEC {
            (self, seen, Some(false))
        } else if cuts_short(cmd) {
            (self.keyed(cmd), current.number, Some(true))
        } else {
            (self.keyed(cmd), current.number, None)
        }
    }

    /// One look at the keys while the screen is dark: gives whether the wait is over. `seen` is the
    /// number of the signal that was seen last in this wait.
    pub fn wait_for_wakeup(&mut self, running: bool, current: Signal, seen: &mut u64) -> (over: bool)
        ensures
            (*final(self), *final(seen), over) == old(self).watched(running, current, *old(seen)),
            if !running || old(self).screen_on {
                over && *final(self) == *old(self) && *final(seen) == *old(seen)
            } else {
                &&& over == wakes(unseen(current, *old(seen)))
                &&& *final(seen) == current.number
                &&& *final(self) == old(self).woken(current, *old(seen))
            },
    {
        if !running || self.screen_on {
            return true;
        }
        if let Some(cmd) = poll_cmd(current, seen) {
            if cmd == TOGGLE {
                self.last_seen = current.number;
            }
            if cmd >= 1 || cmd == TOGGLE {
                self.screen_on = true;
                return true;
            }
        }
        false
    }

    /// One look at the keys at the hours of sleep, `elapsed` nanoseconds after they began: gives
    /// whether the sleep is over. The hour of waking ends it, and so does a key, whose command is
    /// still to be served.
    pub fn sleep_with_interrupt(
        &mut self,
        total_secs: u64,
        elapsed: u64,
        running: bool,
        current: Signal,
        seen: &mut u64,
    ) -> (over: bool)
        ensures
            (*final(self), *final(seen), over) == old(self).dozed(
                total_secs,
                elapsed,
                running,
                current,
                *old(seen),
            ),
            if elapsed >= total_secs * NANOS_PER_SEC {
                over && *final(self) == (Scheduler { screen_on: true, ..*old(self) })
                    && *final(seen) == *old(seen)
            } else if !running || old(self).screen_on {
                over && *final(self) == *old(self) && *final(seen) == *old(seen)
            } else {
                let woken = wakes(unseen(current, *old(seen)));
                &&& over == woken
                &&& *final(seen) == current.number
                &&& *final(self) == (Scheduler { screen_on: woken, ..*old(self) })
            },
    {
        if elapsed as u128 >= total_secs as u128 * NANOS_PER_SEC {
            self.screen_on = true;
            return true;
        }
        if !running || self.screen_on {
            return true;
        }
        if let Some(cmd) = poll_cmd(current, seen) {
            if cmd >= 1 || cmd == TOGGLE {
                self.screen_on = true;
                return true;
            }
        }
        false
    }

    /// The wait on a dark screen is over: back to channel 1, with the lamps on, unless the program
    /// has ended. Gives whether to switch the lamps on.
    pub fn wake(&mut self, running: bool) -> (on: bool)
        requires
            old(self).wf(),
        ensures
            final(self).wf(),
            on == running,
            *final(self) == old(self).awake(running),
            *final(self) == (if running {
                Scheduler { channel: 1, ..*old(self) }
            } else {
                *old(self)
            }),
    {
        if running {
            self.channel = 1;
        }
        running
    }

    /// A module was shown to its end, or a key cut it short: goes on to the next channel unless a
    /// key has chosen one.
    pub fn finish_show(&mut self, interrupted: bool)
        requires
            old(self).wf(),
        ensures
            final(self).wf(),
            *final(self) == old(self).finished(interrupted),
            *final(self) == (if interrupted {
                *old(self)
            } else {
                Scheduler {
                    channel: if old(self).channel >= old(self).total {
                        1
                    } else {
                        (old(self).channel + 1) as usize
                    },
                    ..*old(self)
                }
            }),
    {
        if !interrupted {
            self.channel = if self.channel >= self.total {
                1
            } else {
                self.channel + 1
            };
        }
    }

    /// The scheduler, once a command has come while a module is shown.
    pub open spec fn keyed(self, cmd: Option<i32>) -> Scheduler {
        match cmd {
            Some(c) if c > 0 => Scheduler {
                channel: channel_of(c, self.total as int) as usize,
                ..self
            },
            _ => self,
        }
    }

    /// One look at the keys while a module is shown: gives whether a command cuts it short. One for
    /// a channel chooses that channel. `seen` is the number of the signal seen last in this show.
    pub fn check_key(&mut self, current: Signal, seen: &mut u64) -> (r: bool)
        requires
            old(self).wf(),
        ensures
            final(self).wf(),
            *final(seen) == current.number,
            r == cuts_short(unseen(current, *old(seen))),
            *final(self) == old(self).keyed(unseen(current, *old(seen))),
    {
        if let Some(cmd) = poll_cmd(current, seen) {
            if cmd == TOGGLE {
                return true;
            }
            if cmd > 0 {
                self.channel = channel_for(cmd, self.total);
                return true;
            }
        }
        false
    }

    /// One look at the keys while a module stands, `elapsed` nanoseconds after it was drawn: `None`
    /// to sleep on, else whether a key cut it short.
    pub fn sleep_with_key_check(
        &mut self,
        secs: u64,
        elapsed: u64,
        current: Signal,
        seen: &mut u64,
    ) -> (r: Option<bool>)
        requires
            old(self).wf(),
        ensures
            final(self).wf(),
            (*final(self), *final(seen), r) == old(self).stood(secs, elapsed, current, *old(seen)),
            if elapsed >= secs * NANOS_PER_SEC {
                r == Some(false) && *final(self) == *old(self) && *final(seen) == *old(seen)
            } else {
                &&& *final(seen) == current.number
                &&& *final(self) == old(self).keyed(unseen(current, *old(seen)))
                &&& r == (if cuts_short(unseen(current, *old(seen))) {
                    Some(true)
                } else {
                    None
                })
            },
    {
        if elapsed as u128 >= secs as u128 * NANOS_PER_SEC {
            return Some(false);
        }
        if self.check_key(current, seen) {
            Some(true)
        } else {
            None
        }
    }
}

/// A command cuts the module short that is shown.
pub open spec fn cuts_short(cmd: Option<i32>) -> bool {
    match cmd {
        Some(c) => c == TOGGLE || c > 0,
        None => false,
    }
}

/// What a module that is shown wants done next.
#[derive(Clone, Copy, Debug, PartialEq, Eq, Structural)]
pub enum ShowStep {
    /// Draw the picture of this flag; a module without two pictures has but one.
    Draw(bool),
    /// Sleep for so many milliseconds.
    Nap(u64),
    /// Nothing any more: whether a key cut it short.
    Ended(bool),
}

/// The pictures of a module that has two of them.
#[derive(Clone, Copy, Debug, PartialEq, Eq, Structural)]
pub struct Animation {
    /// Which of the two comes next.
    pub flag: bool,
    /// How often to sleep before it comes.
    pub naps_left: u8,
    /// Whether the last step was a nap, behind which a key counts.
    pub napped: bool,
    /// How many naps a picture stands for.
    pub naps: u8,
    /// How long a nap is, in milliseconds.
    pub nap_millis: u64,
}

impl Animation {
    /// The next step, where `cmd` is the command that waits and `over` says whether the time of the
    /// module is up. That counts only between two pictures; a key counts before each picture
    /// and behind each nap.
    pub open spec fn next(self, cmd: Option<i32>, over: bool) -> (Animation, ShowStep) {
        let nap = Animation { naps_left: (self.naps_left - 1) as u8, napped: true, ..self };
        if self.napped && cuts_short(cmd) {
            (self, ShowStep::Ended(true))
        } else if self.naps_left > 0 {
            (nap, ShowStep::Nap(self.nap_millis))
        } else if over {
            (self, ShowStep::Ended(false))
        } else if cuts_short(cmd) {
            (self, ShowStep::Ended(true))
        } else {
            (
                Animation { flag: !self.flag, naps_left: self.naps, napped: false, ..self },
                ShowStep::Draw(self.flag),
            )
        }
    }

    /// Whether the next step looks at the keys.
    pub open spec fn looks(self, over: bool) -> bool {
        self.napped || (self.naps_left == 0 && !over)
    }

    /// A clock with a colon that blinks: each picture stands for a second.
    pub fn blinking_clock() -> (a: Animation)
        ensures
            a == (Animation { flag: false, naps_left: 0, napped: false, naps: 5, nap_millis: 200 }),
    {
        Animation { flag: false, naps_left: 0, napped: false, naps: 5, nap_millis: 200 }
    }

    /// The weather with an icon that moves: each picture stands for half a second.
    pub fn moving_weather() -> (a: Animation)
        ensures
            a == (Animation { flag: true, naps_left: 0, napped: false, naps: 2, nap_millis: 250 }),
    {
        Animation { flag: true, naps_left: 0, napped: false, naps: 2, nap_millis: 250 }
    }

    /// The next step, `elapsed` nanoseconds after the module came up.
    fn advance(
        &mut self,
        scheduler: &mut Scheduler,
        secs: u64,
        elapsed: u64,
        current: Signal,
        seen: &mut u64,
    ) -> (step: ShowStep)
        requires
            old(scheduler).wf(),
        ensures
            final(scheduler).wf(),
            ({
                let cmd = unseen(current, *old(seen));
                let over = elapsed >= secs * NANOS_PER_SEC;
                let looks = old(self).looks(over);
                &&& (*final(self), step) == old(self).next(cmd, over)
                &&& *final(scheduler) == (if looks {
                    old(scheduler).keyed(cmd)
                } else {
                    *old(scheduler)
                })
                &&& *final(seen) == (if looks {
                    current.number
                } else {
                    *old(seen)
                })
            }),
    {
        if self.napped && scheduler.check_key(current, seen) {
            return ShowStep::Ended(true);
        }
        if self.naps_left > 0 {
            self.naps_left = self.naps_left - 1;
            self.napped = true;
            return ShowStep::Nap(self.nap_millis);
        }
        if elapsed as u128 >= secs as u128 * NANOS_PER_SEC {
            return ShowStep::Ended(false);
        }
        if scheduler.check_key(current, seen) {
            return ShowStep::Ended(true);
        }
        let flag = self.flag;
        self.flag = !flag;
        self.naps_left = self.naps;
        self.napped = false;
        ShowStep::Draw(flag)
    }
}

/// How a module is shown.
#[derive(Clone, Copy, Debug, PartialEq, Eq, Structural)]
pub enum ShowPhase {
    /// One picture, which is still to be drawn. The flag says whether a key counts that comes
    /// while it is drawn.
    Fresh(bool),
    /// One picture, which was drawn just now.
    Drawn(bool),
    /// One picture, which stands.
    Standing,
    /// Two pictures, in turns.
    Moving(Animation),
}

/// A module that is shown.
#[derive(Clone, Copy, Debug, PartialEq, Eq, Structural)]
pub struct Show {
    pub phase: ShowPhase,
    /// When its time began, in nanoseconds of a clock that never goes back.
    pub start: u64,
    /// The number of the signal that was seen last.
    pub seen: u64,
}

impl Show {
    /// What is left to do while one picture stands, where `cmd` is the command that waits.
    pub open spec fn stands(self, secs: u64, now: u64, cmd: Option<i32>) -> ShowStep {
        if since(self.start, now) >= secs * NANOS_PER_SEC {
            ShowStep::Ended(false)
        } else if cuts_short(cmd) {
            ShowStep::Ended(true)
        } else {
            ShowStep::Nap(SHOW_NAP_MILLIS)
        }
    }

    /// The next step, where `current` is the latest signal.
    pub open spec fn step(self, secs: u64, now: u64, current: Signal) -> ShowStep {
        let cmd = unseen(current, self.seen);
        match self.phase {
            ShowPhase::Fresh(_) => ShowStep::Draw(false),
            ShowPhase::Drawn(keys) => if keys && cuts_short(cmd) {
                ShowStep::Ended(true)
            } else if secs == 0 {
                ShowStep::Ended(false)
            } else {
                ShowStep::Nap(SHOW_NAP_MILLIS)
            },
            ShowPhase::Standing => self.stands(secs, now, cmd),
            ShowPhase::Moving(a) => a.next(cmd, since(self.start, now) >= secs * NANOS_PER_SEC).1,
        }
    }

    /// The module behind its next step.
    pub open spec fn next(self, secs: u64, now: u64, current: Signal) -> Show {
        let seen = if self.looks(secs, now) {
            current.number
        } else {
            self.seen
        };
        match self.phase {
            ShowPhase::Fresh(keys) => Show { phase: ShowPhase::Drawn(keys), ..self },
            ShowPhase::Drawn(_) => if self.step(secs, now, current) == ShowStep::Ended(true) {
                Show { seen, ..self }
            } else {
                Show { phase: ShowPhase::Standing, start: now, seen: current.number }
            },
            ShowPhase::Standing => Show { seen, ..self },
            ShowPhase::Moving(a) => Show {
                phase: ShowPhase::Moving(
                    a.next(
                        unseen(current, self.seen),
                        since(self.start, now) >= secs * NANOS_PER_SEC,
                    ).0,
                ),
                seen,
                ..self
            },
        }
    }

    /// Whether the next step looks at the keys.
    pub open spec fn looks(self, secs: u64, now: u64) -> bool {
        let over = since(self.start, now) >= secs * NANOS_PER_SEC;
        match self.phase {
            ShowPhase::Fresh(_) => false,
            ShowPhase::Drawn(keys) => keys,
            ShowPhase::Standing => !over,
            ShowPhase::Moving(a) => a.looks(over),
        }
    }

    /// A module with one picture. Where `keys` is false, a key that comes while the picture is drawn
    /// does not count.
    pub fn still(keys: bool, now: u64, current: Signal) -> (s: Show)
        ensures
            s == (Show { phase: ShowPhase::Fresh(keys), start: now, seen: current.number }),
    {
        Show { phase: ShowPhase::Fresh(keys), start: now, seen: current.number }
    }

    /// A module with two pictures.
    pub fn moving(animation: Animation, now: u64, current: Signal) -> (s: Show)
        ensures
            s == (Show { phase: ShowPhase::Moving(animation), start: now, seen: current.number }),
    {
        Show { phase: ShowPhase::Moving(animation), start: now, seen: current.number }
    }

    /// The next step. The time of a single picture begins once it is drawn.
    pub fn advance(&mut self, scheduler: &mut Scheduler, secs: u64, now: u64, current: Signal) -> (step:
        ShowStep)
        requires
            old(scheduler).wf(),
        ensures
            final(scheduler).wf(),
            step == old(self).step(secs, now, current),
            *final(self) == old(self).next(secs, now, current),
            *final(scheduler) == (if old(self).looks(secs, now) {
                old(scheduler).keyed(unseen(current, old(self).seen))
            } else {
                *old(scheduler)
            }),
            match old(self).phase {
                ShowPhase::Fresh(keys) => *final(self) == (Show {
                    phase: ShowPhase::Drawn(keys),
                    ..*old(self)
                }),
                ShowPhase::Drawn(_) => if step == ShowStep::Ended(true) {
                    *final(self) == (Show { seen: current.number, ..*old(self) })
                } else {
                    *final(self) == (Show { phase: ShowPhase::Standing, start: now, seen: current.number })
                },
                _ => {
                    &&& final(self).start == old(self).start
                    &&& final(self).seen == (if old(self).looks(secs, now) {
                        current.number
                    } else {
                        old(self).seen
                    })
                    &&& final(self).phase == (match old(self).phase {
                        ShowPhase::Moving(a) => ShowPhase::Moving(
                            a.next(
                                unseen(current, old(self).seen),
                                since(old(self).start, now) >= secs * NANOS_PER_SEC,
                            ).0,
                        ),
                        p => p,
                    })
                },
            },
    {
        match self.phase {
            ShowPhase::Fresh(keys) => {
                self.phase = ShowPhase::Drawn(keys);
                ShowStep::Draw(false)
            },
            ShowPhase::Drawn(keys) => {
                if keys && scheduler.check_key(current, &mut self.seen) {
                    return ShowStep::Ended(true);
                }
                self.phase = ShowPhase::Standing;
                self.start = now;
                self.seen = current.number;
                if secs == 0 {
                    ShowStep::Ended(false)
                } else {
                    ShowStep::Nap(SHOW_NAP_MILLIS)
                }
            },
            ShowPhase::Standing => {
                let elapsed = elapsed(self.start, now);
                match scheduler.sleep_with_key_check(secs, elapsed, current, &mut self.seen) {
                    Some(interrupted) => ShowStep::Ended(interrupted),
                    None => ShowStep::Nap(SHOW_NAP_MILLIS),
                }
            },
            ShowPhase::Moving(a) => {
                let mut animation = a;
                let elapsed = elapsed(self.start, now);
                let step = animation.advance(scheduler, secs, elapsed, current, &mut self.seen);
                self.phase = ShowPhase::Moving(animation);
                step
            },
        }
    }
}

/// A module that no key cuts short is shown for its time: it does not end before, counted from
/// its start or, for a single picture, from when it was drawn.
pub proof fn module_keeps_its_time(s: Show, secs: u64, now: u64, current: Signal)
    requires
        s.step(secs, now, current) == ShowStep::Ended(false),
    ensures
        secs == 0 || since(s.start, now) >= secs * NANOS_PER_SEC,
{
}

/// A key cuts a module short only where there is a new command: a channel or the switch.
pub proof fn only_a_key_cuts_a_module_short(s: Show, secs: u64, now: u64, current: Signal)
    requires
        s.step(secs, now, current) == ShowStep::Ended(true),
    ensures
        current.number != s.seen,
        current.command == TOGGLE || current.command > 0,
{
}

/// The two pictures of a module come in turns.
pub proof fn pictures_take_turns(a: Animation, cmd: Option<i32>, over: bool)
    ensures
        ({
            let (next, step) = a.next(cmd, over);
            match step {
                ShowStep::Draw(flag) => flag == a.flag && next.flag == !flag,
                _ => next.flag == a.flag,
            }
        }),
{
}

/// Before a picture changes it stands for all of its naps.
pub proof fn picture_stands_for_its_naps(a: Animation, cmd: Option<i32>, over: bool)
    ensures
        ({
            let (next, step) = a.next(cmd, over);
            match step {
                ShowStep::Draw(_) => a.naps_left == 0 && next.naps_left == a.naps,
                ShowStep::Nap(_) => next.naps_left == a.naps_left - 1,
                ShowStep::Ended(_) => next == a,
            }
        }),
{
}

/// The scheduler never names a module that there is none of.
pub proof fn shown_module_exists(s: Scheduler, go_home: bool, current: Signal)
    requires
        s.wf(),
    ensures
        s.commanded(current).sent_home(go_home).wf(),
        0 <= s.commanded(current).sent_home(go_home).channel - 1 < s.total,
{
    if current.command > 0 {
        vstd::arithmetic::div_mod::lemma_mod_bound(current.command - 1, s.total as int);
    }
}

/// A double click leads to channel 1, whatever command comes with it.
pub proof fn double_click_leads_home(s: Scheduler, current: Signal)
    requires
        s.wf(),
    ensures
        s.commanded(current).sent_home(true).channel == 1,
{
}

/// The channel after `n` modules were shown to their end.
pub open spec fn channel_after(channel: int, total: int, n: nat) -> int
    decreases n,
{
    if n == 0 {
        channel
    } else {
        let c = channel_after(channel, total, (n - 1) as nat);
        if c >= total {
            1
        } else {
            c + 1
        }
    }
}

/// The scheduler after `n` modules were shown to their end.
pub open spec fn after_shows(s: Scheduler, n: nat) -> Scheduler
    decreases n,
{
    if n == 0 {
        s
    } else {
        after_shows(s, (n - 1) as nat).finished(false)
    }
}

/// Without a key every module has its turn, in order, and behind the last comes the first, round
/// and round.
pub proof fn every_module_has_its_turn(channel: int, total: int, n: nat)
    requires
        1 <= channel <= total,
    ensures
        channel_after(channel, total, n) == (channel - 1 + n) % total + 1,
        channel_after(1, total, n) == n as int % total + 1,
    decreases n,
{
    if n > 0 {
        every_module_has_its_turn(channel, total, (n - 1) as nat);
        lemma_next_in_the_round(channel - 1 + (n - 1), total);
        lemma_next_in_the_round(n - 1, total);
    } else {
        vstd::arithmetic::div_mod::lemma_small_mod((channel - 1) as nat, total as nat);
        vstd::arithmetic::div_mod::lemma_small_mod(0, total as nat);
    }
}

/// Where no key cuts a module short, the channels have their turns round and round, and nothing
/// else of the scheduler changes. Behind a module that a key cut short the channel stays.
pub proof fn every_channel_has_its_turn(s: Scheduler, n: nat)
    requires
        s.wf(),
    ensures
        after_shows(s, n).channel == (s.channel - 1 + n) % s.total as int + 1,
        after_shows(s, n) == (Scheduler { channel: after_shows(s, n).channel, ..s }),
        s.channel == 1 ==> after_shows(s, n).channel == n as int % s.total as int + 1,
        s.finished(true) == s,
    decreases n,
{
    let total = s.total as int;
    if n > 0 {
        every_channel_has_its_turn(s, (n - 1) as nat);
        lemma_next_in_the_round(s.channel - 1 + (n - 1), total);
    } else {
        vstd::arithmetic::div_mod::lemma_small_mod((s.channel - 1) as nat, total as nat);
    }
}

/// The switch, sent twice, leaves the screen as it was.
pub proof fn switching_twice_changes_nothing(s: Scheduler, first: Signal, second: Signal)
    requires
        s.wf(),
        first.command == TOGGLE && second.command == TOGGLE,
        unseen(first, s.last_seen) is Some,
        unseen(second, first.number) is Some,
    ensures
        s.commanded(first).screen_on == !s.screen_on,
        s.commanded(first).commanded(second).screen_on == s.screen_on,
{
}

/// The switch, sent again while the screen is dark, wakes it, and it stays on.
pub proof fn second_long_press_wakes_the_screen(s: Scheduler, first: Signal, second: Signal)
    requires
        s.wf(),
        s.screen_on,
        first.command == TOGGLE && second.command == TOGGLE,
        unseen(first, s.last_seen) is Some,
        unseen(second, first.number) is Some,
    ensures
        ({
            let dark = s.commanded(first);
            let woken = dark.woken(second, first.number);
            &&& !dark.screen_on
            &&& wakes(unseen(second, first.number))
            &&& woken.screen_on
            &&& woken.commanded(second).screen_on
        }),
{
}

} // verus!
