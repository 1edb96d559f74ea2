//! The two keys of the case. A key is polled: each poll gives its level and the
//! time, and what the key means follows from the polls.
//!
//! Times are nanoseconds of a clock that never goes back.
use vstd::prelude::*;
use crate::text::same;

verus! {

/// How long a key is held until the press is a long one.
pub const LONG_PRESS: u64 = 2_000_000_000;

/// A press no longer than this is contact bounce.
pub const BOUNCE: u64 = 50_000_000;

/// How long a click waits for a second one.
pub const DOUBLE_CLICK: u64 = 350_000_000;

/// How long to wait between two polls.
pub const POLL_MILLIS: u64 = 100;

/// The pin of the screen key, where none is set.
pub const SCREEN_KEY_PIN: u32 = 71;

/// The pin of the mesh key, where none is set.
pub const MESH_KEY_PIN: u32 = 72;

/// The command that switches the screen off and on.
pub const TOGGLE: i32 = -1;

/// For how long something has gone on.
pub open spec fn since(start: u64, now: u64) -> int {
    if now >= start {
        now - start
    } else {
        0
    }
}

/// For how long something has gone on.
pub fn elapsed(start: u64, now: u64) -> (r: u64)
    ensures
        r == since(start, now),
{
    if now >= start {
        now - start
    } else {
        0
    }
}

/// The command that comes behind `current`: the next channel, or the first where the screen
/// was switched off.
pub open spec fn next_command(current: i32) -> int {
    if current < 0 {
        1
    } else {
        current + 1
    }
}

/// What the screen key meant.
#[derive(Clone, Copy, Debug, PartialEq, Eq, Structural)]
pub enum ButtonEvent {
    /// Nothing.
    Idle,
    /// Ask for the first channel, and send this command.
    DoubleClick(i32),
    /// Switch the screen off or on; send `TOGGLE`.
    LongPress,
    /// Wake the screen; send 1.
    Wake,
    /// The next channel; send this command.
    Click(i32),
}

/// What is known of the screen key.
#[derive(Clone, Copy, Debug, PartialEq, Eq, Structural)]
pub struct ButtonState {
    /// When the press began that goes on.
    pub press_start: Option<u64>,
    /// Whether that press has had its effect.
    pub long_press_handled: bool,
    /// Until when a click waits for a second one.
    pub pending_click_deadline: Option<u64>,
}

impl ButtonState {
    /// While a key is held no click waits.
    pub open spec fn wf(self) -> bool {
        self.press_start is Some ==> self.pending_click_deadline is None
    }

    /// What a poll with the key down leads to.
    pub open spec fn down(self, now: u64, current: i32) -> (ButtonState, ButtonEvent) {
        match self.press_start {
            None => if self.pending_click_deadline is Some {
                (
                    ButtonState {
                        press_start: Some(now),
                        long_press_handled: true,
                        pending_click_deadline: None,
                    },
                    ButtonEvent::DoubleClick(next_command(current) as i32),
                )
            } else {
                (
                    ButtonState { press_start: Some(now), long_press_handled: false, ..self },
                    ButtonEvent::Idle,
                )
            },
            Some(start) => if !self.long_press_handled && since(start, now) >= LONG_PRESS {
                (ButtonState { long_press_handled: true, ..self }, ButtonEvent::LongPress)
            } else {
                (self, ButtonEvent::Idle)
            },
        }
    }

    /// Whether the end of the press is a click.
    pub open spec fn clicked(self, now: u64) -> bool {
        match self.press_start {
            Some(start) => !self.long_press_handled && since(start, now) > BOUNCE,
            None => false,
        }
    }

    /// What a poll with the key up leads to.
    pub open spec fn up(self, now: u64, current: i32) -> (ButtonState, ButtonEvent) {
        let released = ButtonState { press_start: None, ..self };
        if self.clicked(now) {
            if current < 0 {
                (ButtonState { pending_click_deadline: None, ..released }, ButtonEvent::Wake)
            } else {
                (
                    ButtonState {
                        pending_click_deadline: Some((now + DOUBLE_CLICK) as u64),
                        ..released
                    },
                    ButtonEvent::Idle,
                )
            }
        } else {
            match self.pending_click_deadline {
                Some(deadline) => if now >= deadline {
                    (
                        ButtonState { pending_click_deadline: None, ..released },
                        ButtonEvent::Click(next_command(current) as i32),
                    )
                } else {
                    (released, ButtonEvent::Idle)
                },
                None => (released, ButtonEvent::Idle),
            }
        }
    }

    /// What a poll leads to.
    pub open spec fn polled(self, pressed: bool, now: u64, current: i32) -> (
        ButtonState,
        ButtonEvent,
    ) {
        if pressed {
            self.down(now, current)
        } else {
            self.up(now, current)
        }
    }

    /// Whether a poll is a click or a double click, which sends the next command.
    pub open spec fn goes_on(self, pressed: bool, now: u64) -> bool {
        if pressed {
            self.press_start is None && self.pending_click_deadline is Some
        } else {
            !self.clicked(now) && (self.pending_click_deadline matches Some(d) && now >= d)
        }
    }

    /// Whether a poll is a click or a double click, which sends the next command.
    pub fn sends_next(&self, pressed: bool, now: u64) -> (r: bool)
        ensures
            r == self.goes_on(pressed, now),
    {
        if pressed {
            return self.press_start.is_none() && self.pending_click_deadline.is_some();
        }
        if let Some(start) = self.press_start {
            if !self.long_press_handled && elapsed(start, now) > BOUNCE {
                return false;
            }
        }
        match self.pending_click_deadline {
            Some(deadline) => now >= deadline,
            None => false,
        }
    }

    /// A key that was never touched.
    pub fn new() -> (s: ButtonState)
        ensures
            s.wf(),
            s == (ButtonState {
                press_start: None,
                long_press_handled: false,
                pending_click_deadline: None,
            }),
    {
        ButtonState { press_start: None, long_press_handled: false, pending_click_deadline: None }
    }

    /// Takes in a poll: whether the key is down, the time, and the command that was sent last. There
    /// has to be a next command where the poll sends it, and a time for a click to run out.
    pub fn poll(&mut self, pressed: bool, now: u64, current: i32) -> (e: ButtonEvent)
        requires
            old(self).goes_on(pressed, now) ==> current < i32::MAX,
            !pressed && current >= 0 && old(self).clicked(now) ==> now + DOUBLE_CLICK <= u64::MAX,
        ensures
            (*final(self), e) == old(self).polled(pressed, now, current),
            old(self).wf() ==> final(self).wf(),
    {
        if pressed {
            match self.press_start {
                None => {
                    self.press_start = Some(now);
                    self.long_press_handled = false;
                    if self.pending_click_deadline.is_some() {
                        self.pending_click_deadline = None;
                        self.long_press_handled = true;
                        return ButtonEvent::DoubleClick(
                            if current < 0 {
                                1
                            } else {
                                current + 1
                            },
                        );
                    }
                },
                Some(start) => {
                    if !self.long_press_handled {
                        if elapsed(start, now) >= LONG_PRESS {
                            self.long_press_handled = true;
                            return ButtonEvent::LongPress;
                        }
                    }
                },
            }
        } else {
            if let Some(start) = self.press_start {
                let hold_time = elapsed(start, now);
                self.press_start = None;
                if !self.long_press_handled && hold_time > BOUNCE {
                    if current < 0 {
                        self.pending_click_deadline = None;
                        return ButtonEvent::Wake;
                    } else {
                        self.pending_click_deadline = Some(now + DOUBLE_CLICK);
                    }
                }
            }
            if let Some(deadline) = self.pending_click_deadline {
                if now >= deadline {
                    self.pending_click_deadline = None;
                    return ButtonEvent::Click(
                        if current < 0 {
                            1
                        } else {
                            current + 1
                        },
                    );
                }
            }
        }
        ButtonEvent::Idle
    }
}

/// The command that an event sends.
pub open spec fn event_command(e: ButtonEvent) -> Option<i32> {
    match e {
        ButtonEvent::Idle => None,
        ButtonEvent::DoubleClick(c) => Some(c),
        ButtonEvent::LongPress => Some(TOGGLE),
        ButtonEvent::Wake => Some(1),
        ButtonEvent::Click(c) => Some(c),
    }
}

impl ButtonEvent {
    /// The command to send.
    pub fn command(&self) -> (r: Option<i32>)
        ensures
            r == event_command(*self),
    {
        match self {
            ButtonEvent::Idle => None,
            ButtonEvent::DoubleClick(c) => Some(*c),
            ButtonEvent::LongPress => Some(TOGGLE),
            ButtonEvent::Wake => Some(1),
            ButtonEvent::Click(c) => Some(*c),
        }
    }

    /// Whether to ask for the first channel.
    pub fn goes_home(&self) -> (r: bool)
        ensures
            r == (*self is DoubleClick),
    {
        match self {
            ButtonEvent::DoubleClick(_) => true,
            _ => false,
        }
    }
}

/// Every command that a key sends is a channel or the switch: 1 or more, or `TOGGLE`.
pub proof fn commands_are_channels_or_the_switch(
    s: ButtonState,
    pressed: bool,
    now: u64,
    current: i32,
)
    requires
        s.goes_on(pressed, now) ==> current < i32::MAX,
    ensures
        match event_command(s.polled(pressed, now, current).1) {
            Some(c) => c >= 1 || c == TOGGLE,
            None => true,
        },
{
}

/// One poll of a key.
pub struct Poll {
    pub now: u64,
    pub current: i32,
}

/// How often a key that is held through some polls has an effect.
pub open spec fn effects_while_held(s: ButtonState, polls: Seq<Poll>) -> nat
    decreases polls.len(),
{
    if polls.len() == 0 {
        0
    } else {
        let (next, e) = s.polled(true, polls[0].now, polls[0].current);
        (if e == ButtonEvent::Idle {
            0nat
        } else {
            1nat
        }) + effects_while_held(next, polls.skip(1))
    }
}

/// A key that is held down has one effect at most, however long it is held.
pub proof fn held_key_acts_once(s: ButtonState, polls: Seq<Poll>)
    ensures
        effects_while_held(s, polls) <= 1,
        s.press_start is Some && s.long_press_handled ==> effects_while_held(s, polls) == 0,
    decreases polls.len(),
{
    if polls.len() > 0 {
        let (next, e) = s.polled(true, polls[0].now, polls[0].current);
        held_key_acts_once(next, polls.skip(1));
    }
}

/// A press that had its effect ends without another.
pub proof fn release_after_the_effect_is_silent(s: ButtonState, now: u64, current: i32)
    requires
        s.wf(),
        s.press_start is Some,
        s.long_press_handled,
    ensures
        s.polled(false, now, current).1 == ButtonEvent::Idle,
        s.polled(false, now, current).0.pending_click_deadline is None,
{
}

/// A bounce, a press of 50 milliseconds or less, has no effect.
pub proof fn bounce_is_ignored(s: ButtonState, start: u64, now: u64, current: i32)
    requires
        s.wf(),
        s.press_start == Some(start),
        since(start, now) <= BOUNCE,
    ensures
        s.polled(false, now, current).1 == ButtonEvent::Idle,
        s.polled(false, now, current).0.press_start is None,
        s.polled(false, now, current).0.pending_click_deadline is None,
{
}

/// A key held for two seconds switches the screen, once; letting go then does nothing.
pub proof fn long_press_switches_the_screen(t0: u64, t1: u64, t2: u64, current: i32)
    requires
        t0 + LONG_PRESS <= t1 <= t2,
    ensures
        ({
            let idle = ButtonState {
                press_start: None,
                long_press_handled: false,
                pending_click_deadline: None,
            };
            let (a, e0) = idle.polled(true, t0, current);
            let (b, e1) = a.polled(true, t1, current);
            let (c, e2) = b.polled(false, t2, current);
            &&& e0 == ButtonEvent::Idle
            &&& e1 == ButtonEvent::LongPress
            &&& e2 == ButtonEvent::Idle
            &&& c.press_start is None && c.pending_click_deadline is None
        }),
{
}

/// A click, with no second one within 350 milliseconds, goes to the next channel.
pub proof fn single_click_goes_to_the_next_channel(t0: u64, t1: u64, t2: u64, current: i32)
    requires
        t0 + BOUNCE < t1,
        t1 + DOUBLE_CLICK <= t2,
        0 <= current < i32::MAX,
    ensures
        ({
            let idle = ButtonState {
                press_start: None,
                long_press_handled: false,
                pending_click_deadline: None,
            };
            let (a, e0) = idle.polled(true, t0, current);
            let (b, e1) = a.polled(false, t1, current);
            let (c, e2) = b.polled(false, t2, current);
            &&& e0 == ButtonEvent::Idle
            &&& e1 == ButtonEvent::Idle
            &&& e2 == ButtonEvent::Click((current + 1) as i32)
            &&& c == idle
        }),
{
}

/// A second press before a click has run out is a double click. It takes the place of the click,
/// and letting go of the key then does nothing.
pub proof fn double_click_takes_the_place_of_a_click(t0: u64, t1: u64, t2: u64, t3: u64, current: i32)
    requires
        t0 + BOUNCE < t1,
        t1 <= t2 <= t3,
        t1 + DOUBLE_CLICK <= u64::MAX,
        0 <= current < i32::MAX,
    ensures
        ({
            let idle = ButtonState {
                press_start: None,
                long_press_handled: false,
                pending_click_deadline: None,
            };
            let (a, e0) = idle.polled(true, t0, current);
            let (b, e1) = a.polled(false, t1, current);
            let (c, e2) = b.polled(true, t2, current);
            let (d, e3) = c.polled(false, t3, current);
            &&& e0 == ButtonEvent::Idle
            &&& e1 == ButtonEvent::Idle
            &&& e2 == ButtonEvent::DoubleClick((current + 1) as i32)
            &&& e3 == ButtonEvent::Idle
            &&& d.press_start is None && d.pending_click_deadline is None
        }),
{
}

/// A click on a screen that was switched off wakes it at once.
pub proof fn click_wakes_a_dark_screen(t0: u64, t1: u64, current: i32)
    requires
        t0 + BOUNCE < t1,
        current < 0,
    ensures
        ({
            let idle = ButtonState {
                press_start: None,
                long_press_handled: false,
                pending_click_deadline: None,
            };
            let (a, e0) = idle.polled(true, t0, current);
            let (b, e1) = a.polled(false, t1, current);
            &&& e0 == ButtonEvent::Idle
            &&& e1 == ButtonEvent::Wake
            &&& b == idle
        }),
{
}

/// What the mesh key meant.
#[derive(Clone, Copy, Debug, PartialEq, Eq, Structural)]
pub enum MeshEvent {
    /// Nothing.
    Idle,
    /// A second click, which has no action.
    DoubleClick,
    /// The action of a long press.
    LongPress,
    /// The action of a short press.
    ShortPress,
}

/// What is known of the mesh key.
#[derive(Clone, Copy, Debug, PartialEq, Eq, Structural)]
pub struct MeshState {
    pub press_start: Option<u64>,
    pub long_press_handled: bool,
    pub pending_click_deadline: Option<u64>,
    /// Whether the press that goes on is the second of a double click.
    pub double_click_handled: bool,
}

impl MeshState {
    /// While a key is held no click waits, and a double click lasts as long as its second press.
    pub open spec fn wf(self) -> bool {
        &&& self.press_start is Some ==> self.pending_click_deadline is None
        &&& self.double_click_handled ==> self.press_start is Some
    }

    /// What a poll with the key down leads to.
    pub open spec fn down(self, now: u64) -> (MeshState, MeshEvent) {
        match self.press_start {
            None => {
                let held = MeshState { press_start: Some(now), long_press_handled: false, ..self };
                if self.pending_click_deadline is Some {
                    (
                        MeshState {
                            pending_click_deadline: None,
                            double_click_handled: true,
                            ..held
                        },
                        MeshEvent::DoubleClick,
                    )
                } else {
                    (held, MeshEvent::Idle)
                }
            },
            Some(start) => if !self.long_press_handled && since(start, now) >= LONG_PRESS {
                (MeshState { long_press_handled: true, ..self }, MeshEvent::LongPress)
            } else {
                (self, MeshEvent::Idle)
            },
        }
    }

    /// Whether the end of the press is a click.
    pub open spec fn clicked(self, now: u64) -> bool {
        match self.press_start {
            Some(start) => !self.long_press_handled && !self.double_click_handled && since(
                start,
                now,
            ) > BOUNCE,
            None => false,
        }
    }

    /// What a poll with the key up leads to.
    pub open spec fn up(self, now: u64) -> (MeshState, MeshEvent) {
        let released = MeshState { press_start: None, double_click_handled: false, ..self };
        if self.clicked(now) {
            (
                MeshState {
                    pending_click_deadline: Some((now + DOUBLE_CLICK) as u64),
                    ..released
                },
                MeshEvent::Idle,
            )
        } else {
            match self.pending_click_deadline {
                Some(deadline) => if now >= deadline {
                    (
                        MeshState { pending_click_deadline: None, ..released },
                        MeshEvent::ShortPress,
                    )
                } else {
                    (released, MeshEvent::Idle)
                },
                None => (released, MeshEvent::Idle),
            }
        }
    }

    /// What a poll leads to.
    pub open spec fn polled(self, pressed: bool, now: u64) -> (MeshState, MeshEvent) {
        if pressed {
            self.down(now)
        } else {
            self.up(now)
        }
    }

    /// A key that was never touched.
    pub fn new() -> (s: MeshState)
        ensures
            s.wf(),
            s == (MeshState {
                press_start: None,
                long_press_handled: false,
                pending_click_deadline: None,
                double_click_handled: false,
            }),
    {
        MeshState {
            press_start: None,
            long_press_handled: false,
            pending_click_deadline: None,
            double_click_handled: false,
        }
    }

    /// Takes in a poll: whether the key is down, and the time. There has to be a time for a click to
    /// run out.
    pub fn poll(&mut self, pressed: bool, now: u64) -> (e: MeshEvent)
        requires
            !pressed && old(self).clicked(now) ==> now + DOUBLE_CLICK <= u64::MAX,
        ensures
            (*final(self), e) == old(self).polled(pressed, now),
            old(self).wf() ==> final(self).wf(),
    {
        if pressed {
            match self.press_start {
                None => {
                    self.press_start = Some(now);
                    self.long_press_handled = false;
                    if self.pending_click_deadline.is_some() {
                        self.pending_click_deadline = None;
                        self.double_click_handled = true;
                        return MeshEvent::DoubleClick;
                    }
                },
                Some(start) => {
                    if !self.long_press_handled {
                        if elapsed(start, now) >= LONG_PRESS {
                            self.long_press_handled = true;
                            return MeshEvent::LongPress;
                        }
                    }
                },
            }
        } else {
            if let Some(start) = self.press_start {
                let hold_time = elapsed(start, now);
                if !self.long_press_handled && !self.double_click_handled && hold_time > BOUNCE {
                    self.pending_click_deadline = Some(now + DOUBLE_CLICK);
                }
                self.press_start = None;
            }
            self.double_click_handled = false;
            if let Some(deadline) = self.pending_click_deadline {
                if now >= deadline {
                    self.pending_click_deadline = None;
                    return MeshEvent::ShortPress;
                }
            }
        }
        MeshEvent::Idle
    }
}

/// A short press of the mesh key has its action once no second one has come within 350
/// milliseconds.
pub proof fn mesh_click_has_its_action(t0: u64, t1: u64, t2: u64)
    requires
        t0 + BOUNCE < t1,
        t1 + DOUBLE_CLICK <= t2,
    ensures
        ({
            let idle = MeshState {
                press_start: None,
                long_press_handled: false,
                pending_click_deadline: None,
                double_click_handled: false,
            };
            let (a, e0) = idle.polled(true, t0);
            let (b, e1) = a.polled(false, t1);
            let (c, e2) = b.polled(false, t2);
            &&& e0 == MeshEvent::Idle
            &&& e1 == MeshEvent::Idle
            &&& e2 == MeshEvent::ShortPress
            &&& c == idle
        }),
{
}

/// A double click of the mesh key has no action, and leaves the key as it was: once it is
/// released, a press with no second one within 350 milliseconds is a short press again.
pub proof fn mesh_key_works_after_a_double_click(s: MeshState, t0: u64, t1: u64, t2: u64, t3: u64)
    requires
        s.wf(),
        s.double_click_handled,
        t1 + BOUNCE < t2,
        t2 + DOUBLE_CLICK <= t3,
    ensures
        ({
            let (a, e0) = s.polled(false, t0);
            let (b, e1) = a.polled(true, t1);
            let (c, e2) = b.polled(false, t2);
            let (d, e3) = c.polled(false, t3);
            &&& e0 == MeshEvent::Idle
            &&& a.press_start is None && a.pending_click_deadline is None
            &&& !a.double_click_handled
            &&& e1 == MeshEvent::Idle
            &&& e2 == MeshEvent::Idle
            &&& e3 == MeshEvent::ShortPress
        }),
{
}

/// What to run for an action.
#[derive(Debug)]
pub struct ActionCommand {
    pub program: &'static str,
    pub arg: Option<&'static str>,
}

/// What an action of the mesh key runs. Any other name has no action.
pub open spec fn action_program(action: Seq<char>) -> Option<(Seq<char>, bool)> {
    if action == "reboot"@ {
        Some(("reboot"@, false))
    } else if action == "restart_network"@ {
        Some(("/etc/init.d/network"@, true))
    } else if action == "restart_wifi"@ {
        Some(("/etc/init.d/wireless"@, true))
    } else if action == "restart_athena"@ {
        Some(("/etc/init.d/athena_led"@, true))
    } else {
        None
    }
}

/// What an action runs: a program, with `restart` as its argument or with none.
pub fn execute_action(action: &str) -> (r: Option<ActionCommand>)
    ensures
        match (r, action_program(action@)) {
            (Some(c), Some((program, restart))) => {
                &&& c.program@ == program
                &&& match c.arg {
                    Some(a) => restart && a@ == "restart"@,
                    None => !restart,
                }
            },
            (None, None) => true,
            _ => false,
        },
{
    if same(action, "reboot") {
        Some(ActionCommand { program: "reboot", arg: None })
    } else if same(action, "restart_network") {
        Some(ActionCommand { program: "/etc/init.d/network", arg: Some("restart") })
    } else if same(action, "restart_wifi") {
        Some(ActionCommand { program: "/etc/init.d/wireless", arg: Some("restart") })
    } else if same(action, "restart_athena") {
        Some(ActionCommand { program: "/etc/init.d/athena_led", arg: Some("restart") })
    } else {
        None
    }
}

} // verus!
