//! What holds of the keys over a row of polls, however close together they come.
use vstd::prelude::*;
use crate::button::{
    action_program, event_command, next_command, ButtonEvent, ButtonState, MeshEvent, MeshState,
    BOUNCE, DOUBLE_CLICK, LONG_PRESS, MESH_KEY_PIN, POLL_MILLIS, SCREEN_KEY_PIN, TOGGLE,
};
use crate::control::{unseen, Signal};
use crate::led_screen::LedScreen;

verus! {

/// One poll of a key: whether it is down, when, and which command was sent last.
pub struct KeyPoll {
    pub pressed: bool,
    pub now: u64,
    pub current: i32,
}

/// The times of some polls do not go back.
pub open spec fn in_time(polls: Seq<KeyPoll>) -> bool {
    forall|i: int, j: int| 0 <= i <= j < polls.len() ==> #[trigger] polls[i].now <= #[trigger] polls[j].now
}

/// The key is down in all of some polls.
pub open spec fn all_down(polls: Seq<KeyPoll>) -> bool {
    forall|i: int| 0 <= i < polls.len() ==> (#[trigger] polls[i]).pressed
}

/// The key is up in all of some polls.
pub open spec fn all_up(polls: Seq<KeyPoll>) -> bool {
    forall|i: int| 0 <= i < polls.len() ==> !(#[trigger] polls[i]).pressed
}

/// The screen key behind some polls.
pub open spec fn after(s: ButtonState, polls: Seq<KeyPoll>) -> ButtonState
    decreases polls.len(),
{
    if polls.len() == 0 {
        s
    } else {
        let p = polls.last();
        after(s, polls.drop_last()).polled(p.pressed, p.now, p.current).0
    }
}

/// What poll `i` of some polls means.
pub open spec fn event(s: ButtonState, polls: Seq<KeyPoll>, i: int) -> ButtonEvent {
    after(s, polls.take(i)).polled(polls[i].pressed, polls[i].now, polls[i].current).1
}

proof fn lemma_after(s: ButtonState, polls: Seq<KeyPoll>, i: int)
    requires
        0 <= i < polls.len(),
    ensures
        after(s, polls.take(i + 1)) == after(s, polls.take(i)).polled(
            polls[i].pressed,
            polls[i].now,
            polls[i].current,
        ).0,
        after(s, polls.take(0)) == s,
{
    assert(polls.take(i + 1).drop_last() == polls.take(i));
    assert(polls.take(i + 1).last() == polls[i]);
}

/// The commands of the events: -1 switches the screen, a wake is channel 1, and a click or a double
/// click has its own.
pub proof fn events_send_their_commands(c: i32)
    ensures
        event_command(ButtonEvent::Idle) is None,
        event_command(ButtonEvent::LongPress) == Some(-1i32),
        event_command(ButtonEvent::Wake) == Some(1i32),
        event_command(ButtonEvent::Click(c)) == Some(c),
        event_command(ButtonEvent::DoubleClick(c)) == Some(c),
{
}

proof fn lemma_held(s: ButtonState, polls: Seq<KeyPoll>, i: int)
    requires
        s.press_start is None,
        s.pending_click_deadline is None,
        all_down(polls),
        in_time(polls),
        0 < i <= polls.len(),
    ensures
        after(s, polls.take(i)) == (ButtonState {
            press_start: Some(polls[0].now),
            long_press_handled: polls[i - 1].now - polls[0].now >= 2_000_000_000,
            pending_click_deadline: None,
        }),
    decreases i,
{
    lemma_after(s, polls, i - 1);
    assert(polls[i - 1].pressed);
    if i > 1 {
        lemma_held(s, polls, i - 1);
        assert(polls[0].now <= polls[i - 2].now);
        assert(polls[i - 2].now <= polls[i - 1].now);
    }
}

/// A key that is held has its long press once: at the first poll that comes two seconds or more
/// behind the first one of the press. No poll before or behind it has any effect, and each leaves
/// the start of the press where it was.
pub proof fn held_key_has_one_long_press(s: ButtonState, polls: Seq<KeyPoll>, i: int)
    requires
        s.press_start is None,
        s.pending_click_deadline is None,
        all_down(polls),
        in_time(polls),
        0 <= i < polls.len(),
    ensures
        event(s, polls, i) == (if i > 0 && polls[i].now - polls[0].now >= 2_000_000_000 && polls[i
            - 1].now - polls[0].now < 2_000_000_000 {
            ButtonEvent::LongPress
        } else {
            ButtonEvent::Idle
        }),
        after(s, polls.take(i + 1)).press_start == Some(polls[0].now),
{
    lemma_held(s, polls, i + 1);
    lemma_after(s, polls, i);
    assert(polls[i].pressed);
    if i > 0 {
        lemma_held(s, polls, i);
        assert(polls[0].now <= polls[i].now);
    }
}

/// A press that was held for more than 50 milliseconds, and had no long press, is a click when it
/// ends: on a dark screen it wakes it at once, else it waits for 350 milliseconds. Any other
/// press ends without an effect.
pub proof fn release_is_a_click_or_nothing(
    s: ButtonState,
    down: Seq<KeyPoll>,
    now: u64,
    current: i32,
)
    requires
        s.press_start is None,
        s.pending_click_deadline is None,
        down.len() > 0,
        all_down(down),
        in_time(down),
        down.last().now <= now,
        now + 350_000_000 <= u64::MAX,
    ensures
        ({
            let (next, e) = after(s, down).polled(false, now, current);
            let click = now - down[0].now > 50_000_000 && down.last().now - down[0].now
                < 2_000_000_000;
            &&& next.press_start is None
            &&& e == (if click && current < 0 {
                ButtonEvent::Wake
            } else {
                ButtonEvent::Idle
            })
            &&& next.pending_click_deadline == (if click && current >= 0 {
                Some((now + 350_000_000) as u64)
            } else {
                None
            })
        }),
{
    assert(down.take(down.len() as int) == down);
    lemma_held(s, down, down.len() as int);
    assert(down[0].now <= down[down.len() - 1].now);
}

proof fn lemma_waiting(s: ButtonState, polls: Seq<KeyPoll>, deadline: u64, i: int)
    requires
        s.press_start is None,
        s.pending_click_deadline == Some(deadline),
        all_up(polls),
        in_time(polls),
        0 <= i <= polls.len(),
    ensures
        after(s, polls.take(i)).press_start is None,
        after(s, polls.take(i)).pending_click_deadline == (if i == 0 || polls[i - 1].now
            < deadline {
            Some(deadline)
        } else {
            None
        }),
    decreases i,
{
    if i == 0 {
        assert(polls.take(0).len() == 0);
    } else {
        lemma_waiting(s, polls, deadline, i - 1);
        lemma_after(s, polls, i - 1);
        assert(!polls[i - 1].pressed);
        if i > 1 {
            assert(polls[i - 2].now <= polls[i - 1].now);
        }
    }
}

/// A click that waits goes to the next channel once: at the first poll from its time on, with no
/// press before it. That is one more than the last command, or channel 1 where that was the switch.
pub proof fn waiting_click_goes_on_once(
    s: ButtonState,
    polls: Seq<KeyPoll>,
    deadline: u64,
    i: int,
)
    requires
        s.press_start is None,
        s.pending_click_deadline == Some(deadline),
        all_up(polls),
        in_time(polls),
        0 <= i < polls.len(),
        polls[i].current < i32::MAX,
    ensures
        event(s, polls, i) == (if polls[i].now >= deadline && (i == 0 || polls[i - 1].now
            < deadline) {
            ButtonEvent::Click(
                if polls[i].current >= 0 {
                    (polls[i].current + 1) as i32
                } else {
                    1
                },
            )
        } else {
            ButtonEvent::Idle
        }),
{
    lemma_waiting(s, polls, deadline, i);
    assert(!polls[i].pressed);
}

proof fn lemma_held_after_a_click(s: ButtonState, polls: Seq<KeyPoll>, i: int)
    requires
        s.press_start is None,
        s.pending_click_deadline is Some,
        all_down(polls),
        0 < i <= polls.len(),
    ensures
        after(s, polls.take(i)) == (ButtonState {
            press_start: Some(polls[0].now),
            long_press_handled: true,
            pending_click_deadline: None,
        }),
    decreases i,
{
    lemma_after(s, polls, i - 1);
    assert(polls[i - 1].pressed);
    if i > 1 {
        lemma_held_after_a_click(s, polls, i - 1);
    } else {
        assert(polls.take(0).len() == 0);
    }
}

/// A press while a click waits is a double click, at its first poll and at no other, however long
/// it is held; and it ends without an effect.
pub proof fn press_behind_a_click_is_a_double_click(
    s: ButtonState,
    down: Seq<KeyPoll>,
    i: int,
    now: u64,
    current: i32,
)
    requires
        s.press_start is None,
        s.pending_click_deadline is Some,
        all_down(down),
        0 <= i < down.len(),
        down[i].current < i32::MAX,
    ensures
        event(s, down, i) == (if i == 0 {
            ButtonEvent::DoubleClick(
                if down[0].current >= 0 {
                    (down[0].current + 1) as i32
                } else {
                    1
                },
            )
        } else {
            ButtonEvent::Idle
        }),
        after(s, down).polled(false, now, current).1 == ButtonEvent::Idle,
        after(s, down).polled(false, now, current).0.press_start is None,
        after(s, down).polled(false, now, current).0.pending_click_deadline is None,
{
    assert(down[i].pressed);
    assert(down.take(down.len() as int) == down);
    lemma_held_after_a_click(s, down, down.len() as int);
    if i > 0 {
        lemma_held_after_a_click(s, down, i);
    } else {
        assert(down.take(0).len() == 0);
    }
}

/// A key that nobody touches has no effect and does not change.
pub proof fn untouched_key_is_silent(s: ButtonState, now: u64, current: i32)
    requires
        s.press_start is None,
        s.pending_click_deadline is None,
    ensures
        s.polled(false, now, current) == (s, ButtonEvent::Idle),
{
}

/// The mesh key behind some polls.
pub open spec fn mesh_after(s: MeshState, polls: Seq<KeyPoll>) -> MeshState
    decreases polls.len(),
{
    if polls.len() == 0 {
        s
    } else {
        mesh_after(s, polls.drop_last()).polled(polls.last().pressed, polls.last().now).0
    }
}

/// What poll `i` of some polls of the mesh key means.
pub open spec fn mesh_event(s: MeshState, polls: Seq<KeyPoll>, i: int) -> MeshEvent {
    mesh_after(s, polls.take(i)).polled(polls[i].pressed, polls[i].now).1
}

proof fn lemma_mesh_after(s: MeshState, polls: Seq<KeyPoll>, i: int)
    requires
        0 <= i < polls.len(),
    ensures
        mesh_after(s, polls.take(i + 1)) == mesh_after(s, polls.take(i)).polled(
            polls[i].pressed,
            polls[i].now,
        ).0,
        mesh_after(s, polls.take(0)) == s,
{
    assert(polls.take(i + 1).drop_last() == polls.take(i));
    assert(polls.take(i + 1).last() == polls[i]);
}

/// A mesh key that is not held, with a click that waits or without.
pub open spec fn mesh_up(s: MeshState) -> bool {
    s.press_start is None && !s.double_click_handled
}

proof fn lemma_mesh_held(s: MeshState, polls: Seq<KeyPoll>, i: int)
    requires
        mesh_up(s),
        all_down(polls),
        in_time(polls),
        0 < i <= polls.len(),
    ensures
        mesh_after(s, polls.take(i)) == (MeshState {
            press_start: Some(polls[0].now),
            long_press_handled: polls[i - 1].now - polls[0].now >= 2_000_000_000,
            pending_click_deadline: None,
            double_click_handled: s.pending_click_deadline is Some,
        }),
    decreases i,
{
    lemma_mesh_after(s, polls, i - 1);
    assert(polls[i - 1].pressed);
    if i > 1 {
        lemma_mesh_held(s, polls, i - 1);
        assert(polls[0].now <= polls[i - 2].now);
        assert(polls[i - 2].now <= polls[i - 1].now);
    }
}

/// A mesh key that is held has its long press once: at the first poll that comes two seconds or
/// more behind the first one of the press. A press while a click waits is a double click at its
/// first poll. No other poll has an effect.
pub proof fn held_mesh_key_has_one_long_press(s: MeshState, polls: Seq<KeyPoll>, i: int)
    requires
        mesh_up(s),
        all_down(polls),
        in_time(polls),
        0 <= i < polls.len(),
    ensures
        mesh_event(s, polls, i) == (if i == 0 {
            if s.pending_click_deadline is Some {
                MeshEvent::DoubleClick
            } else {
                MeshEvent::Idle
            }
        } else if polls[i].now - polls[0].now >= 2_000_000_000 && polls[i - 1].now - polls[0].now
            < 2_000_000_000 {
            MeshEvent::LongPress
        } else {
            MeshEvent::Idle
        }),
{
    lemma_mesh_held(s, polls, i + 1);
    lemma_mesh_after(s, polls, i);
    assert(polls[i].pressed);
    if i > 0 {
        lemma_mesh_held(s, polls, i);
        assert(polls[0].now <= polls[i].now);
    }
}

/// A press of the mesh key that was held for more than 50 milliseconds, had no long press and is no
/// double click waits for 350 milliseconds when it ends. Any other press ends without a trace.
pub proof fn mesh_release_waits_or_is_nothing(s: MeshState, down: Seq<KeyPoll>, now: u64)
    requires
        mesh_up(s),
        down.len() > 0,
        all_down(down),
        in_time(down),
        down.last().now <= now,
        now + 350_000_000 <= u64::MAX,
    ensures
        ({
            let (next, e) = mesh_after(s, down).polled(false, now);
            let click = now - down[0].now > 50_000_000 && down.last().now - down[0].now
                < 2_000_000_000 && s.pending_click_deadline is None;
            &&& e == MeshEvent::Idle
            &&& mesh_up(next)
            &&& next.pending_click_deadline == (if click {
                Some((now + 350_000_000) as u64)
            } else {
                None
            })
        }),
{
    assert(down.take(down.len() as int) == down);
    lemma_mesh_held(s, down, down.len() as int);
    assert(down[0].now <= down[down.len() - 1].now);
}

proof fn lemma_mesh_waiting(s: MeshState, polls: Seq<KeyPoll>, deadline: u64, i: int)
    requires
        mesh_up(s),
        s.pending_click_deadline == Some(deadline),
        all_up(polls),
        in_time(polls),
        0 <= i <= polls.len(),
    ensures
        mesh_up(mesh_after(s, polls.take(i))),
        mesh_after(s, polls.take(i)).pending_click_deadline == (if i == 0 || polls[i - 1].now
            < deadline {
            Some(deadline)
        } else {
            None
        }),
    decreases i,
{
    if i == 0 {
        assert(polls.take(0).len() == 0);
    } else {
        lemma_mesh_waiting(s, polls, deadline, i - 1);
        lemma_mesh_after(s, polls, i - 1);
        assert(!polls[i - 1].pressed);
        if i > 1 {
            assert(polls[i - 2].now <= polls[i - 1].now);
        }
    }
}

/// A click of the mesh key that waits is a short press once: at the first poll from its time on,
/// with no press before it. A key that nobody touches has no effect.
pub proof fn waiting_mesh_click_is_a_short_press_once(
    s: MeshState,
    polls: Seq<KeyPoll>,
    deadline: u64,
    i: int,
    now: u64,
)
    requires
        mesh_up(s),
        s.pending_click_deadline == Some(deadline),
        all_up(polls),
        in_time(polls),
        0 <= i < polls.len(),
    ensures
        mesh_event(s, polls, i) == (if polls[i].now >= deadline && (i == 0 || polls[i - 1].now
            < deadline) {
            MeshEvent::ShortPress
        } else {
            MeshEvent::Idle
        }),
        ({
            let idle = MeshState { pending_click_deadline: None, ..s };
            idle.polled(false, now) == (idle, MeshEvent::Idle)
        }),
{
    lemma_mesh_waiting(s, polls, deadline, i);
    assert(!polls[i].pressed);
}

/// There are four actions, and no other name has one. A reboot takes no argument.
pub proof fn there_are_four_actions(action: Seq<char>)
    ensures
        action_program(action) is Some <==> action == "reboot"@ || action == "restart_network"@
            || action == "restart_wifi"@ || action == "restart_athena"@,
        action_program(action) matches Some(p) ==> {
            &&& p.1 <==> action != "reboot"@
            &&& action == "reboot"@ ==> p.0 == "reboot"@
            &&& action == "restart_network"@ ==> p.0 == "/etc/init.d/network"@
            &&& action == "restart_wifi"@ ==> p.0 == "/etc/init.d/wireless"@
            &&& action == "restart_athena"@ ==> p.0 == "/etc/init.d/athena_led"@
        },
{
    reveal_strlit("reboot");
    reveal_strlit("restart_network");
    reveal_strlit("restart_wifi");
    reveal_strlit("restart_athena");
    assert("restart_network"@[8] == 'n');
    assert("restart_wifi"@[8] == 'w');
    assert("restart_athena"@[8] == 'a');
}

/// A signal is new to those who have not seen its number, and to no one else.
pub proof fn signal_is_new_until_it_is_seen(s: Signal, seen: u64)
    ensures
        unseen(s, seen) is Some <==> s.number != seen,
        unseen(s, seen) matches Some(c) ==> c == s.command,
{
}

/// A screen that is bound to the keys sees each signal once, and takes 0 for no command; one that is
/// not bound sees none.
pub proof fn screen_sees_each_signal_once(screen: LedScreen, s: Signal)
    ensures
        screen.interrupt_bound && s.number != screen.interrupt_last_seen && s.command != 0
            ==> screen.pressed(s) == Some(s.command),
        !screen.interrupt_bound || s.number == screen.interrupt_last_seen || s.command == 0
            ==> screen.pressed(s) is None,
        screen.having_seen(s).pressed(s) is None,
        screen.having_seen(s).disabled_led_mask == screen.disabled_led_mask,
        screen.having_seen(s).interrupt_bound == screen.interrupt_bound,
{
}

/// A poll sends the next command where it is a click or a double click, and nowhere else.
pub proof fn next_command_goes_with_a_click(
    s: ButtonState,
    pressed: bool,
    now: u64,
    current: i32,
    off: i32,
)
    requires
        0 <= current < i32::MAX,
    ensures
        s.goes_on(pressed, now) <==> s.polled(pressed, now, current).1 == ButtonEvent::Click(
            (current + 1) as i32,
        ) || s.polled(pressed, now, current).1 == ButtonEvent::DoubleClick((current + 1) as i32),
        next_command(current) == current + 1,
        off < 0 ==> next_command(off) == 1,
{
}

/// The pins of the two keys, and how often they are looked at.
pub proof fn keys_have_their_pins()
    ensures
        SCREEN_KEY_PIN == 71 && MESH_KEY_PIN == 72,
        POLL_MILLIS == 100,
        LONG_PRESS == 2_000_000_000 && BOUNCE == 50_000_000 && DOUBLE_CLICK == 350_000_000,
        TOGGLE == -1,
{
}

} // verus!
