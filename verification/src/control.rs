//! What the key listener and the scheduler share: the commands that keys send, and a
//! request for channel 1.
use vstd::prelude::*;

verus! {

/// A command, and which one it is: the same command sent twice has two numbers.
///
/// A command is 1 or more for a channel, and -1 to switch the screen off or on.
#[derive(Clone, Copy, Debug, PartialEq, Eq, Structural)]
pub struct Signal {
    pub number: u64,
    pub command: i32,
}

/// The command of `current`, for one who has seen the signals up to the number `seen`: none where
/// nothing was sent since.
pub open spec fn unseen(current: Signal, seen: u64) -> Option<i32> {
    if current.number != seen {
        Some(current.command)
    } else {
        None
    }
}

impl Signal {
    /// What is there before any key was touched: channel 1.
    pub fn first() -> (s: Signal)
        ensures
            s == (Signal { number: 0, command: 1 }),
    {
        Signal { number: 0, command: 1 }
    }

    /// The signal that comes next, with its command. Whoever has seen this one has not seen that.
    pub fn next(self, command: i32) -> (s: Signal)
        ensures
            s.command == command,
            s.number == (if self.number == u64::MAX {
                0
            } else {
                self.number + 1
            }),
            unseen(s, self.number) == Some(command),
    {
        let number = if self.number == u64::MAX {
            0
        } else {
            self.number + 1
        };
        Signal { number, command }
    }
}

/// What a key asks of the scheduler.
#[derive(Clone, Copy, Debug, PartialEq, Eq, Structural)]
pub struct ControlState {
    /// A double click: back to channel 1.
    pub go_home: bool,
}

impl Default for ControlState {
    fn default() -> (s: ControlState)
        ensures
            !s.go_home,
    {
        ControlState { go_home: false }
    }
}

impl ControlState {
    /// Asks for channel 1.
    pub fn request_home(&mut self)
        ensures
            final(self).go_home,
    {
        self.go_home = true;
    }

    /// Whether channel 1 was asked for since the last call.
    pub fn take_go_home(&mut self) -> (r: bool)
        ensures
            r == old(self).go_home,
            !final(self).go_home,
    {
        let asked = self.go_home;
        self.go_home = false;
        asked
    }
}

/// The state before any key was touched, for its users to share.
pub fn new_shared() -> (s: ControlState)
    ensures
        !s.go_home,
{
    ControlState::default()
}

} // verus!
