use vstd::prelude::*;
use crate::text::{eq_ignore_ascii_case, equal_ignoring_ascii_case, trim, trimmed};

verus! {

/// A power action that the status pill runs once its button is held.
#[derive(Clone, Copy, PartialEq, Eq, Structural, Debug)]
pub enum PowerAction {
    PowerOff,
    Reboot,
}

impl PowerAction {
    /// The action's position among the power actions.
    pub open spec fn position(self) -> int {
        match self {
            PowerAction::PowerOff => 0,
            PowerAction::Reboot => 1,
        }
    }

    /// The action at `index` among the power actions.
    pub fn from_index(index: usize) -> (action: Option<PowerAction>)
        ensures
            match action {
                Some(a) => a.position() == index,
                None => index >= 2,
            },
    {
        match index {
            0 => Some(PowerAction::PowerOff),
            1 => Some(PowerAction::Reboot),
            _ => None,
        }
    }

    /// The status section of the action's button: power off in the last
    /// section, reboot just before it.
    pub fn slot(self) -> (slot: u32)
        ensures
            slot == 5 - self.position(),
    {
        match self {
            PowerAction::PowerOff => 5,
            PowerAction::Reboot => 4,
        }
    }

    /// The `systemctl` command that carries out the action.
    pub fn command(self) -> (command: &'static str)
        ensures
            command@ == match self {
                PowerAction::PowerOff => "poweroff"@,
                PowerAction::Reboot => "reboot"@,
            },
    {
        match self {
            PowerAction::PowerOff => "poweroff",
            PowerAction::Reboot => "reboot",
        }
    }
}

/// Whether the contents of a power-supply attribute file name `value`:
/// trimmed, equal but for ASCII case (`"Battery\n"` is a battery).
pub fn supply_value_is(contents: &str, value: &str) -> (matches: bool)
    ensures
        matches == equal_ignoring_ascii_case(trimmed(contents@), value@),
{
    eq_ignore_ascii_case(trim(contents), value)
}

/// The position of the first set flag, if any.
pub fn first_set(flags: &Vec<bool>) -> (first: Option<usize>)
    ensures
        match first {
            Some(i) => i < flags@.len() && flags@[i as int] && forall|k: int| 0 <= k < i ==> !flags@[k],
            None => forall|k: int| 0 <= k < flags@.len() ==> !flags@[k],
        },
{
    let mut i: usize = 0;
    while i < flags.len()
        invariant
            0 <= i <= flags@.len(),
            forall|k: int| 0 <= k < i ==> !flags@[k],
        decreases flags@.len() - i,
    {
        if flags[i] {
            return Some(i);
        }
        i += 1;
    }
    None
}

/// How long a power button must be held before its action runs, in
/// milliseconds.
pub const POWER_HOLD_MS: u32 = 1500;

/// A power button being held: the action's position and how long it has
/// been held so far.
#[derive(Clone, Copy, PartialEq, Eq, Structural, Debug)]
pub struct PowerHold {
    pub action: usize,
    pub held_ms: u32,
}

/// One frame of the power buttons: a pressed button starts a hold (the
/// first one pressed wins); a hold is dropped when the pointer is released
/// or leaves its button; a hold that reaches 1.5 s ends and runs its action.
pub open spec fn hold_step(
    hold: Option<PowerHold>,
    hovered: Seq<bool>,
    pressed: Option<usize>,
    down: bool,
    dt_ms: int,
) -> (Option<PowerHold>, Option<usize>) {
    let current = match pressed {
        Some(action) => Some(PowerHold { action, held_ms: 0 }),
        None => hold,
    };
    match current {
        None => (None, None),
        Some(h) => {
            let held = h.held_ms + dt_ms;
            if !down || !hovered[h.action as int] {
                (None, None)
            } else if held >= POWER_HOLD_MS {
                (None, Some(h.action))
            } else {
                (Some(PowerHold { action: h.action, held_ms: held as u32 }), None)
            }
        },
    }
}

/// Whether `first` is the position of the first set flag.
pub open spec fn is_first_set(flags: Seq<bool>, first: Option<usize>) -> bool {
    match first {
        Some(i) => i < flags.len() && flags[i as int] && forall|k: int| 0 <= k < i ==> !flags[k],
        None => forall|k: int| 0 <= k < flags.len() ==> !flags[k],
    }
}

/// Advances the power buttons by a frame of `dt_ms` milliseconds, given
/// which buttons the pointer is over, which were pressed this frame, and
/// whether the pointer is still down. Returns the hold that goes on and the
/// action to run, if its hold completed.
pub fn power_hold_step(
    hold: Option<PowerHold>,
    hovered: &Vec<bool>,
    pressed: &Vec<bool>,
    down: bool,
    dt_ms: u32,
) -> (step: (Option<PowerHold>, Option<usize>))
    requires
        pressed@.len() == hovered@.len(),
        hold matches Some(h) ==> h.action < hovered@.len() && h.held_ms < POWER_HOLD_MS,
    ensures
        exists|first: Option<usize>|
            #[trigger] is_first_set(pressed@, first) && step == hold_step(hold, hovered@, first, down, dt_ms as int),
{
    let first = first_set(pressed);
    assert(is_first_set(pressed@, first));
    let current = match first {
        Some(action) => Some(PowerHold { action, held_ms: 0 }),
        None => hold,
    };
    match current {
        None => (None, None),
        Some(h) => {
            let held: u64 = h.held_ms as u64 + dt_ms as u64;
            if !down || !hovered[h.action] {
                (None, None)
            } else if held >= POWER_HOLD_MS as u64 {
                (None, Some(h.action))
            } else {
                (Some(PowerHold { action: h.action, held_ms: held as u32 }), None)
            }
        },
    }
}

} // verus!
