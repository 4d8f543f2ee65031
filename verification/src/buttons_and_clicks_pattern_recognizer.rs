use vstd::prelude::*;

verus! {

/// The keys that the recognizer tells apart.
#[derive(Clone, Copy, Debug, PartialEq, Eq, Structural)]
pub enum Key {
    ControlLeft,
    Alt,
    KeyB,
    Other,
}

/// The mouse buttons that the recognizer tells apart.
#[derive(Clone, Copy, Debug, PartialEq, Eq, Structural)]
pub enum Button {
    Left,
    Right,
    Other,
}

/// What the input devices report.
#[derive(Clone, Copy, Debug, PartialEq, Eq, Structural)]
pub enum InputEvent {
    KeyPress(Key),
    KeyRelease(Key),
    ButtonPress(Button),
    Other,
}

/// Where the recognizer stands.
#[derive(Clone, Copy, Debug, PartialEq, Eq, Structural)]
pub enum State {
    /// Nothing has happened yet.
    Waiting,
    /// One of the three keys went down at the given time, in nanoseconds.
    CtrlAltBPressed(u128),
    /// The keys were held long enough: the clicks are counted, left ones
    /// first, right ones second.
    Activated(u8, u8),
    /// The backup was confirmed: the recognizer has nothing more to do.
    Sleeping,
}

/// What the driver does after an event.
#[derive(Clone, Copy, Debug, PartialEq, Eq, Structural)]
pub enum Reaction {
    /// Nothing.
    Nothing,
    /// Tell the user that the first step is done: the positive sound and
    /// the notice of the first step by keys and clicks.
    AnnounceFirstStep,
    /// The backup is confirmed: the positive sound, the notice that the
    /// backup starts, and the end of the listening.
    StartBackup,
    /// The backup is cancelled: the negative sound and its notice.
    CancelBackup,
    /// Rest for good, without using the processor.
    Rest,
}

/// For how long the keys are held before the clicks are counted, in
/// nanoseconds.
pub const HOLD_NANOS: u128 = 5_000_000_000;

/// How many clicks in a row confirm or cancel.
pub const CLICKS_NEEDED: u8 = 3;

/// One of the three keys of the combination.
pub open spec fn is_trigger_key(key: Key) -> bool {
    key == Key::ControlLeft || key == Key::Alt || key == Key::KeyB
}

/// The time from `start` to `now`; none where `now` is the earlier.
pub open spec fn elapsed(start: u128, now: u128) -> nat {
    if now >= start {
        (now - start) as nat
    } else {
        0
    }
}

impl State {
    /// While clicks are counted, neither count has reached the number that
    /// ends the counting.
    pub open spec fn wf(self) -> bool {
        match self {
            State::Activated(left, right) => left < 3 && right < 3,
            _ => true,
        }
    }

    /// The counts after a click: a click of one side starts the count of
    /// the other afresh; another button changes nothing.
    pub open spec fn clicks_after(left: u8, right: u8, button: Button) -> (nat, nat) {
        match button {
            Button::Left => (left as nat + 1, 0),
            Button::Right => (0, right as nat + 1),
            Button::Other => (left as nat, right as nat),
        }
    }

    /// The state after `event`, seen at the time `now`.
    pub open spec fn next(self, event: InputEvent, now: u128) -> State {
        match self {
            State::Waiting => match event {
                InputEvent::KeyPress(key) if is_trigger_key(key) => State::CtrlAltBPressed(now),
                _ => State::Waiting,
            },
            State::CtrlAltBPressed(start) => if elapsed(start, now) >= 5_000_000_000 {
                State::Activated(0, 0)
            } else {
                match event {
                    InputEvent::KeyRelease(key) if !is_trigger_key(key) => State::Waiting,
                    _ => self,
                }
            },
            State::Activated(left, right) => match event {
                InputEvent::ButtonPress(button) => {
                    let clicks = Self::clicks_after(left, right, button);
                    if clicks.0 >= 3 {
                        State::Sleeping
                    } else if clicks.1 >= 3 {
                        State::Waiting
                    } else {
                        State::Activated(clicks.0 as u8, clicks.1 as u8)
                    }
                },
                _ => self,
            },
            State::Sleeping => State::Sleeping,
        }
    }

    /// What the driver does after `event`, seen at the time `now`.
    pub open spec fn reaction(self, event: InputEvent, now: u128) -> Reaction {
        match self {
            State::Waiting => Reaction::Nothing,
            State::CtrlAltBPressed(start) => if elapsed(start, now) >= 5_000_000_000 {
                Reaction::AnnounceFirstStep
            } else {
                Reaction::Nothing
            },
            State::Activated(left, right) => match event {
                InputEvent::ButtonPress(button) => {
                    let clicks = Self::clicks_after(left, right, button);
                    if clicks.0 >= 3 {
                        Reaction::StartBackup
                    } else if clicks.1 >= 3 {
                        Reaction::CancelBackup
                    } else {
                        Reaction::Nothing
                    }
                },
                _ => Reaction::Nothing,
            },
            State::Sleeping => Reaction::Rest,
        }
    }
}

/// Whether `key` is one of the three keys of the combination.
fn trigger_key(key: Key) -> (is: bool)
    ensures
        is == is_trigger_key(key),
{
    match key {
        Key::ControlLeft | Key::Alt | Key::KeyB => true,
        Key::Other => false,
    }
}

/// Takes one event of the input devices, seen at the time `now` in
/// nanoseconds, and says where the recognizer stands then and what is to be
/// done. Holding one of the keys of the combination for five seconds opens
/// the counting of clicks; three left clicks in a row confirm the backup,
/// three right clicks in a row cancel it and the recognizer starts over.
pub fn start_button_and_clicks_pattern_recognizer(state: State, event: InputEvent, now: u128)
    -> (step: (State, Reaction))
    requires
        state.wf(),
    ensures
        step.0 == state.next(event, now),
        step.1 == state.reaction(event, now),
        step.0.wf(),
{
    match state {
        State::Waiting => match event {
            InputEvent::KeyPress(key) => {
                if trigger_key(key) {
                    (State::CtrlAltBPressed(now), Reaction::Nothing)
                } else {
                    (State::Waiting, Reaction::Nothing)
                }
            },
            _ => (State::Waiting, Reaction::Nothing),
        },
        State::CtrlAltBPressed(start) => {
            if now >= start && now - start >= HOLD_NANOS {
                (State::Activated(0, 0), Reaction::AnnounceFirstStep)
            } else {
                match event {
                    InputEvent::KeyRelease(key) => {
                        if trigger_key(key) {
                            (state, Reaction::Nothing)
                        } else {
                            (State::Waiting, Reaction::Nothing)
                        }
                    },
                    _ => (state, Reaction::Nothing),
                }
            }
        },
        State::Activated(left, right) => match event {
            InputEvent::ButtonPress(button) => {
                let (left, right) = match button {
                    Button::Left => (left + 1, 0),
                    Button::Right => (0, right + 1),
                    Button::Other => (left, right),
                };
                if left >= CLICKS_NEEDED {
                    (State::Sleeping, Reaction::StartBackup)
                } else if right >= CLICKS_NEEDED {
                    (State::Waiting, Reaction::CancelBackup)
                } else {
                    (State::Activated(left, right), Reaction::Nothing)
                }
            },
            _ => (state, Reaction::Nothing),
        },
        State::Sleeping => (State::Sleeping, Reaction::Rest),
    }
}

} // verus!
