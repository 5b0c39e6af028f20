//! The keys that the engine hands to the logic of a tick.

use vstd::prelude::*;

verus! {

/// A key of the keyboard, as far as the engine tells keys apart.
#[derive(Debug, Clone, Copy, PartialEq, Eq, Structural)]
pub enum Key {
    Esc,
    Enter,
    Left,
    Right,
    Up,
    Down,
    Char(char),
    Other,
}

/// What the input source can produce: a key, or anything else (a resize, the mouse).
#[derive(Debug, Clone, Copy, PartialEq, Eq, Structural)]
pub enum InputEvent {
    Key(Key),
    Other,
}

/// Collects the keys of a tick.
pub struct Keyboard {}

/// The keys among `events`, in the order of the events.
pub open spec fn keys_of(events: Seq<InputEvent>) -> Seq<Key>
    decreases events.len(),
{
    if events.len() == 0 {
        Seq::empty()
    } else {
        match events.last() {
            InputEvent::Key(key) => keys_of(events.drop_last()).push(key),
            InputEvent::Other => keys_of(events.drop_last()),
        }
    }
}

impl Keyboard {
    /// The batch of keys for one tick: the keys among the events that were pending, in
    /// the order in which they came. Events that are no keys are dropped.
    pub fn poll_keys(events: Vec<InputEvent>) -> (keys: Vec<Key>)
        ensures
            keys@ == keys_of(events@),
    {
        let mut keys: Vec<Key> = Vec::new();
        let mut i: usize = 0;
        while i < events.len()
            invariant
                i <= events@.len(),
                keys@ == keys_of(events@.take(i as int)),
            decreases events.len() - i,
        {
            proof {
                assert(events@.take(i as int + 1).drop_last() =~= events@.take(i as int));
            }
            match events[i] {
                InputEvent::Key(key) => {
                    keys.push(key);
                },
                InputEvent::Other => {},
            }
            i += 1;
        }
        assert(events@.take(events@.len() as int) =~= events@);
        keys
    }
}

} // verus!
