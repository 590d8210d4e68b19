//! Key events, before and after the platform key has been given its
//! logical code.

use vstd::prelude::*;

verus! {

/// A key event whose key has a logical code, or an event that concerns no
/// key.
#[derive(Clone, Copy, Debug, PartialEq, Eq)]
pub enum Event {
    /// The key with this code went down.
    Press(i32),
    /// The key with this code went up.
    Release(i32),
    /// Anything else: pointer motion, buttons, wheel.
    Other,
}

/// An event as the input source delivers it, together with what the key
/// table made of its key: `None` stands for a key that has no logical code.
#[derive(Clone, Copy, Debug, PartialEq, Eq)]
pub enum RawEvent {
    /// A key went down.
    Press(Option<i32>),
    /// A key went up.
    Release(Option<i32>),
    /// Anything else.
    Other,
}

/// A key event whose key has no logical code.
#[derive(Clone, Copy, Debug, PartialEq, Eq)]
pub enum UnmappableKey {
    /// The key went down.
    Press,
    /// The key went up.
    Release,
}

impl RawEvent {
    /// Whether this is a key event whose key has no logical code.
    pub open spec fn unmappable(self) -> bool {
        self == RawEvent::Press(None) || self == RawEvent::Release(None)
    }

    /// The event with its logical code in place, or the reason there is none.
    pub open spec fn resolved(self) -> Result<Event, UnmappableKey> {
        match self {
            RawEvent::Press(Some(code)) => Ok(Event::Press(code)),
            RawEvent::Press(None) => Err(UnmappableKey::Press),
            RawEvent::Release(Some(code)) => Ok(Event::Release(code)),
            RawEvent::Release(None) => Err(UnmappableKey::Release),
            RawEvent::Other => Ok(Event::Other),
        }
    }

    /// Puts the logical code in place. Fails exactly on a key event whose key
    /// has none, and says whether that key went down or up.
    pub fn resolve(self) -> (event: Result<Event, UnmappableKey>)
        ensures
            event == self.resolved(),
            event is Err <==> self.unmappable(),
    {
        match self {
            RawEvent::Press(Some(code)) => Ok(Event::Press(code)),
            RawEvent::Press(None) => Err(UnmappableKey::Press),
            RawEvent::Release(Some(code)) => Ok(Event::Release(code)),
            RawEvent::Release(None) => Err(UnmappableKey::Release),
            RawEvent::Other => Ok(Event::Other),
        }
    }
}

} // verus!
