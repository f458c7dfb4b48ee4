//! Lets another surface ask the OSD to stay out of its way.
//!
//! The panel's volume and brightness popups already show a slider for the value
//! they are changing. While a popup is driving the value it calls
//! `SuppressFor`, and value OSDs are held back until that window lapses. It is
//! a window rather than an on/off latch on purpose: a client that dies
//! mid-drag, or forgets to release, cannot wedge the OSD off permanently.
use vstd::prelude::*;

verus! {

/// The object path the inhibit interface is served at.
pub const OBJECT_PATH: &'static str = "/com/system76/CosmicOsd";

/// Longest window a client may ask for, so a bad value can't silence the OSD
/// for the rest of the session.
pub const MAX_SUPPRESS_MILLIS: u64 = 5_000;

#[derive(Clone, Copy, Debug, PartialEq, Eq, Structural)]
pub enum Event {
    /// Hold value OSDs back for this many milliseconds from now.
    SuppressFor(u64),
}

/// The window granted for a request of `millis`: the request, capped at
/// `MAX_SUPPRESS_MILLIS`.
pub open spec fn granted_window(millis: u64) -> u64 {
    if millis <= MAX_SUPPRESS_MILLIS {
        millis
    } else {
        MAX_SUPPRESS_MILLIS
    }
}

/// The event a `SuppressFor(millis)` call raises.
pub fn suppress_for(millis: u64) -> (event: Event)
    ensures
        event == Event::SuppressFor(granted_window(millis)),
{
    if millis <= MAX_SUPPRESS_MILLIS {
        Event::SuppressFor(millis)
    } else {
        Event::SuppressFor(MAX_SUPPRESS_MILLIS)
    }
}

/// No request, however large, silences value OSDs for longer than
/// `MAX_SUPPRESS_MILLIS`; a request within the cap is granted as asked, and a
/// longer request gets the whole cap.
pub proof fn law_window_is_capped(millis: u64)
    ensures
        granted_window(millis) <= MAX_SUPPRESS_MILLIS,
        millis <= MAX_SUPPRESS_MILLIS ==> granted_window(millis) == millis,
        millis > MAX_SUPPRESS_MILLIS ==> granted_window(millis) == MAX_SUPPRESS_MILLIS,
{
}

} // verus!
