//! The event mask the WM selects on the root window.
use vstd::prelude::*;

verus! {

/// The bit by which X11 turns the maps of clients into MapRequest events.
pub const SUBSTRUCTURE_REDIRECT: u32 = 0x10_0000;

/// The bit by which X11 delivers unmap, destroy and configure notices.
pub const SUBSTRUCTURE_NOTIFY: u32 = 0x8_0000;

/// `x11rb::protocol::xproto::EventMask::SUBSTRUCTURE_REDIRECT` as a number:
/// bit 20 of the core protocol's event masks.
#[verifier::external_body]
fn substructure_redirect() -> (r: u32)
    ensures
        r == SUBSTRUCTURE_REDIRECT,
{
    u32::from(x11rb::protocol::xproto::EventMask::SUBSTRUCTURE_REDIRECT)
}

/// `x11rb::protocol::xproto::EventMask::SUBSTRUCTURE_NOTIFY` as a number:
/// bit 19 of the core protocol's event masks.
#[verifier::external_body]
pub(crate) fn substructure_notify() -> (r: u32)
    ensures
        r == SUBSTRUCTURE_NOTIFY,
{
    u32::from(x11rb::protocol::xproto::EventMask::SUBSTRUCTURE_NOTIFY)
}

/// The event mask the WM selects on the root window: SubstructureRedirect
/// turns client maps into MapRequest events, and SubstructureNotify delivers
/// the unmap/destroy/configure notices the window lifecycle depends on.
pub fn root_event_mask() -> (r: u32)
    ensures
        r == SUBSTRUCTURE_REDIRECT | SUBSTRUCTURE_NOTIFY,
        r == 0x18_0000,
{
    let r: u32 = substructure_redirect() | substructure_notify();
    assert(0x10_0000u32 | 0x8_0000u32 == 0x18_0000u32) by (bit_vector);
    r
}

} // verus!
