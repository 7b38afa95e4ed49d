//! The session controller: the three operations that a host performs on a
//! session.
//!
//! The device slot and the callback slot are separate values, so that a host
//! can guard each with a lock of its own: registering a callback then never
//! waits for a read. What holds of every sequence of these operations is
//! stated in `trace`, where each of them is a `Step` of the same name.

use crate::callback::CallbackSlot;
use crate::device::DeviceSlot;
use crate::error::SessionError;
use crate::link::{LinkFailure, LinkRequest};
use vstd::prelude::*;

verus! {

/// Makes `callback` the consumer of every line that is delivered from now
/// on, in place of the one before it.
pub fn register_callback<C: Copy>(callbacks: &mut CallbackSlot<C>, callback: C)
    ensures
        final(callbacks)@ == Some(callback),
{
    callbacks.register(callback);
}

/// Completes the opening of a session. `link` is what the transport reported
/// for `request`: the handle of the port, opened and activated, or the step
/// that failed. On success the connection takes the place of the one
/// installed before, and the result tells whether the reader has to be
/// started now, which is so on the first success only. On failure nothing
/// changes.
pub fn open<P>(
    device: &mut DeviceSlot<P>,
    request: LinkRequest,
    link: Result<P, LinkFailure>,
) -> (start: Result<bool, SessionError>)
    ensures
        link matches Ok(handle) ==> (final(device)@ == old(device)@.installed(handle, request@)
            && start == Ok::<bool, SessionError>(old(device)@.starts_reader())),
        link matches Err(failure) ==> (final(device)@ == old(device)@ && start == Err::<
            bool,
            SessionError,
        >(failure.spec_error())),
{
    match link {
        Ok(handle) => Ok(device.install(handle, request.into_port())),
        Err(failure) => Err(failure.error()),
    }
}

/// Ends the session: drops the connection and removes the callback, where
/// there is one. The reader is not stopped; it goes idle.
pub fn close<P, C: Copy>(device: &mut DeviceSlot<P>, callbacks: &mut CallbackSlot<C>)
    ensures
        final(device)@ == old(device)@.closed(),
        final(callbacks)@ is None,
{
    device.clear();
    callbacks.clear();
}

} // verus!
