//! Trusted boundary to `crossbeam_channel`.
//!
//! The node talks to its peers and to the supervising controller over
//! channel endpoints.  Whether a message is accepted depends on the far end
//! of the channel, which lives in another task, so nothing more than the
//! attempt itself can be promised here.

use vstd::prelude::*;

verus! {

/// `crossbeam_channel::Sender` carries values to another task; it is opaque
/// to verification.
#[verifier::external_type_specification]
#[verifier::external_body]
#[verifier::reject_recursive_types(T)]
pub struct ExSender<T>(crossbeam_channel::Sender<T>);

/// `crossbeam_channel::Receiver` yields values sent by another task; it is
/// opaque to verification.
#[verifier::external_type_specification]
#[verifier::external_body]
#[verifier::reject_recursive_types(T)]
pub struct ExReceiver<T>(crossbeam_channel::Receiver<T>);

/// Relies on `crossbeam_channel::Sender::send`: the message enters the
/// channel and `Ok(())` comes back, unless every receiver is gone, in which
/// case the message is returned inside the error.  Whether the far end is
/// still alive is outside state, so no outcome is promised.
#[verifier::external_body]
pub(crate) fn channel_send<T>(ch: &crossbeam_channel::Sender<T>, msg: T) -> bool {
    ch.send(msg).is_ok()
}

} // verus!
