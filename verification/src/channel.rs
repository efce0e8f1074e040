//! Declarations and wrappers for the standard-library channel and lock types
//! the coordination layer holds: a receive endpoint for each engine's event
//! stream and the shared "currently visiting" cell the scan worker updates.

use vstd::prelude::*;

verus! {

#[verifier::external_type_specification]
#[verifier::external_body]
#[verifier::reject_recursive_types(T)]
pub struct ExReceiver<T>(std::sync::mpsc::Receiver<T>);

#[verifier::external_type_specification]
#[verifier::external_body]
#[verifier::reject_recursive_types(T)]
pub struct ExMutex<T: ?Sized>(std::sync::Mutex<T>);

/// Relies on `std::sync::mpsc::Receiver::try_iter`: yields the messages
/// already queued on the channel, in the order they were sent, without
/// blocking; which messages are pending depends on the sending thread, so
/// nothing is promised of the content.
#[verifier::external_body]
pub fn drain_channel<T>(rx: &std::sync::mpsc::Receiver<T>) -> (r: Vec<T>) {
    rx.try_iter().collect()
}

/// Relies on `std::sync::Mutex::lock`: yields the current contents of the
/// cell, or nothing when the lock is poisoned; the contents are written by
/// another thread, so nothing is promised of the value.
#[verifier::external_body]
pub fn read_shared_string(cell: &std::sync::Arc<std::sync::Mutex<String>>) -> (r: Option<String>) {
    cell.lock().ok().map(|g| g.clone())
}

} // verus!
