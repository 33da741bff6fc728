use vstd::prelude::*;

verus! {

/// Relies on `std::time::SystemTime::now` and
/// `SystemTime::duration_since(UNIX_EPOCH)`: the number of whole seconds
/// elapsed since the Unix epoch, or `None` when the system clock reads a
/// time earlier than the epoch. Nothing can be promised about the value:
/// two calls may return anything, in any order.
#[verifier::external_body]
pub(crate) fn now_unix_secs() -> (r: Option<u64>) {
    match std::time::SystemTime::now().duration_since(std::time::UNIX_EPOCH) {
        Ok(d) => Some(d.as_secs()),
        Err(_) => None,
    }
}

} // verus!
