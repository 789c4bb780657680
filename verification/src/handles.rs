//! Opaque values that the library carries without looking inside:
//! channel senders and UUIDs.
use vstd::prelude::*;

verus! {

/// The sending half of a std channel; the library only stores and hands
/// it on.
#[verifier::external_type_specification]
#[verifier::external_body]
#[verifier::reject_recursive_types(T)]
pub struct ExSender<T>(std::sync::mpsc::Sender<T>);

/// The receiving half of a std channel; the library only stores and hands
/// it on.
#[verifier::external_type_specification]
#[verifier::external_body]
#[verifier::reject_recursive_types(T)]
pub struct ExReceiver<T>(std::sync::mpsc::Receiver<T>);

/// A UUID of the `uuid` crate; the library only stores and hands it on.
#[verifier::external_type_specification]
#[verifier::external_body]
pub struct ExUuid(uuid::Uuid);

/// `uuid::Uuid::new_v4`: a fresh random (version 4) UUID.  Nothing is
/// stated of the value, which comes from the system's random source.
#[verifier::external_body]
pub(crate) fn new_uuid_v4() -> uuid::Uuid {
    uuid::Uuid::new_v4()
}

} // verus!
