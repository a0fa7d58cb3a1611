use vstd::prelude::*;

verus! {

/// The unique id generator of the webe_id crate, carried through opaquely.
#[verifier::external_type_specification]
#[verifier::external_body]
pub struct ExWebeIDFactory(webe_id::WebeIDFactory);

/// Why the id generator could not hand out an id.
#[verifier::external_type_specification]
#[verifier::external_body]
pub struct ExWebeIDError(webe_id::WebeIDError);

/// Relies on webe_id's `WebeIDFactory::next`, which reads the clock and its
/// own counter: nothing is known of the id it returns or of whether it fails.
pub assume_specification[ webe_id::WebeIDFactory::next ](
    factory: &mut webe_id::WebeIDFactory,
) -> Result<u64, webe_id::WebeIDError>;

/// A reading of the system clock, carried through opaquely.
#[verifier::external_type_specification]
#[verifier::external_body]
pub struct ExSystemTime(std::time::SystemTime);

/// Why a clock reading lies before the time it was compared with.
#[verifier::external_type_specification]
#[verifier::external_body]
pub struct ExSystemTimeError(std::time::SystemTimeError);

/// Relies on `SystemTime::now`: a reading of the system clock, of which
/// nothing is known.
pub assume_specification[ std::time::SystemTime::now ]() -> std::time::SystemTime;

/// Relies on `Duration::as_secs`: the whole seconds of a span, of which
/// nothing is known here.
pub assume_specification[ core::time::Duration::as_secs ](d: &core::time::Duration) -> u64;

/// Relies on `SystemTime::duration_since` with `UNIX_EPOCH`: the span from
/// the Unix epoch to `t`, or an error where `t` lies before it.
#[verifier::external_body]
pub(crate) fn since_unix_epoch(t: &std::time::SystemTime) -> (r: Result<
    core::time::Duration,
    std::time::SystemTimeError,
>) {
    t.duration_since(std::time::UNIX_EPOCH)
}

} // verus!
