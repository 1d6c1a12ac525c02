use vstd::prelude::*;

verus! {

/// Failure taxonomy shared by the three registries.
///
/// Every operation either completes fully or returns one of these with zero
/// side effects: all guards run before any state is written.
#[derive(Clone, Copy, Debug, PartialEq, Eq, Structural)]
pub enum Error {
    /// `init` was called when the admin slot was already set.
    AlreadyInitialized,
    /// An admin-gated operation was called before `init`.
    NotInitialized,
    /// The authorization check for the required principal failed.
    Unauthorized,
    /// A non-positive remittance amount was supplied.
    InvalidAmount,
    /// A non-positive exchange-rate price was supplied.
    InvalidPrice,
    /// The referenced remittance id has no record.
    NotFound,
}

} // verus!
