//! The ways in which decoding an account can fail.

use vstd::prelude::*;

verus! {

/// Why an account buffer was refused. Every refusal ends the decode that
/// raised it.
#[derive(Clone, Copy, Debug, PartialEq, Eq, Structural, Hash)]
pub enum Error {
    /// The buffer is shorter than the head and tail padding together.
    TooSmall,
    /// The first bytes are not the head padding.
    HeadMismatch,
    /// The last bytes are not the tail padding.
    TailMismatch,
    /// The bytes between the paddings are not a whole number of words.
    MisalignedLength,
    /// The words do not have the size of the record they should hold.
    LayoutSizeMismatch,
    /// The account flags are not those of the record that was read.
    FlagMismatch,
    /// The market record names another account than the one asked for.
    SelfReferenceMismatch,
    /// The stored nonce derives no vault signer.
    SignerDerivationFailed,
    /// A live event carries a tag that names neither a fill nor an out.
    UnknownEventTag,
}

/// The part of a decode in which an error arises.
#[derive(Clone, Copy, Debug, PartialEq, Eq, Structural, Hash)]
pub enum Stage {
    /// Checking and removing the padding.
    Padding,
    /// Choosing the record's shape and reading it.
    Layout,
    /// Checking the record's own address and deriving the vault signer.
    Identity,
    /// Reading the ring of events.
    Events,
}

impl Error {
    /// The stage that raises this error.
    pub open spec fn spec_stage(&self) -> Stage {
        match self {
            Error::TooSmall | Error::HeadMismatch | Error::TailMismatch | Error::MisalignedLength => {
                Stage::Padding
            },
            Error::LayoutSizeMismatch | Error::FlagMismatch => Stage::Layout,
            Error::SelfReferenceMismatch | Error::SignerDerivationFailed => Stage::Identity,
            Error::UnknownEventTag => Stage::Events,
        }
    }

    /// The stage that raises this error.
    #[verifier::when_used_as_spec(spec_stage)]
    pub fn stage(&self) -> (s: Stage)
        ensures
            s == self.spec_stage(),
    {
        match self {
            Error::TooSmall | Error::HeadMismatch | Error::TailMismatch | Error::MisalignedLength => {
                Stage::Padding
            },
            Error::LayoutSizeMismatch | Error::FlagMismatch => Stage::Layout,
            Error::SelfReferenceMismatch | Error::SignerDerivationFailed => Stage::Identity,
            Error::UnknownEventTag => Stage::Events,
        }
    }
}

} // verus!
