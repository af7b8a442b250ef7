use vstd::prelude::*;

verus! {

/// Why an instruction was rejected. Every failure is reported synchronously
/// to the caller; nothing is retried and nothing fails silently.
#[derive(Clone, Copy, Debug, PartialEq, Eq, Structural)]
pub enum ErrorCode {
    /// A vote or a closure was attempted on a proposal whose lifecycle flag
    /// is already off. The flag is terminal: once a proposal is closed it
    /// never reopens.
    ProposalNotActive,
    /// The description handed to proposal creation exceeds the fixed byte
    /// budget reserved for it in persistent storage.
    DescriptionTooLong,
    /// The reward vault does not hold a full reward, so the vote was refused
    /// whole: no tally moved and no tokens moved.
    InsufficientVaultBalance,
    /// The voter already holds a ballot on this proposal; each identity may
    /// vote at most once per proposal.
    AlreadyVoted,
}

} // verus!
