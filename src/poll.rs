//! Input checks and response records of a stake-weighted poll.
use vstd::prelude::*;

verus! {

/// Shortest accepted poll description, in bytes.
pub const MIN_DESC_LENGTH: u64 = 3;

/// Longest accepted poll description, in bytes.
pub const MAX_DESC_LENGTH: u64 = 64;

/// Why a poll request was refused.
#[derive(Clone, Copy, Debug, PartialEq, Eq, Structural)]
pub enum PollError {
    DescriptionTooShort { min_desc_length: u64 },
    DescriptionTooLong { max_desc_length: u64 },
    PollQuorumPercentageMismatch { quorum_percentage: u8 },
}

/// Where a poll stands in its life.
#[derive(Clone, Copy, Debug, PartialEq, Eq, Structural)]
pub enum PollStatus {
    InProgress,
    Passed,
    Rejected,
}

/// One poll as a query returns it.
#[derive(Debug)]
pub struct PollResponse {
    pub creator: String,
    pub status: PollStatus,
    pub quorum_percentage: Option<u8>,
    pub end_height: Option<u64>,
    pub start_height: Option<u64>,
    pub description: String,
}

/// The id that a newly created poll received.
#[derive(Clone, Copy, Debug, PartialEq, Eq, Structural)]
pub struct CreatePollResponse {
    pub poll_id: u64,
}

/// How many polls exist.
#[derive(Clone, Copy, Debug, PartialEq, Eq, Structural)]
pub struct PollCountResponse {
    pub poll_count: u64,
}

/// The outcome of checking a description of `len` bytes.
pub open spec fn description_check(len: nat) -> Result<(), PollError> {
    if len < MIN_DESC_LENGTH {
        Err(PollError::DescriptionTooShort { min_desc_length: MIN_DESC_LENGTH })
    } else if len > MAX_DESC_LENGTH {
        Err(PollError::DescriptionTooLong { max_desc_length: MAX_DESC_LENGTH })
    } else {
        Ok(())
    }
}

/// Accepts a description whose UTF-8 length lies within the two bounds.
pub fn validate_description(description: &str) -> (r: Result<(), PollError>)
    ensures
        r == description_check(description.len() as nat),
{
    let len = description.len() as u64;
    if len < MIN_DESC_LENGTH {
        Err(PollError::DescriptionTooShort { min_desc_length: MIN_DESC_LENGTH })
    } else if len > MAX_DESC_LENGTH {
        Err(PollError::DescriptionTooLong { max_desc_length: MAX_DESC_LENGTH })
    } else {
        Ok(())
    }
}

/// Accepts a missing quorum and any quorum from 0 to 100 percent.
pub fn validate_quorum_percentage(quorum_percentage: Option<u8>) -> (r: Result<(), PollError>)
    ensures
        r == match quorum_percentage {
            Some(qp) => if qp > 100 {
                Err(PollError::PollQuorumPercentageMismatch { quorum_percentage: qp })
            } else {
                Ok(())
            },
            None => Ok(()),
        },
{
    match quorum_percentage {
        Some(qp) => {
            if qp > 100 {
                return Err(PollError::PollQuorumPercentageMismatch { quorum_percentage: qp });
            }
            Ok(())
        },
        None => Ok(()),
    }
}

} // verus!
