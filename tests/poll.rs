use quadratic_funding::asset::AssetType;
use quadratic_funding::poll::{
    validate_description, validate_quorum_percentage, CreatePollResponse, PollCountResponse,
    PollError, PollResponse, PollStatus,
};

#[test]
fn description_bounds() {
    assert_eq!(
        validate_description("ab"),
        Err(PollError::DescriptionTooShort { min_desc_length: 3 })
    );
    assert_eq!(validate_description("abc"), Ok(()));
    let longest = "0123456789012345678901234567890123456789012345678901234567890123";
    assert_eq!(validate_description(longest), Ok(()));
    let too_long = "01234567890123456789012345678901234567890123456789012345678901234";
    assert_eq!(
        validate_description(too_long),
        Err(PollError::DescriptionTooLong { max_desc_length: 64 })
    );
}

#[test]
fn description_counts_bytes() {
    // Two characters, four bytes.
    assert_eq!(validate_description("éé"), Ok(()));
}

#[test]
fn quorum_percentage_bounds() {
    assert_eq!(validate_quorum_percentage(None), Ok(()));
    assert_eq!(validate_quorum_percentage(Some(0)), Ok(()));
    assert_eq!(validate_quorum_percentage(Some(100)), Ok(()));
    assert_eq!(
        validate_quorum_percentage(Some(101)),
        Err(PollError::PollQuorumPercentageMismatch { quorum_percentage: 101 })
    );
}

#[test]
fn poll_records() {
    let r = PollResponse {
        creator: "creator".to_string(),
        status: PollStatus::InProgress,
        quorum_percentage: Some(30),
        end_height: Some(10),
        start_height: None,
        description: "test".to_string(),
    };
    assert_eq!(r.status, PollStatus::InProgress);
    assert_eq!(CreatePollResponse { poll_id: 1 }.poll_id, 1);
    assert_eq!(PollCountResponse { poll_count: 2 }.poll_count, 2);
    assert_ne!(AssetType::RealWorldAsset, AssetType::BondOrSecurity);
}
