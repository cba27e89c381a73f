use retroquest::error::RetroError;
use retroquest::session_keys::SessionError;
use retroquest::state::BoardStage;

#[test]
fn only_the_five_forward_edges_are_legal() {
    let stages = [
        BoardStage::Setup,
        BoardStage::WriteNotes,
        BoardStage::GroupDuplicates,
        BoardStage::Vote,
        BoardStage::Discuss,
    ];
    for (i, from) in stages.iter().enumerate() {
        for (j, to) in stages.iter().enumerate() {
            assert_eq!(from.can_advance_to(*to), j == i + 1);
        }
    }
}

#[test]
fn retro_error_codes_are_distinct_from_session_codes() {
    assert_eq!(RetroError::UnauthorizedFacilitator.code(), 0);
    assert_eq!(RetroError::InsufficientCredits.code(), 11);
    assert_eq!(RetroError::AccountNotInitialized.code(), 17);
    assert!(RetroError::Session(SessionError::SessionExpired).code() >= 6000);
}
