use vintage_story_mod_loader::mod_submission::manual_submission_response;

#[test]
fn submissions_are_pointed_to_the_website() {
    let response = manual_submission_response();
    assert!(response.success);
    assert_eq!(
        response.message,
        "Mod pack submission not yet fully implemented. Please submit manually via the website."
    );
    assert_eq!(response.mod_id, None);
}
