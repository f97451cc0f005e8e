use upstream::error::{BranchError, CommandError, ProgramError, Report};

#[test]
fn program_error_shows_its_message_alone() {
    let error = ProgramError::new("Failed to push git tag");
    assert_eq!(error.to_string(), "Failed to push git tag");
    assert!(error.source().is_none());
    match CommandError::Program(error).report() {
        Report::Message(message) => assert_eq!(message, "Failed to push git tag"),
        report => panic!("{:?}", report),
    }
}

#[test]
fn other_errors_show_their_causes() {
    let error = CommandError::Branch(BranchError::Empty);
    match error.report() {
        Report::Causes(causes) => {
            assert_eq!(causes, ["failed to get current branch name", "empty command output"])
        },
        report => panic!("{:?}", report),
    }
}
