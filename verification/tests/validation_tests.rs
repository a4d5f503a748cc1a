use stilch::validation::ValidationError;
use stilch::window::WindowId;
use stilch::workspace::WorkspaceId;

#[test]
fn test_validation_error_display() {
    let error: ValidationError = ValidationError::WindowReferencesInvalidWorkspace {
        window: WindowId::new(1),
        workspace: WorkspaceId::new(5),
    };

    // Just ensure it can be formatted
    let _ = format!("{:?}", error);
}
