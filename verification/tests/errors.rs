use crr_server::auth::error::{AuthError, Denial, STATUS_INTERNAL_ERROR, STATUS_UNAUTHORIZED};

#[test]
fn unauthorized_is_reported_as_401() {
    assert_eq!(AuthError::Unauthorized(Denial::TokenNotFound).status(), 401);
    assert_eq!(AuthError::Unauthorized(Denial::OtpNotFound).status(), 401);
    assert_eq!(STATUS_UNAUTHORIZED, 401);
}

#[test]
fn storage_failure_is_reported_as_500() {
    assert_eq!(AuthError::StorageFailure.status(), 500);
    assert_eq!(STATUS_INTERNAL_ERROR, 500);
}

#[test]
fn failures_describe_themselves() {
    assert_eq!(AuthError::Unauthorized(Denial::TokenNotFound).message(), "Token Not Found");
    assert_eq!(AuthError::Unauthorized(Denial::OtpNotFound).message(), "OTP Not Found");
    assert_eq!(AuthError::StorageFailure.message(), "Storage Failure");
}
