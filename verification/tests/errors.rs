use user_sessions::error::AuthError;

const ALL: [AuthError; 8] = [
    AuthError::InvalidCredentials,
    AuthError::Unauthorized,
    AuthError::Forbidden,
    AuthError::SessionInvalid,
    AuthError::NotFound,
    AuthError::Malformed,
    AuthError::Conflict,
    AuthError::Internal,
];

#[test]
fn each_error_has_its_status() {
    assert_eq!(AuthError::InvalidCredentials.status_code(), 401);
    assert_eq!(AuthError::Unauthorized.status_code(), 401);
    assert_eq!(AuthError::Forbidden.status_code(), 403);
    assert_eq!(AuthError::SessionInvalid.status_code(), 401);
    assert_eq!(AuthError::NotFound.status_code(), 404);
    assert_eq!(AuthError::Malformed.status_code(), 400);
    assert_eq!(AuthError::Conflict.status_code(), 409);
    assert_eq!(AuthError::Internal.status_code(), 500);
}

#[test]
fn each_error_has_its_code() {
    assert_eq!(AuthError::InvalidCredentials.code(), "invalid_credentials");
    assert_eq!(AuthError::Unauthorized.code(), "unauthorized");
    assert_eq!(AuthError::Forbidden.code(), "forbidden");
    assert_eq!(AuthError::SessionInvalid.code(), "session_invalid");
    assert_eq!(AuthError::NotFound.code(), "not_found");
    assert_eq!(AuthError::Malformed.code(), "malformed");
    assert_eq!(AuthError::Conflict.code(), "conflict");
    assert_eq!(AuthError::Internal.code(), "internal");
}

#[test]
fn codes_are_distinct() {
    for (i, a) in ALL.iter().enumerate() {
        for (j, b) in ALL.iter().enumerate() {
            assert_eq!(a.code() == b.code(), i == j);
        }
    }
}

#[test]
fn statuses_are_client_or_server_errors() {
    for error in ALL {
        let status = error.status_code();
        assert!((400..600).contains(&status));
    }
}
