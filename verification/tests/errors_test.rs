use guesser_backend::errors::AppError;

#[test]
fn each_error_kind_has_status_and_code() {
    let cases = vec![
        (AppError::NotFound("x".to_string()), 404, "not_found", "Not found: x"),
        (AppError::BadRequest("x".to_string()), 400, "bad_request", "Bad request: x"),
        (AppError::AlreadyExists("x".to_string()), 409, "already_exists", "Already exists: x"),
        (AppError::Unauthorized("x".to_string()), 401, "unauthorized", "Unauthorized: x"),
        (AppError::Internal("x".to_string()), 500, "internal_error", "Internal error: x"),
        (AppError::WikimediaFetch("x".to_string()), 502, "wikimedia_fetch_error", "Wikimedia fetch error: x"),
    ];
    for (err, status, code, text) in cases {
        assert_eq!(err.status_code(), status);
        assert_eq!(err.code(), code);
        assert_eq!(err.message(), "x");
        assert_eq!(err.to_display_string(), text);
    }
}

#[test]
fn display_of_room_not_found() {
    assert_eq!(AppError::NotFound("room not found".to_string()).to_display_string(), "Not found: room not found");
}
