use wallet_backend::error::AppError;

#[test]
fn status_codes_and_codes() {
    let cases: Vec<(AppError, u16, &str)> = vec![
        (AppError::WalletNotFound("G1".to_string()), 404, "WALLET_NOT_FOUND"),
        (AppError::InvalidPublicKey("x".to_string()), 400, "INVALID_PUBLIC_KEY"),
        (
            AppError::InsufficientBalance { required: "5".to_string(), available: "1".to_string() },
            400,
            "INSUFFICIENT_BALANCE",
        ),
        (AppError::ReputationTooLow { current: 40, required: 50 }, 403, "REPUTATION_TOO_LOW"),
        (AppError::BadRequest("b".to_string()), 400, "BAD_REQUEST"),
        (AppError::AccountAbstractionError("a".to_string()), 400, "AA_ERROR"),
        (AppError::StellarNetworkError("s".to_string()), 502, "STELLAR_ERROR"),
        (AppError::DatabaseError("d".to_string()), 500, "DATABASE_ERROR"),
        (AppError::ExternalApiError("e".to_string()), 502, "EXTERNAL_API_ERROR"),
        (AppError::ConfigError("c".to_string()), 500, "CONFIG_ERROR"),
        (AppError::InternalError("i".to_string()), 500, "INTERNAL_ERROR"),
        (AppError::NotImplemented("n".to_string()), 501, "NOT_IMPLEMENTED"),
    ];
    for (e, status, code) in cases {
        assert_eq!(e.status_code(), status);
        assert_eq!(e.error_code(), code);
    }
}

#[test]
fn messages_and_client_messages() {
    let e = AppError::WalletNotFound("GABC".to_string());
    assert_eq!(e.message(), "Wallet not found: GABC");
    assert_eq!(e.client_message(), "Wallet not found: GABC");
    let e = AppError::ReputationTooLow { current: 52, required: 60 };
    assert_eq!(e.message(), "Reputation score too low: current 52, required 60");
    let e = AppError::InsufficientBalance { required: "5".to_string(), available: "1".to_string() };
    assert_eq!(e.message(), "Insufficient balance: required 5, available 1");
    let e = AppError::DatabaseError("constraint failed".to_string());
    assert_eq!(e.message(), "Database error: constraint failed");
    assert_eq!(e.client_message(), "Database operation failed");
    let e = AppError::ConfigError("bad".to_string());
    assert_eq!(e.client_message(), "Configuration error");
    let e = AppError::InternalError("secret detail".to_string());
    assert_eq!(e.message(), "Internal server error");
    assert_eq!(e.client_message(), "Internal server error");
    let e = AppError::NotImplemented("convert".to_string());
    assert_eq!(e.client_message(), "Not implemented: convert");
}
