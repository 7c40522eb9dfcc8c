use pencil_api::error::AppError;

#[test]
fn test_error_response_format() {
    let error = AppError::User("测试用户错误".to_string());
    let response = error.to_response();

    assert_eq!(response.error, "用户错误: 测试用户错误");
    assert_eq!(response.code, "USER_ERROR");
}

#[test]
fn test_different_error_types() {
    let errors = vec![
        AppError::User("用户错误".to_string()),
        AppError::Collection("文集错误".to_string()),
        AppError::NotFound("资源不存在".to_string()),
        AppError::AlreadyExists("资源已存在".to_string()),
        AppError::Validation("验证错误".to_string()),
    ];

    for error in errors {
        let response = error.to_response();
        assert!(!response.error.is_empty());
        assert!(!response.code.is_empty());
    }
}

#[test]
fn error_codes_cover_every_variant() {
    let cases = vec![
        (AppError::User("x".to_string()), "USER_ERROR", 400),
        (AppError::Collection("x".to_string()), "COLLECTION_ERROR", 400),
        (AppError::Hitokoto("x".to_string()), "HITOKOTO_ERROR", 400),
        (AppError::Storage("x".to_string()), "STORAGE_ERROR", 500),
        (AppError::Io("x".to_string()), "IO_ERROR", 500),
        (AppError::Json("x".to_string()), "JSON_ERROR", 500),
        (AppError::Validation("x".to_string()), "VALIDATION_ERROR", 400),
        (AppError::NotFound("x".to_string()), "NOT_FOUND", 404),
        (AppError::AlreadyExists("x".to_string()), "ALREADY_EXISTS", 409),
    ];
    for (error, code, status) in cases {
        assert_eq!(error.to_response().code, code);
        assert_eq!(error.status_code(), status);
    }
}

#[test]
fn display_string_prefixes_the_message() {
    let error = AppError::NotFound("缺少".to_string());
    assert_eq!(error.display_string(), "资源不存在: 缺少");
}
