use pwrzv::error::{PwrzvError, PwrzvResult};

#[test]
fn test_unsupported_platform_error() {
    let error = PwrzvError::unsupported_platform("windows");
    assert!(matches!(error, PwrzvError::UnsupportedPlatform { .. }));

    let error_str = error.message();
    assert!(error_str.contains("windows"));
    assert!(error_str.contains("Unsupported platform"));
}

#[test]
fn test_parse_error() {
    let error = PwrzvError::parse_error("invalid JSON format");
    assert!(matches!(error, PwrzvError::ParseError { .. }));

    let error_str = error.message();
    assert!(error_str.contains("invalid JSON format"));
    assert!(error_str.contains("Failed to parse"));
}

#[test]
fn test_resource_access_error() {
    let error = PwrzvError::resource_access_error("/proc/meminfo");
    assert!(matches!(error, PwrzvError::ResourceAccessError { .. }));

    let error_str = error.message();
    assert!(error_str.contains("/proc/meminfo"));
    assert!(error_str.contains("Failed to access"));
}

#[test]
fn test_calculation_error() {
    let error = PwrzvError::calculation_error("division by zero");
    assert!(matches!(error, PwrzvError::CalculationError { .. }));

    let error_str = error.message();
    assert!(error_str.contains("division by zero"));
    assert!(error_str.contains("Calculation error"));
}

#[test]
fn test_collection_error() {
    let error = PwrzvError::collection_error("unable to read CPU stats");
    assert!(matches!(error, PwrzvError::ResourceAccessError { .. }));

    let error_str = error.message();
    assert!(error_str.contains("unable to read CPU stats"));
}

#[test]
fn test_invalid_value_error() {
    let error = PwrzvError::invalid_value("negative memory usage");
    assert!(matches!(error, PwrzvError::InvalidValue { .. }));

    let error_str = error.message();
    assert!(error_str.contains("negative memory usage"));
    assert!(error_str.contains("Invalid value"));
}

#[test]
fn test_error_debug_format() {
    let error = PwrzvError::parse_error("test error");
    let debug_str = format!("{error:?}");
    assert!(debug_str.contains("ParseError"));
}

#[test]
fn test_result_type() {
    let success: PwrzvResult<i32> = Ok(42);
    assert!(success.is_ok());
    if let Ok(value) = success {
        assert_eq!(value, 42);
    }

    let failure: PwrzvResult<i32> = Err(PwrzvError::parse_error("test"));
    assert!(failure.is_err());
}

#[test]
fn test_error_construction_consistency() {
    let detail = "test detail message";

    let parse_error = PwrzvError::parse_error(detail);
    let resource_error = PwrzvError::resource_access_error(detail);
    let calc_error = PwrzvError::calculation_error(detail);
    let invalid_error = PwrzvError::invalid_value(detail);

    assert!(parse_error.message().contains(detail));
    assert!(resource_error.message().contains(detail));
    assert!(calc_error.message().contains(detail));
    assert!(invalid_error.message().contains(detail));
}

#[test]
fn test_io_error_message() {
    let error = PwrzvError::io_error("Access denied");
    assert!(matches!(error, PwrzvError::IoError { .. }));

    let error_str = error.message();
    assert!(error_str.contains("I/O error"));
    assert!(error_str.contains("Access denied"));
}
