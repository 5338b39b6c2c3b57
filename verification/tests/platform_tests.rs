use pwrzv::platform::{check_platform, get_platform_name, is_linux_like, is_supported_platform};
use pwrzv::{Calculator, PwrzvError};

#[test]
fn test_platform_detection() {
    let platform_name = get_platform_name("linux");
    assert!(!platform_name.is_empty());

    assert!(is_supported_platform("linux"));
    assert!(check_platform("linux").is_ok());
    assert!(is_supported_platform("macos"));
    assert!(check_platform("macos").is_ok());

    assert!(!is_supported_platform("windows"));
    assert!(check_platform("windows").is_err());
}

#[test]
fn test_legacy_compatibility() {
    assert!(is_linux_like("linux"));
    assert!(!is_linux_like("macos"));
    assert!(!is_linux_like("windows"));
}

#[test]
fn test_platform_support_detection() {
    assert!(is_supported_platform("linux"));
    assert!(is_supported_platform("macos"));
    assert!(!is_supported_platform("freebsd"));
}

#[test]
fn test_check_platform() {
    // Should succeed on supported platforms
    let result = pwrzv::check_platform("linux");
    assert!(
        result.is_ok(),
        "Platform check should succeed on supported platforms"
    );
}

#[test]
fn test_calculator_creation() {
    // Calculator should be created successfully on supported platforms
    let calculator = Calculator::new("linux");
    assert!(
        calculator.is_ok(),
        "Calculator creation should succeed on supported platforms"
    );
    assert!(Calculator::new("macos").is_ok());
}

#[test]
fn test_platform_names() {
    assert_eq!(get_platform_name("linux"), "Linux");
    assert_eq!(get_platform_name("macos"), "macOS");
    assert_eq!(get_platform_name("windows"), "Windows");
    assert_eq!(get_platform_name("freebsd"), "FreeBSD");
    assert_eq!(get_platform_name("plan9"), "Unknown");
}

#[test]
fn test_unsupported_platform_error_payload() {
    match pwrzv::check_platform("windows") {
        Err(PwrzvError::UnsupportedPlatform { platform }) => {
            assert_eq!(platform, "windows");
        }
        other => panic!("expected an unsupported-platform error, got {other:?}"),
    }
}

#[test]
fn test_precision_levels() {
    // Test that we can differentiate between various precision levels
    let level_1 = 4.23f32;
    let level_2 = 4.24f32;
    assert_ne!(
        level_1, level_2,
        "Should be able to distinguish precision levels"
    );

    // Test that values stay within expected range
    assert!((1.0..=5.0).contains(&level_1));
    assert!((1.0..=5.0).contains(&level_2));
}
