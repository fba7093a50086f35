use base_framework::{version, VERSION};

#[test]
fn test_version() {
    assert!(!version().is_empty());
}

#[test]
fn version_is_the_package_version() {
    assert_eq!(version(), "0.1.0");
    assert_eq!(VERSION, "0.1.0");
}
