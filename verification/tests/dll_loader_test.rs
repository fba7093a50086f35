use base_framework::dll_loader::{free_fn_name, DllLoader};
use base_framework::error::FrameworkError;
use std::path::PathBuf;

#[test]
fn test_dll_loader_creation() {
    let loader = DllLoader::new();
    assert!(loader.list_loaded().is_empty());
}

#[test]
fn test_search_path() {
    let mut loader = DllLoader::new();
    loader.add_search_path(PathBuf::from("/tmp"));
    // Search path has been added
    assert_eq!(loader.get_search_paths(), vec![PathBuf::from("/tmp")]);
}

#[test]
fn search_paths_keep_their_order() {
    let mut loader = DllLoader::default();
    loader.add_search_path(PathBuf::from("/a"));
    loader.add_search_path(PathBuf::from("/b/c"));
    assert_eq!(loader.get_search_paths(), vec![PathBuf::from("/a"), PathBuf::from("/b/c")]);
}

#[test]
fn unknown_library_is_not_loaded() {
    let mut loader = DllLoader::new();
    assert!(!loader.is_loaded("sysinfo"));
    match loader.get_library("sysinfo") {
        Err(FrameworkError::InterfaceError(m)) => assert_eq!(m, "DLL 'sysinfo' not loaded"),
        _ => panic!("expected an interface error"),
    }
    assert!(loader.unload("sysinfo").is_ok());
    assert!(loader.list_loaded().is_empty());
}

#[test]
fn free_function_names() {
    assert_eq!(free_fn_name("sysinfo_get_summary"), Some("sysinfo_free_string".to_string()));
    assert_eq!(free_fn_name("a_b_c"), Some("a_free_string".to_string()));
    assert_eq!(free_fn_name("_x"), Some("_free_string".to_string()));
    assert_eq!(free_fn_name("summary"), None);
    assert_eq!(free_fn_name(""), None);
}
