use barepass::paths::{native_data_directory, needs_migration, DataDirectory, Platform};
use barepass::terminal::TerminalCleanupGuard;

#[test]
fn terminal_is_restored_once() {
    let mut guard = TerminalCleanupGuard::new();
    let plan = guard.take_restore_plan().unwrap();
    assert!(!plan.pop_keyboard_enhancement);
    assert!(guard.take_restore_plan().is_none());

    let mut guard = TerminalCleanupGuard::new();
    guard.keyboard_enhancement_pushed();
    assert!(guard.take_restore_plan().unwrap().pop_keyboard_enhancement);
    assert!(guard.take_restore_plan().is_none());
}

#[test]
fn data_directory_per_platform() {
    assert_eq!(native_data_directory(Platform::Windows, true, false, false), Ok(DataDirectory::LocalAppData));
    assert_eq!(
        native_data_directory(Platform::Windows, false, true, true),
        Err("LOCALAPPDATA is not available for OS-native vault storage".to_string())
    );
    assert_eq!(
        native_data_directory(Platform::MacOs, false, true, true),
        Ok(DataDirectory::HomeApplicationSupport)
    );
    assert_eq!(native_data_directory(Platform::Unix, false, true, true), Ok(DataDirectory::XdgDataHome));
    assert_eq!(native_data_directory(Platform::Unix, false, true, false), Ok(DataDirectory::HomeLocalShare));
    assert_eq!(
        native_data_directory(Platform::Unix, true, false, false),
        Err("HOME is not available for OS-native vault storage".to_string())
    );
    assert_eq!(
        native_data_directory(Platform::Other, true, true, true),
        Err("OS-native vault storage is not implemented for this platform".to_string())
    );
}

#[test]
fn migration_only_without_a_native_vault() {
    assert!(needs_migration(false, true));
    assert!(!needs_migration(true, true));
    assert!(!needs_migration(false, false));
}
