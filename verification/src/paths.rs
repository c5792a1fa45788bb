//! Where the vault lives: the OS-native application-data directory.
use vstd::prelude::*;

verus! {

/// The operating system family.
#[derive(Clone, Copy, Debug, PartialEq, Eq, Structural)]
pub enum Platform {
    Windows,
    MacOs,
    /// Unix other than macOS.
    Unix,
    Other,
}

/// The base directory for application data.
#[derive(Clone, Copy, Debug, PartialEq, Eq, Structural)]
pub enum DataDirectory {
    /// The directory `LOCALAPPDATA` names.
    LocalAppData,
    /// `Library/Application Support` under `HOME`.
    HomeApplicationSupport,
    /// The directory `XDG_DATA_HOME` names.
    XdgDataHome,
    /// `.local/share` under `HOME`.
    HomeLocalShare,
}

/// The application-data directory of a platform, given which environment
/// variables are set to a non-empty value (and whether `XDG_DATA_HOME` is an
/// absolute path): on Windows `LOCALAPPDATA`; on macOS
/// `HOME/Library/Application Support`; on other Unix systems an absolute
/// `XDG_DATA_HOME`, else `HOME/.local/share`.
pub fn native_data_directory(
    platform: Platform,
    local_app_data_set: bool,
    home_set: bool,
    xdg_data_home_absolute: bool,
) -> (dir: Result<DataDirectory, String>)
    ensures
        match platform {
            Platform::Windows => if local_app_data_set {
                dir == Ok::<DataDirectory, String>(DataDirectory::LocalAppData)
            } else {
                dir matches Err(e) && e@ == "LOCALAPPDATA is not available for OS-native vault storage"@
            },
            Platform::MacOs => if home_set {
                dir == Ok::<DataDirectory, String>(DataDirectory::HomeApplicationSupport)
            } else {
                dir matches Err(e) && e@ == "HOME is not available for OS-native vault storage"@
            },
            Platform::Unix => if xdg_data_home_absolute {
                dir == Ok::<DataDirectory, String>(DataDirectory::XdgDataHome)
            } else if home_set {
                dir == Ok::<DataDirectory, String>(DataDirectory::HomeLocalShare)
            } else {
                dir matches Err(e) && e@ == "HOME is not available for OS-native vault storage"@
            },
            Platform::Other => dir matches Err(e) && e@
                == "OS-native vault storage is not implemented for this platform"@,
        },
{
    match platform {
        Platform::Windows => {
            if local_app_data_set {
                Ok(DataDirectory::LocalAppData)
            } else {
                Err(String::from_str("LOCALAPPDATA is not available for OS-native vault storage"))
            }
        },
        Platform::MacOs => {
            if home_set {
                Ok(DataDirectory::HomeApplicationSupport)
            } else {
                Err(String::from_str("HOME is not available for OS-native vault storage"))
            }
        },
        Platform::Unix => {
            if xdg_data_home_absolute {
                Ok(DataDirectory::XdgDataHome)
            } else if home_set {
                Ok(DataDirectory::HomeLocalShare)
            } else {
                Err(String::from_str("HOME is not available for OS-native vault storage"))
            }
        },
        Platform::Other => Err(String::from_str("OS-native vault storage is not implemented for this platform")),
    }
}

/// Whether the vault must first be moved from the working directory: only
/// when no vault or backup exists at the native location and one exists in
/// the working directory.
pub fn needs_migration(native_vault_or_backup_exists: bool, legacy_vault_exists: bool) -> (b: bool)
    ensures
        b == (!native_vault_or_backup_exists && legacy_vault_exists),
{
    !native_vault_or_backup_exists && legacy_vault_exists
}

} // verus!
