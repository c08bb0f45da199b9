//! The configuration and persisted state the operations read, with their
//! defaults and the configuration file's path.

use vstd::prelude::*;
use vstd::string::*;

use crate::text::str_eq;

verus! {

broadcast use vstd::string::group_string_axioms;

/// The backend selector a configuration may name. Only the zypper and dnf
/// backends are implemented; the others are rejected by the factory.
#[derive(Clone, Copy, PartialEq, Eq, Structural, Debug)]
pub enum PackageManagerType {
    Zypper,
    Dnf,
    Apt,
    Pacman,
}

impl PackageManagerType {
    /// The selector's name as it is written in the configuration file.
    pub fn config_name(&self) -> (r: &'static str)
        ensures
            *self is Zypper ==> r@ == "zypper"@,
            *self is Dnf ==> r@ == "dnf"@,
            *self is Apt ==> r@ == "apt"@,
            *self is Pacman ==> r@ == "pacman"@,
    {
        match self {
            PackageManagerType::Zypper => "zypper",
            PackageManagerType::Dnf => "dnf",
            PackageManagerType::Apt => "apt",
            PackageManagerType::Pacman => "pacman",
        }
    }

    /// The selector a configuration value names, if any.
    pub fn from_config_name(s: &str) -> (r: Option<PackageManagerType>)
        ensures
            r == Option::Some(PackageManagerType::Zypper) <==> s@ == "zypper"@,
            r == Option::Some(PackageManagerType::Dnf) <==> s@ == "dnf"@,
            r == Option::Some(PackageManagerType::Apt) <==> s@ == "apt"@,
            r == Option::Some(PackageManagerType::Pacman) <==> s@ == "pacman"@,
            r is None ==> s@ != "zypper"@ && s@ != "dnf"@ && s@ != "apt"@ && s@ != "pacman"@,
    {
        proof {
            reveal_strlit("zypper");
            reveal_strlit("dnf");
            reveal_strlit("apt");
            reveal_strlit("pacman");
            assert("zypper"@.len() == 6);
            assert("dnf"@.len() == 3);
            assert("apt"@.len() == 3);
            assert("pacman"@.len() == 6);
            assert("zypper"@[0] == 'z' && "pacman"@[0] == 'p');
            assert("dnf"@[0] == 'd' && "apt"@[0] == 'a');
            assert("zypper"@ != "dnf"@ && "zypper"@ != "apt"@ && "zypper"@ != "pacman"@);
            assert("dnf"@ != "apt"@ && "dnf"@ != "pacman"@ && "apt"@ != "pacman"@);
        }
        if str_eq(s, "zypper") {
            Option::Some(PackageManagerType::Zypper)
        } else if str_eq(s, "dnf") {
            Option::Some(PackageManagerType::Dnf)
        } else if str_eq(s, "apt") {
            Option::Some(PackageManagerType::Apt)
        } else if str_eq(s, "pacman") {
            Option::Some(PackageManagerType::Pacman)
        } else {
            Option::None
        }
    }
}

/// What the package operations need from the configuration: the backend
/// selector, the three command strings, and the directory the backend
/// downloads package archives into.
pub struct PackageConfig {
    pub package_manager: Option<PackageManagerType>,
    pub download_command: String,
    pub update_command: String,
    pub noconfirm_update_command: String,
    pub cached_package_path: Option<String>,
}

/// How the background service behaves; carried through unchanged, the
/// package operations never read it.
pub struct ServiceConfig {
    pub enable_service: bool,
    pub update_check_frequency: u32,
    pub download_in_background: bool,
    pub update_on_reboot: bool,
}

/// The whole persisted configuration.
pub struct Config {
    pub service: ServiceConfig,
    pub package: PackageConfig,
}

/// Whether a configuration holds exactly the out-of-the-box values.
pub open spec fn is_default_config(c: Config) -> bool {
    &&& c.service.enable_service == true
    &&& c.service.update_check_frequency == 30
    &&& c.service.download_in_background == true
    &&& c.service.update_on_reboot == true
    &&& c.package.package_manager is None
    &&& c.package.download_command@.len() == 0
    &&& c.package.update_command@.len() == 0
    &&& c.package.noconfirm_update_command@.len() == 0
    &&& c.package.cached_package_path is None
}

impl Default for Config {
    /// The out-of-the-box configuration: the service enabled with a
    /// thirty-minute check frequency, and no backend configured yet.
    fn default() -> (r: Config)
        ensures
            is_default_config(r),
    {
        Config {
            service: ServiceConfig {
                enable_service: true,
                update_check_frequency: 30,
                download_in_background: true,
                update_on_reboot: true,
            },
            package: PackageConfig {
                package_manager: Option::None,
                download_command: String::new(),
                update_command: String::new(),
                noconfirm_update_command: String::new(),
                cached_package_path: Option::None,
            },
        }
    }
}

impl Config {
    /// A fresh configuration with the default values.
    pub fn new() -> (r: Config)
        ensures
            is_default_config(r),
    {
        Config::default()
    }
}

/// The persisted state: the timestamp of the last update the user has
/// already seen, as unix seconds.
pub struct Data {
    pub update_timestamp: u64,
}

impl Default for Data {
    /// Before any update was seen, the timestamp is zero, so every
    /// changelog entry counts as new.
    fn default() -> (r: Data)
        ensures
            r.update_timestamp == 0,
    {
        Data { update_timestamp: 0 }
    }
}

/// Appends the configuration file's name to the directory it lives in.
pub fn build_config_file_path(config_dir: &str) -> (r: String)
    ensures
        r@ == config_dir@ + "/"@ + "settings.toml"@,
{
    let mut path = String::from_str(config_dir);
    path.append("/");
    path.append("settings.toml");
    path
}

/// The path of the configuration file under the resolved configuration
/// directory.
pub fn get_config_file_path(config_dir: &str) -> (r: String)
    ensures
        r@ == config_dir@ + "/"@ + "settings.toml"@,
{
    build_config_file_path(config_dir)
}

} // verus!
