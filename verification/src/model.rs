//! The document model: the configuration exactly as authored, with no
//! inference applied, together with its mathematical view.

use vstd::prelude::*;

verus! {

/// Global settings of a configuration document: at most a default profile name.
pub struct GlobalConfig {
    pub default_profile: Option<String>,
}

/// A named, reusable bundle of default values for encryption, backup methods,
/// destination, and schedule interval. Every field is optional.
pub struct Profile {
    pub encrypt: Option<bool>,
    pub backup_method: Option<Vec<String>>,
    pub backup_to: Option<String>,
    pub interval: Option<String>,
}

/// One declared filesystem location to protect, with an optional profile
/// reference and the same four optional override fields as a profile.
pub struct BackupPath {
    pub path: String,
    pub profile: Option<String>,
    pub encrypt: Option<bool>,
    pub backup_method: Option<Vec<String>>,
    pub backup_to: Option<String>,
    pub interval: Option<String>,
}

/// The effective settings computed for one declared path. A `None` field means
/// no value was specified at any level; no default is invented here.
pub struct ResolvedBackupPath {
    pub path: String,
    pub encrypt: Option<bool>,
    pub backup_method: Option<Vec<String>>,
    pub backup_to: Option<String>,
    pub interval: Option<String>,
}

/// A whole configuration document: global settings, the profiles keyed by
/// name (unique within a well-formed document, as the document format cannot
/// repeat a key), and the ordered list of declared backup paths.
pub struct Config {
    pub global: GlobalConfig,
    pub profiles: Vec<(String, Profile)>,
    pub backup_paths: Vec<BackupPath>,
}

/// Failure of semantic validation: carries the newline-joined list of every
/// violation message found.
pub enum ConfigError {
    Invalid(String),
}

impl ConfigError {
    /// The full failure text, prefixed as a reader of the error would see it.
    pub fn message(&self) -> (r: String)
        ensures
            self matches ConfigError::Invalid(m) ==> r@ == "Invalid configuration: "@ + m@,
    {
        match self {
            ConfigError::Invalid(m) => {
                let mut s = String::from_str("Invalid configuration: ");
                s.append(m.as_str());
                s
            },
        }
    }
}

/// Mathematical view of [`GlobalConfig`].
pub struct GlobalConfigView {
    pub default_profile: Option<Seq<char>>,
}

/// Mathematical view of [`Profile`].
pub struct ProfileView {
    pub encrypt: Option<bool>,
    pub backup_method: Option<Seq<Seq<char>>>,
    pub backup_to: Option<Seq<char>>,
    pub interval: Option<Seq<char>>,
}

/// Mathematical view of [`BackupPath`].
pub struct BackupPathView {
    pub path: Seq<char>,
    pub profile: Option<Seq<char>>,
    pub encrypt: Option<bool>,
    pub backup_method: Option<Seq<Seq<char>>>,
    pub backup_to: Option<Seq<char>>,
    pub interval: Option<Seq<char>>,
}

/// Mathematical view of [`ResolvedBackupPath`].
pub struct ResolvedBackupPathView {
    pub path: Seq<char>,
    pub encrypt: Option<bool>,
    pub backup_method: Option<Seq<Seq<char>>>,
    pub backup_to: Option<Seq<char>>,
    pub interval: Option<Seq<char>>,
}

/// Mathematical view of [`Config`].
pub struct ConfigView {
    pub global: GlobalConfigView,
    pub profiles: Seq<(Seq<char>, ProfileView)>,
    pub backup_paths: Seq<BackupPathView>,
}

impl View for GlobalConfig {
    type V = GlobalConfigView;

    open spec fn view(&self) -> GlobalConfigView {
        GlobalConfigView { default_profile: self.default_profile.deep_view() }
    }
}

impl View for Profile {
    type V = ProfileView;

    open spec fn view(&self) -> ProfileView {
        ProfileView {
            encrypt: self.encrypt,
            backup_method: self.backup_method.deep_view(),
            backup_to: self.backup_to.deep_view(),
            interval: self.interval.deep_view(),
        }
    }
}

impl View for BackupPath {
    type V = BackupPathView;

    open spec fn view(&self) -> BackupPathView {
        BackupPathView {
            path: self.path@,
            profile: self.profile.deep_view(),
            encrypt: self.encrypt,
            backup_method: self.backup_method.deep_view(),
            backup_to: self.backup_to.deep_view(),
            interval: self.interval.deep_view(),
        }
    }
}

impl View for ResolvedBackupPath {
    type V = ResolvedBackupPathView;

    open spec fn view(&self) -> ResolvedBackupPathView {
        ResolvedBackupPathView {
            path: self.path@,
            encrypt: self.encrypt,
            backup_method: self.backup_method.deep_view(),
            backup_to: self.backup_to.deep_view(),
            interval: self.interval.deep_view(),
        }
    }
}

impl View for Config {
    type V = ConfigView;

    open spec fn view(&self) -> ConfigView {
        ConfigView {
            global: self.global@,
            profiles: self.profiles@.map_values(|p: (String, Profile)| (p.0@, p.1@)),
            backup_paths: self.backup_paths@.map_values(|b: BackupPath| b@),
        }
    }
}

/// The first profile bound to `name`, if any. In a document produced by the
/// parser names are unique, so "first" is the only binding.
pub open spec fn spec_lookup(profiles: Seq<(Seq<char>, ProfileView)>, name: Seq<char>) -> Option<
    ProfileView,
>
    decreases profiles.len(),
{
    if profiles.len() == 0 {
        None
    } else if profiles[0].0 == name {
        Some(profiles[0].1)
    } else {
        spec_lookup(profiles.drop_first(), name)
    }
}

} // verus!
