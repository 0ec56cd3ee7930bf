use vstd::prelude::*;

use crate::errors::CoreError;

verus! {

/// Tray icon theme choice, persisted in configuration: follow the system
/// (`Default`) or force one of the two palettes.
#[derive(Clone, Copy, Debug, PartialEq, Eq, Structural)]
pub enum DarkLight {
    Dark,
    Light,
    Default,
}

/// The system-wide theme as the operating system reports it.  Reading it
/// is environment work the unverified shell does; the shell hands the
/// observed value to [`DarkLight::dark_mode`].
#[derive(Clone, Copy, Debug, PartialEq, Eq, Structural)]
pub enum SystemTheme {
    Dark,
    Light,
    Unspecified,
}

/// Whether the dark icon palette is used for a theme choice, given the
/// observed system theme: a forced choice decides by itself; `Default`
/// follows the system, darkness being the fallback when the system
/// expresses no preference.
pub open spec fn spec_dark_mode(choice: DarkLight, system: SystemTheme) -> bool {
    match choice {
        DarkLight::Dark => true,
        DarkLight::Light => false,
        DarkLight::Default => system != SystemTheme::Light,
    }
}

impl DarkLight {
    /// Should the dark icon palette be used, given the system theme the
    /// shell observed?  Exactly [`spec_dark_mode`].
    pub fn dark_mode(&self, system: SystemTheme) -> (r: bool)
        ensures
            r == spec_dark_mode(*self, system),
    {
        match self {
            DarkLight::Dark => true,
            DarkLight::Light => false,
            DarkLight::Default => match system {
                SystemTheme::Dark => true,
                SystemTheme::Unspecified => true,
                SystemTheme::Light => false,
            },
        }
    }
}

impl Default for DarkLight {
    fn default() -> (r: Self)
        ensures
            r == DarkLight::Default,
    {
        DarkLight::Default
    }
}

/// Settings of the control-protocol transport.
#[derive(Clone, Copy, Debug, PartialEq, Eq, Structural)]
pub struct OscConfig {
    pub send_port: u16,
}

impl Default for OscConfig {
    fn default() -> (r: Self)
        ensures
            r.send_port == 9000,
    {
        OscConfig { send_port: 9000 }
    }
}

/// The persisted root configuration: transport settings, the tray theme
/// choice, and the enabled-set of plugin identifiers.
pub struct RootConfig {
    pub osc: OscConfig,
    pub dark_light: DarkLight,
    pub enabled_plugins: Vec<String>,
}

/// The state a configuration owner falls back to when nothing was loaded.
pub open spec fn is_default_root(c: RootConfig) -> bool {
    &&& c.osc.send_port == 9000
    &&& c.dark_light == DarkLight::Default
    &&& c.enabled_plugins@.len() == 0
}

impl Default for RootConfig {
    fn default() -> (r: Self)
        ensures
            is_default_root(r),
    {
        RootConfig {
            osc: Default::default(),
            dark_light: Default::default(),
            enabled_plugins: Vec::new(),
        }
    }
}

/// What came out of trying to load a configuration file.
pub enum LoadOutcome {
    /// The file existed and parsed.
    Loaded(RootConfig),
    /// No file yet: the normal first run.
    Missing,
    /// The file could not be read.
    Unreadable,
    /// The file did not parse.
    Malformed,
}

/// The error condition a load outcome is logged under: an unreadable file
/// is an I/O failure, a malformed one a parse failure; an absent file is
/// the normal first run and no error at all.
pub fn load_failure(outcome: &LoadOutcome) -> (r: Option<CoreError>)
    ensures
        r == match outcome {
            LoadOutcome::Unreadable => Some(CoreError::ConfigIo),
            LoadOutcome::Malformed => Some(CoreError::ConfigParse),
            _ => Option::<CoreError>::None,
        },
{
    match outcome {
        LoadOutcome::Unreadable => Some(CoreError::ConfigIo),
        LoadOutcome::Malformed => Some(CoreError::ConfigParse),
        _ => None,
    }
}

/// Local recovery on load: a missing, unreadable or malformed file falls
/// back to the default-constructed state instead of propagating an error.
pub fn resolve_loaded(outcome: LoadOutcome) -> (r: RootConfig)
    ensures
        match outcome {
            LoadOutcome::Loaded(c) => r == c,
            _ => is_default_root(r),
        },
{
    match outcome {
        LoadOutcome::Loaded(c) => c,
        _ => Default::default(),
    }
}

/// The configuration file of an owner: the root configuration lives at
/// `dir/config.toml`; a plugin's files live under `dir/plugins/<id>/`, as
/// `config.toml` or as `<name>.toml` for a named extra file.
pub open spec fn spec_config_file_path(
    dir: Seq<char>,
    plugin: Option<Seq<char>>,
    name: Option<Seq<char>>,
) -> Seq<char> {
    match plugin {
        Option::None => dir + "/config.toml"@,
        Option::Some(id) => match name {
            Option::None => dir + "/plugins/"@ + id + "/config.toml"@,
            Option::Some(n) => dir + "/plugins/"@ + id + "/"@ + n + ".toml"@,
        },
    }
}

/// Builds the path of a configuration owner's file, exactly as
/// [`spec_config_file_path`] lays the files out.
pub fn config_file_path(config_dir: &str, plugin_id: Option<&str>, name: Option<&str>) -> (r:
    String)
    ensures
        r@ == spec_config_file_path(
            config_dir@,
            match plugin_id {
                Option::Some(i) => Some(i@),
                Option::None => None,
            },
            match name {
                Option::Some(n) => Some(n@),
                Option::None => None,
            },
        ),
{
    match plugin_id {
        None => config_dir.to_owned().concat("/config.toml"),
        Some(id) => {
            let base = config_dir.to_owned().concat("/plugins/").concat(id);
            match name {
                None => base.concat("/config.toml"),
                Some(n) => base.concat("/").concat(n).concat(".toml"),
            }
        },
    }
}

/// In-memory configuration state with write-through persistence: every
/// mutation leaves the store carrying exactly the state that must reach
/// durable storage, so the caller serializes `config` and enqueues it
/// (under `path`, with `debounce`) before acting on anything else.
pub struct ConfigStore {
    pub config: RootConfig,
    pub path: String,
    pub debounce: Option<u64>,
}

impl ConfigStore {
    pub fn new(config: RootConfig, path: String, debounce: Option<u64>) -> (r: Self)
        ensures
            r.config == config,
            r.path == path,
            r.debounce == debounce,
    {
        ConfigStore { config, path, debounce }
    }

    /// A consistent view of the current state.
    pub fn read(&self) -> (r: &RootConfig)
        ensures
            r == &self.config,
    {
        &self.config
    }

    /// Replaces the persisted enabled-set, leaving everything else as it
    /// was.
    pub fn set_enabled_plugins(&mut self, ids: Vec<String>)
        ensures
            final(self).config.enabled_plugins == ids,
            final(self).config.osc == old(self).config.osc,
            final(self).config.dark_light == old(self).config.dark_light,
            final(self).path == old(self).path,
            final(self).debounce == old(self).debounce,
    {
        self.config.enabled_plugins = ids;
    }

    /// Records the tray theme choice.
    pub fn set_dark_light(&mut self, mode: DarkLight)
        ensures
            final(self).config.dark_light == mode,
            final(self).config.osc == old(self).config.osc,
            final(self).config.enabled_plugins == old(self).config.enabled_plugins,
            final(self).path == old(self).path,
            final(self).debounce == old(self).debounce,
    {
        self.config.dark_light = mode;
    }
}

} // verus!
