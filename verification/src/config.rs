//! The configuration and the cache of window state, as plain values.
use vstd::prelude::*;

verus! {

pub const CONFIG_FILE: &'static str = "cfg.json";

pub const CACHE_FILE: &'static str = "cache.json";

/// How the window title is composed.
#[derive(Debug, Clone, Copy, PartialEq, Eq, Structural)]
pub struct Title {
    pub displayed_folders: Option<u32>,
    pub show_program_name: bool,
}

impl Default for Title {
    fn default() -> (r: Self)
        ensures
            r.displayed_folders == Some(1u32),
            r.show_program_name,
    {
        Title { displayed_folders: Some(1), show_program_name: true }
    }
}

/// Window preferences.
#[derive(Debug, Clone, Copy, PartialEq, Eq, Structural)]
pub struct ConfigWindow {
    pub dark: bool,
    pub show_bottom_bar: bool,
    pub antialias: bool,
    pub start_fullscreen: bool,
}

impl Default for ConfigWindow {
    fn default() -> (r: Self)
        ensures
            r == (ConfigWindow {
                dark: true,
                show_bottom_bar: true,
                antialias: true,
                start_fullscreen: false,
            }),
    {
        ConfigWindow { dark: true, show_bottom_bar: true, antialias: true, start_fullscreen: false }
    }
}

/// The release channel that updates come from.
#[derive(Debug, Clone, Copy, PartialEq, Eq, Structural)]
pub enum Channel {
    Stable,
    Beta,
}

impl Default for Channel {
    fn default() -> (r: Self)
        ensures
            r == Channel::Stable,
    {
        Channel::Stable
    }
}

impl Channel {
    /// Whether pre-releases are offered on this channel.
    pub fn accepts_prerelease(self) -> (r: bool)
        ensures
            r == (self == Channel::Beta),
    {
        match self {
            Channel::Beta => true,
            Channel::Stable => false,
        }
    }

    /// The name shown for the channel.
    pub fn label(self) -> (r: &'static str)
        ensures
            r@ == (match self {
                Channel::Stable => "Stable"@,
                Channel::Beta => "Beta"@,
            }),
    {
        match self {
            Channel::Stable => "Stable",
            Channel::Beta => "Beta",
        }
    }
}

/// Update preferences.
#[derive(Debug, Clone, Copy, PartialEq, Eq, Structural)]
pub struct Updates {
    pub check: bool,
    pub auto_install: bool,
    pub channel: Channel,
}

impl Default for Updates {
    fn default() -> (r: Self)
        ensures
            r == (Updates { check: true, auto_install: false, channel: Channel::Stable }),
    {
        Updates { check: true, auto_install: false, channel: Channel::Stable }
    }
}

impl Updates {
    /// Whether to look for updates at all.
    pub fn should_check(&self) -> (r: bool)
        ensures
            r == self.check,
    {
        self.check
    }

    /// Whether updates are installed without asking: only while checks are on.
    pub fn should_auto_install(&self) -> (r: bool)
        ensures
            r == (self.check && self.auto_install),
    {
        self.check && self.auto_install
    }
}

/// An external command run on the current image.
#[derive(Debug, Clone, PartialEq, Eq)]
pub struct CommandDefinition {
    pub input: Vec<String>,
    pub program: String,
    pub args: Vec<String>,
    pub envs: Vec<(String, String)>,
}

/// The whole configuration; `bindings` holds key overrides by action name.
#[derive(Debug, Clone, PartialEq, Eq)]
pub struct Configuration {
    pub window: ConfigWindow,
    pub title: Title,
    pub bindings: Option<Vec<(String, Vec<String>)>>,
    pub commands: Vec<CommandDefinition>,
    pub updates: Updates,
}

impl Default for Configuration {
    fn default() -> (r: Self)
        ensures
            r.window == (ConfigWindow {
                dark: true,
                show_bottom_bar: true,
                antialias: true,
                start_fullscreen: false,
            }),
            r.title == (Title { displayed_folders: Some(1u32), show_program_name: true }),
            r.bindings is None,
            r.commands@.len() == 0,
            r.updates == (Updates { check: true, auto_install: false, channel: Channel::Stable }),
    {
        Configuration {
            window: ConfigWindow::default(),
            title: Title::default(),
            bindings: None,
            commands: Vec::new(),
            updates: Updates::default(),
        }
    }
}

/// The window geometry and state remembered between runs.
#[derive(Debug, Clone, Copy, PartialEq, Eq, Structural)]
pub struct CacheWindow {
    pub x: i32,
    pub y: i32,
    pub w: u32,
    pub h: u32,
    pub dark: bool,
    pub maximized: bool,
    pub fullscreen: bool,
    pub show_bottom_bar: bool,
}

impl Default for CacheWindow {
    fn default() -> (r: Self)
        ensures
            r == (CacheWindow {
                x: 64,
                y: 64,
                w: 1280,
                h: 800,
                dark: true,
                maximized: false,
                fullscreen: false,
                show_bottom_bar: true,
            }),
    {
        CacheWindow {
            x: 64,
            y: 64,
            w: 1280,
            h: 800,
            dark: true,
            maximized: false,
            fullscreen: false,
            show_bottom_bar: true,
        }
    }
}

/// State remembered between runs.
#[derive(Debug, Clone, PartialEq, Eq)]
pub struct Cache {
    pub window: CacheWindow,
    pub current_dir: Option<String>,
    pub last_update_check: Option<u64>,
    pub update_skipped_version: Option<String>,
    pub update_pending_version: Option<String>,
    pub last_launched_version: Option<String>,
}

impl Default for Cache {
    fn default() -> (r: Self)
        ensures
            r.window == (CacheWindow {
                x: 64,
                y: 64,
                w: 1280,
                h: 800,
                dark: true,
                maximized: false,
                fullscreen: false,
                show_bottom_bar: true,
            }),
            r.current_dir is None,
            r.last_update_check is None,
            r.update_skipped_version is None,
            r.update_pending_version is None,
            r.last_launched_version is None,
    {
        Cache {
            window: CacheWindow::default(),
            current_dir: None,
            last_update_check: None,
            update_skipped_version: None,
            update_pending_version: None,
            last_launched_version: None,
        }
    }
}


/// Where the operating system keeps the configuration of an application
/// (`directories::ProjectDirs::from` with its qualifier, organisation and
/// name, then `config_dir`), if it has a place for it. The result depends
/// on the user's environment, so nothing is stated of it.
#[verifier::external_body]
fn project_config_dir(qualifier: &str, organization: &str, application: &str) -> (r: Option<String>) {
    directories::ProjectDirs::from(qualifier, organization, application).map(
        |d| d.config_dir().to_string_lossy().into_owned(),
    )
}

/// The name the application's folders are kept under.
pub const APPLICATION: &'static str = "reveal";

/// `Path::join`: a path followed by another, as the standard library joins them.
pub uninterp spec fn path_join(base: Seq<char>, tail: Seq<char>) -> Seq<char>;

/// `Path::join` on paths given as text; the result is named, not stated.
#[verifier::external_body]
pub(crate) fn join_path(base: &str, tail: &str) -> (r: String)
    ensures
        r@ == path_join(base@, tail@),
{
    std::path::Path::new(base).join(tail).to_string_lossy().into_owned()
}

/// A file in the configuration folder `dir`, if there is one.
pub fn file_in(dir: Option<String>, file: &str) -> (r: Option<String>)
    ensures
        crate::paths::opt_text(r) == (match dir {
            Some(d) => Some(path_join(d@, file@)),
            None => None,
        }),
{
    match dir {
        Some(d) => Some(join_path(d.as_str(), file)),
        None => None,
    }
}

/// Where the configuration file is kept, if the system has a place for it.
pub fn config_path() -> (r: Option<String>)
    ensures
        r matches Some(p) ==> exists|d: Seq<char>| p@ == path_join(d, CONFIG_FILE@),
{
    file_in(project_config_dir("", "", APPLICATION), CONFIG_FILE)
}

/// Where the cache of window state is kept, if the system has a place for it.
pub fn cache_path() -> (r: Option<String>)
    ensures
        r matches Some(p) ==> exists|d: Seq<char>| p@ == path_join(d, CACHE_FILE@),
{
    file_in(project_config_dir("", "", APPLICATION), CACHE_FILE)
}

} // verus!
