//! Configuration of a prompt workspace and the shape of a prompt template.

use vstd::prelude::*;

verus! {

/// The configuration of a workspace.
#[derive(Debug, Clone)]
pub struct AgentConfig {
    /// Version of the configuration format.
    pub version: String,
    /// Where each kind of prompt lives.
    pub directories: DirectoryMappings,
    /// Template settings.
    pub templates: TemplateSettings,
    /// Per-platform settings.
    pub platform: PlatformSettings,
}

/// Directories of the kinds of prompts, relative to the workspace.
#[derive(Debug, Clone)]
pub struct DirectoryMappings {
    pub memory: String,
    pub user: String,
    pub project: String,
    pub sub_agent: String,
    pub command: String,
    pub backups: String,
}

/// Template settings.
#[derive(Debug, Clone)]
pub struct TemplateSettings {
    /// Repository that templates come from, if any.
    pub repository: Option<String>,
    /// Local templates directory.
    pub local_directory: String,
    /// Template cache settings.
    pub cache: CacheSettings,
}

/// Cache settings.
#[derive(Debug, Clone)]
pub struct CacheSettings {
    pub enabled: bool,
    pub directory: String,
    /// Largest size of the cache, in MB.
    pub max_size_mb: u64,
    /// How long an entry lives, in seconds.
    pub ttl_seconds: u64,
}

/// Settings for each platform.
#[derive(Debug, Clone)]
pub struct PlatformSettings {
    pub windows: Option<PlatformSpecific>,
    pub macos: Option<PlatformSpecific>,
    pub linux: Option<PlatformSpecific>,
}

/// Settings of one platform.
#[derive(Debug, Clone)]
pub struct PlatformSpecific {
    pub shell: Option<String>,
    pub editor: Option<String>,
    pub path_separator: String,
}

/// A prompt template.
#[derive(Debug, Clone)]
pub struct PromptTemplate {
    /// Its name, unique within a registry.
    pub name: String,
    pub description: String,
    pub version: String,
    /// Its kind.
    pub template_type: TemplateType,
    /// Its body, with `{{name}}` placeholders.
    pub content: String,
    /// Annotations as (key, value) pairs, not interpreted.
    pub metadata: Vec<(String, String)>,
    /// The variables that it declares.
    pub variables: Vec<TemplateVariable>,
}

/// A variable that a template declares.
#[derive(Debug, Clone)]
pub struct TemplateVariable {
    pub name: String,
    pub description: String,
    pub variable_type: VariableType,
    /// Whether a render must be given a value for it.
    pub required: bool,
    /// The value used where none is given.
    pub default: Option<String>,
    /// The values allowed, for an enumerated variable.
    pub values: Option<Vec<String>>,
}

/// The kind of value a variable holds.
#[derive(Debug, Clone, Copy, PartialEq, Eq, Structural)]
pub enum VariableType {
    String,
    Number,
    Boolean,
    Array,
    Object,
}

/// The kinds of templates.
#[derive(Debug, Clone, Copy, PartialEq, Eq, Structural)]
pub enum TemplateType {
    Memory,
    SubAgent,
    Command,
}

impl Default for AgentConfig {
    fn default() -> (r: Self)
        ensures
            r.version@ == "1.0.0"@,
            default_directories(r.directories),
            default_template_settings(r.templates),
            default_platform_settings(r.platform),
    {
        AgentConfig {
            version: String::from_str("1.0.0"),
            directories: DirectoryMappings::default(),
            templates: TemplateSettings::default(),
            platform: PlatformSettings::default(),
        }
    }
}

pub open spec fn default_directories(d: DirectoryMappings) -> bool {
    &&& d.memory@ == ".ai/locale"@
    &&& d.user@ == ".ai/user"@
    &&& d.project@ == ".ai/project"@
    &&& d.sub_agent@ == ".ai/sa"@
    &&& d.command@ == ".ai/cmd"@
    &&& d.backups@ == ".agents/backups"@
}

pub open spec fn default_cache(c: CacheSettings) -> bool {
    &&& c.enabled
    &&& c.directory@ == ".agents/cache"@
    &&& c.max_size_mb == 100
    &&& c.ttl_seconds == 3600
}

pub open spec fn default_template_settings(t: TemplateSettings) -> bool {
    &&& t.repository is None
    &&& t.local_directory@ == ".ai/templates"@
    &&& default_cache(t.cache)
}

pub open spec fn platform_is(p: Option<PlatformSpecific>, shell: Seq<char>, editor: Seq<char>, sep: Seq<char>) -> bool {
    &&& p is Some
    &&& p->Some_0.shell matches Some(s) && s@ == shell
    &&& p->Some_0.editor matches Some(e) && e@ == editor
    &&& p->Some_0.path_separator@ == sep
}

pub open spec fn default_platform_settings(p: PlatformSettings) -> bool {
    &&& platform_is(p.windows, "cmd"@, "notepad"@, "\\"@)
    &&& platform_is(p.macos, "zsh"@, "nano"@, "/"@)
    &&& platform_is(p.linux, "bash"@, "nano"@, "/"@)
}

impl DirectoryMappings {
    /// The directory where templates of type `template_type` are kept.
    pub fn dir_for(&self, template_type: TemplateType) -> (r: &String)
        ensures
            *r == match template_type {
                TemplateType::Memory => self.memory,
                TemplateType::SubAgent => self.sub_agent,
                TemplateType::Command => self.command,
            },
    {
        match template_type {
            TemplateType::Memory => &self.memory,
            TemplateType::SubAgent => &self.sub_agent,
            TemplateType::Command => &self.command,
        }
    }
}

impl Default for DirectoryMappings {
    fn default() -> (r: Self)
        ensures
            default_directories(r),
    {
        DirectoryMappings {
            memory: String::from_str(".ai/locale"),
            user: String::from_str(".ai/user"),
            project: String::from_str(".ai/project"),
            sub_agent: String::from_str(".ai/sa"),
            command: String::from_str(".ai/cmd"),
            backups: String::from_str(".agents/backups"),
        }
    }
}

impl Default for TemplateSettings {
    fn default() -> (r: Self)
        ensures
            default_template_settings(r),
    {
        TemplateSettings {
            repository: None,
            local_directory: String::from_str(".ai/templates"),
            cache: CacheSettings::default(),
        }
    }
}

impl Default for CacheSettings {
    fn default() -> (r: Self)
        ensures
            default_cache(r),
    {
        CacheSettings {
            enabled: true,
            directory: String::from_str(".agents/cache"),
            max_size_mb: 100,
            ttl_seconds: 3600,
        }
    }
}

fn platform_specific(shell: &str, editor: &str, sep: &str) -> (r: PlatformSpecific)
    ensures
        platform_is(Some(r), shell@, editor@, sep@),
{
    PlatformSpecific {
        shell: Some(String::from_str(shell)),
        editor: Some(String::from_str(editor)),
        path_separator: String::from_str(sep),
    }
}

impl Default for PlatformSettings {
    fn default() -> (r: Self)
        ensures
            default_platform_settings(r),
    {
        PlatformSettings {
            windows: Some(platform_specific("cmd", "notepad", "\\")),
            macos: Some(platform_specific("zsh", "nano", "/")),
            linux: Some(platform_specific("bash", "nano", "/")),
        }
    }
}

impl Default for PromptTemplate {
    fn default() -> (r: Self)
        ensures
            r.name@ == "default"@,
            r.description@ == "Default template"@,
            r.version@ == "1.0.0"@,
            r.template_type == TemplateType::Memory,
            r.content@ == Seq::<char>::empty(),
            r.metadata@.len() == 0,
            r.variables@.len() == 0,
    {
        PromptTemplate {
            name: String::from_str("default"),
            description: String::from_str("Default template"),
            version: String::from_str("1.0.0"),
            template_type: TemplateType::Memory,
            content: String::new(),
            metadata: Vec::new(),
            variables: Vec::new(),
        }
    }
}

/// Where the configuration file is.
pub struct ConfigManager {
    config_path: String,
}

impl ConfigManager {
    pub closed spec fn path_view(&self) -> Seq<char> {
        self.config_path@
    }

    /// A manager of the configuration file at `config_path`.
    pub fn new(config_path: String) -> (r: Self)
        ensures
            r.path_view() == config_path@,
    {
        ConfigManager { config_path }
    }

    /// The configuration file's path.
    pub fn path(&self) -> (r: &str)
        ensures
            r@ == self.path_view(),
    {
        self.config_path.as_str()
    }
}

} // verus!
