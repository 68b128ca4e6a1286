//! How file operations are configured: by a mode alone, or by a mode with
//! patterns that override it for some paths. The environment overrides both.

use vstd::prelude::*;

verus! {

/// The variable that switches file operations on (`true`) or off (`false`).
pub const FILE_OPS_VARIABLE: &'static str = "MIRRORD_FILE_OPS";

/// The variable that switches read-only file operations on or off.
pub const FILE_RO_OPS_VARIABLE: &'static str = "MIRRORD_FILE_RO_OPS";

/// The variable with the pattern of the paths that are read and written
/// remotely.
pub const FILE_READ_WRITE_PATTERN_VARIABLE: &'static str = "MIRRORD_FILE_READ_WRITE_PATTERN";

/// The variable with the pattern of the paths that are read remotely.
pub const FILE_READ_ONLY_PATTERN_VARIABLE: &'static str = "MIRRORD_FILE_READ_ONLY_PATTERN";

/// The variable with the pattern of the paths that are opened locally.
pub const FILE_LOCAL_PATTERN_VARIABLE: &'static str = "MIRRORD_FILE_LOCAL_PATTERN";

/// What the environment holds for the settings of file operations: the value
/// of each variable, `None` where it is not set.
#[derive(Clone, Debug, PartialEq, Eq)]
pub struct FsEnv {
    pub file_ops: Option<String>,
    pub file_ro_ops: Option<String>,
    pub read_write_pattern: Option<String>,
    pub read_only_pattern: Option<String>,
    pub local_pattern: Option<String>,
}

/// A text that may be absent, by its view.
pub open spec fn text_view(text: Option<String>) -> Option<Seq<char>> {
    match text {
        Some(t) => Some(t@),
        None => None,
    }
}

pub struct FsEnvView {
    pub file_ops: Option<Seq<char>>,
    pub file_ro_ops: Option<Seq<char>>,
    pub read_write_pattern: Option<Seq<char>>,
    pub read_only_pattern: Option<Seq<char>>,
    pub local_pattern: Option<Seq<char>>,
}

impl View for FsEnv {
    type V = FsEnvView;

    open spec fn view(&self) -> FsEnvView {
        FsEnvView {
            file_ops: text_view(self.file_ops),
            file_ro_ops: text_view(self.file_ro_ops),
            read_write_pattern: text_view(self.read_write_pattern),
            read_only_pattern: text_view(self.read_only_pattern),
            local_pattern: text_view(self.local_pattern),
        }
    }
}

/// Why a configuration could not be generated.
#[derive(Clone, Debug, PartialEq, Eq)]
pub enum ConfigError {
    /// A variable holds a value that cannot be read; with the value and the
    /// variable's name.
    InvalidValue(String, &'static str),
}

pub enum ConfigErrorView {
    InvalidValue(Seq<char>, Seq<char>),
}

impl View for ConfigError {
    type V = ConfigErrorView;

    open spec fn view(&self) -> ConfigErrorView {
        match self {
            ConfigError::InvalidValue(value, name) => ConfigErrorView::InvalidValue(value@, name@),
        }
    }
}

/// Which file operations go to the remote side.
#[derive(Clone, Copy, Debug, PartialEq, Eq, Structural)]
pub enum FsModeConfig {
    /// None.
    Disabled,
    /// Reading only.
    Read,
    /// Reading and writing.
    Write,
}

/// The flag that `text` stands for: `true` or `false`; anything else is an
/// invalid value of the variable `name`.
pub open spec fn flag_of(text: Option<Seq<char>>, name: Seq<char>) -> Result<
    Option<bool>,
    ConfigErrorView,
> {
    match text {
        None => Ok(None),
        Some(t) => if t == "true"@ {
            Ok(Some(true))
        } else if t == "false"@ {
            Ok(Some(false))
        } else {
            Err(ConfigErrorView::InvalidValue(t, name))
        },
    }
}

/// The mode that the two flags of the environment ask for, if any of them
/// is set: writing where file operations are switched on; else reading where
/// read-only operations are switched on; else none.
pub open spec fn mode_from_flags(file_ops: Option<bool>, file_ro_ops: Option<bool>) -> Option<
    FsModeConfig,
> {
    match (file_ops, file_ro_ops) {
        (Some(true), _) => Some(FsModeConfig::Write),
        (_, Some(true)) => Some(FsModeConfig::Read),
        (None, None) => None,
        _ => Some(FsModeConfig::Disabled),
    }
}

/// The mode in force: the one that the environment asks for, or `fallback`
/// where the environment asks for none. The flags are read in the order
/// `MIRRORD_FILE_OPS`, `MIRRORD_FILE_RO_OPS`, and the first that cannot be
/// read is the error.
pub open spec fn generated_mode(fallback: FsModeConfig, env: FsEnvView) -> Result<
    FsModeConfig,
    ConfigErrorView,
> {
    match flag_of(env.file_ops, FILE_OPS_VARIABLE@) {
        Err(e) => Err(e),
        Ok(file_ops) => match flag_of(env.file_ro_ops, FILE_RO_OPS_VARIABLE@) {
            Err(e) => Err(e),
            Ok(file_ro_ops) => match mode_from_flags(file_ops, file_ro_ops) {
                Some(mode) => Ok(mode),
                None => Ok(fallback),
            },
        },
    }
}

/// Reads a boolean with `str::parse::<bool>`, which takes `true` and `false`
/// and nothing else.
#[verifier::external_body]
pub(crate) fn parse_flag(text: &str) -> (r: Option<bool>)
    ensures
        r == if text@ == "true"@ {
            Some(true)
        } else if text@ == "false"@ {
            Some(false)
        } else {
            None::<bool>
        },
{
    text.parse::<bool>().ok()
}

fn read_flag(text: &Option<String>, name: &'static str) -> (r: Result<Option<bool>, ConfigError>)
    ensures
        match r {
            Ok(flag) => flag_of(text_view(*text), name@) == Ok::<Option<bool>, ConfigErrorView>(
                flag,
            ),
            Err(e) => flag_of(text_view(*text), name@) == Err::<Option<bool>, ConfigErrorView>(e@),
        },
{
    match text {
        None => Ok(None),
        Some(t) => match parse_flag(t.as_str()) {
            Some(flag) => Ok(Some(flag)),
            None => Err(ConfigError::InvalidValue(t.clone(), name)),
        },
    }
}

impl FsModeConfig {
    /// The mode that the two flags ask for, if any of them is set.
    pub fn from_env_logic(file_ops: Option<bool>, file_ro_ops: Option<bool>) -> (r: Option<
        FsModeConfig,
    >)
        ensures
            r == mode_from_flags(file_ops, file_ro_ops),
    {
        match (file_ops, file_ro_ops) {
            (Some(true), _) => Some(FsModeConfig::Write),
            (_, Some(true)) => Some(FsModeConfig::Read),
            (None, None) => None,
            _ => Some(FsModeConfig::Disabled),
        }
    }

    /// The mode in force when the user asked for this one: what the
    /// environment asks for, or else this mode.
    pub fn generate_config(self, env: &FsEnv) -> (r: Result<FsModeConfig, ConfigError>)
        ensures
            match r {
                Ok(mode) => generated_mode(self, env@) == Ok::<FsModeConfig, ConfigErrorView>(
                    mode,
                ),
                Err(e) => generated_mode(self, env@) == Err::<FsModeConfig, ConfigErrorView>(e@),
            },
    {
        let file_ops = match read_flag(&env.file_ops, FILE_OPS_VARIABLE) {
            Ok(flag) => flag,
            Err(e) => {
                return Err(e);
            },
        };
        let file_ro_ops = match read_flag(&env.file_ro_ops, FILE_RO_OPS_VARIABLE) {
            Ok(flag) => flag,
            Err(e) => {
                return Err(e);
            },
        };
        match FsModeConfig::from_env_logic(file_ops, file_ro_ops) {
            Some(mode) => Ok(mode),
            None => Ok(self),
        }
    }

    /// The mode in force when the user switched the feature off: what the
    /// environment asks for, or else none.
    pub fn disabled_config(env: &FsEnv) -> (r: Result<FsModeConfig, ConfigError>)
        ensures
            match r {
                Ok(mode) => generated_mode(FsModeConfig::Disabled, env@) == Ok::<
                    FsModeConfig,
                    ConfigErrorView,
                >(mode),
                Err(e) => generated_mode(FsModeConfig::Disabled, env@) == Err::<
                    FsModeConfig,
                    ConfigErrorView,
                >(e@),
            },
    {
        FsModeConfig::Disabled.generate_config(env)
    }
}

impl Default for FsModeConfig {
    fn default() -> (r: Self)
        ensures
            r == FsModeConfig::Read,
    {
        FsModeConfig::Read
    }
}

/// The settings of file operations as they are used.
#[derive(Clone, Debug, PartialEq, Eq)]
pub struct FsConfig {
    pub mode: FsModeConfig,
    pub read_write: Option<String>,
    pub read_only: Option<String>,
    pub local: Option<String>,
}

pub struct FsConfigView {
    pub mode: FsModeConfig,
    pub read_write: Option<Seq<char>>,
    pub read_only: Option<Seq<char>>,
    pub local: Option<Seq<char>>,
}

impl View for FsConfig {
    type V = FsConfigView;

    open spec fn view(&self) -> FsConfigView {
        FsConfigView {
            mode: self.mode,
            read_write: text_view(self.read_write),
            read_only: text_view(self.read_only),
            local: text_view(self.local),
        }
    }
}

impl Default for FsConfig {
    fn default() -> (r: Self)
        ensures
            r@ == (FsConfigView {
                mode: FsModeConfig::Read,
                read_write: None,
                read_only: None,
                local: None,
            }),
    {
        FsConfig { mode: FsModeConfig::Read, read_write: None, read_only: None, local: None }
    }
}

/// A mode with the patterns that override it.
#[derive(Clone, Debug, PartialEq, Eq)]
pub struct AdvancedFsUserConfig {
    pub mode: FsModeConfig,
    pub read_write: Option<String>,
    pub read_only: Option<String>,
    pub local: Option<String>,
}

impl View for AdvancedFsUserConfig {
    type V = FsConfigView;

    open spec fn view(&self) -> FsConfigView {
        FsConfigView {
            mode: self.mode,
            read_write: text_view(self.read_write),
            read_only: text_view(self.read_only),
            local: text_view(self.local),
        }
    }
}

/// The first of two settings that is there.
pub open spec fn first_of(first: Option<Seq<char>>, second: Option<Seq<char>>) -> Option<
    Seq<char>,
> {
    match first {
        Some(_) => first,
        None => second,
    }
}

/// The settings in force for a mode with patterns: each taken from the
/// environment where it is set there.
pub open spec fn generated_advanced(user: FsConfigView, env: FsEnvView) -> Result<
    FsConfigView,
    ConfigErrorView,
> {
    match generated_mode(user.mode, env) {
        Err(e) => Err(e),
        Ok(mode) => Ok(
            FsConfigView {
                mode,
                read_write: first_of(env.read_write_pattern, user.read_write),
                read_only: first_of(env.read_only_pattern, user.read_only),
                local: first_of(env.local_pattern, user.local),
            },
        ),
    }
}

fn pick(first: &Option<String>, second: Option<String>) -> (r: Option<String>)
    ensures
        text_view(r) == first_of(text_view(*first), text_view(second)),
{
    match first {
        Some(text) => Some(text.clone()),
        None => second,
    }
}

impl AdvancedFsUserConfig {
    /// The settings in force: the mode and each pattern as the environment
    /// sets it, or else as the user wrote it.
    pub fn generate_config(self, env: &FsEnv) -> (r: Result<FsConfig, ConfigError>)
        ensures
            match r {
                Ok(config) => generated_advanced(self@, env@) == Ok::<
                    FsConfigView,
                    ConfigErrorView,
                >(config@),
                Err(e) => generated_advanced(self@, env@) == Err::<FsConfigView, ConfigErrorView>(
                    e@,
                ),
            },
    {
        let mode = match self.mode.generate_config(env) {
            Ok(mode) => mode,
            Err(e) => {
                return Err(e);
            },
        };
        Ok(
            FsConfig {
                mode,
                read_write: pick(&env.read_write_pattern, self.read_write),
                read_only: pick(&env.read_only_pattern, self.read_only),
                local: pick(&env.local_pattern, self.local),
            },
        )
    }
}

/// What the user wrote about file operations.
#[derive(Clone, Debug, PartialEq, Eq)]
pub enum FsUserConfig {
    /// A mode alone.
    Simple(FsModeConfig),
    /// A mode with patterns that override it.
    Advanced(AdvancedFsUserConfig),
}

pub enum FsUserConfigView {
    Simple(FsModeConfig),
    Advanced(FsConfigView),
}

impl View for FsUserConfig {
    type V = FsUserConfigView;

    open spec fn view(&self) -> FsUserConfigView {
        match self {
            FsUserConfig::Simple(mode) => FsUserConfigView::Simple(*mode),
            FsUserConfig::Advanced(advanced) => FsUserConfigView::Advanced(advanced@),
        }
    }
}

/// The settings in force for a mode alone: the mode as the environment
/// overrides it, and the patterns of the environment.
pub open spec fn generated_simple(mode: FsModeConfig, env: FsEnvView) -> Result<
    FsConfigView,
    ConfigErrorView,
> {
    match generated_mode(mode, env) {
        Err(e) => Err(e),
        Ok(mode) => Ok(
            FsConfigView {
                mode,
                read_write: env.read_write_pattern,
                read_only: env.read_only_pattern,
                local: env.local_pattern,
            },
        ),
    }
}

/// The settings in force for what the user wrote.
pub open spec fn generated(user: FsUserConfigView, env: FsEnvView) -> Result<
    FsConfigView,
    ConfigErrorView,
> {
    match user {
        FsUserConfigView::Simple(mode) => generated_simple(mode, env),
        FsUserConfigView::Advanced(advanced) => generated_advanced(advanced, env),
    }
}

impl Default for FsUserConfig {
    fn default() -> (r: Self)
        ensures
            r@ == FsUserConfigView::Simple(FsModeConfig::Read),
    {
        FsUserConfig::Simple(FsModeConfig::Read)
    }
}

fn copy_of(text: &Option<String>) -> (r: Option<String>)
    ensures
        text_view(r) == text_view(*text),
{
    match text {
        Some(t) => Some(t.clone()),
        None => None,
    }
}

impl FsUserConfig {
    /// The settings in force for what the user wrote, with the environment
    /// as `env` holds it.
    pub fn generate_config(self, env: &FsEnv) -> (r: Result<FsConfig, ConfigError>)
        ensures
            match r {
                Ok(config) => generated(self@, env@) == Ok::<FsConfigView, ConfigErrorView>(
                    config@,
                ),
                Err(e) => generated(self@, env@) == Err::<FsConfigView, ConfigErrorView>(e@),
            },
    {
        match self {
            FsUserConfig::Simple(mode) => {
                let mode = match mode.generate_config(env) {
                    Ok(mode) => mode,
                    Err(e) => {
                        return Err(e);
                    },
                };
                Ok(
                    FsConfig {
                        mode,
                        read_write: copy_of(&env.read_write_pattern),
                        read_only: copy_of(&env.read_only_pattern),
                        local: copy_of(&env.local_pattern),
                    },
                )
            },
            FsUserConfig::Advanced(advanced) => advanced.generate_config(env),
        }
    }

    /// The settings in force when the user switched file operations off, with
    /// the environment as `env` holds it: no mode unless the environment asks
    /// for one, and the patterns of the environment.
    pub fn disabled_config(env: &FsEnv) -> (r: Result<FsConfig, ConfigError>)
        ensures
            match r {
                Ok(config) => generated_simple(FsModeConfig::Disabled, env@) == Ok::<
                    FsConfigView,
                    ConfigErrorView,
                >(config@),
                Err(e) => generated_simple(FsModeConfig::Disabled, env@) == Err::<
                    FsConfigView,
                    ConfigErrorView,
                >(e@),
            },
    {
        let mode = match FsModeConfig::disabled_config(env) {
            Ok(mode) => mode,
            Err(e) => {
                return Err(e);
            },
        };
        Ok(
            FsConfig {
                mode,
                read_write: copy_of(&env.read_write_pattern),
                read_only: copy_of(&env.read_only_pattern),
                local: copy_of(&env.local_pattern),
            },
        )
    }
}

} // verus!
