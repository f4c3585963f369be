//! Data profiles, data environments and where the database lives.

use vstd::prelude::*;

use crate::text::{
    append_str, ascii_lower, push_char, str_eq, to_ascii_lowercase, trim, trim_chars,
};

verus! {

/// The environment variable that names a profile.
pub const PROFILE_ENV: &'static str = "IPPO_PROFILE";

/// The environment variable that names a database path.
pub const DATABASE_ENV: &'static str = "IPPO_DATABASE";

/// A named data profile: the user's own data, or the isolated development
/// data, which only debug builds offer.
#[derive(Debug, Clone, Copy, PartialEq, Eq, Structural)]
pub enum Profile {
    Personal,
    Dev,
}

/// The kind of executable that runs: a debug build made from a source
/// checkout, or a release build, which offers only the personal profile.
#[derive(Debug, Clone, Copy, PartialEq, Eq, Structural)]
pub enum Build {
    Debug,
    Release,
}

/// The class of data that a database holds.
#[derive(Debug, Clone, Copy, PartialEq, Eq, Structural)]
pub enum DataEnvironment {
    Personal,
    Development,
    Test,
}

/// Why a configuration could not be resolved.
#[derive(Debug)]
pub enum ConfigError {
    InvalidProfile(String),
    InvalidDatabaseEnvironment(String),
    NonUnicodeProfile,
    MissingDataDirectory,
}

pub open spec fn profile_environment(p: Profile) -> DataEnvironment {
    match p {
        Profile::Personal => DataEnvironment::Personal,
        Profile::Dev => DataEnvironment::Development,
    }
}

pub open spec fn profile_label(p: Profile) -> Seq<char> {
    match p {
        Profile::Personal => "personal"@,
        Profile::Dev => "dev"@,
    }
}

pub open spec fn environment_label(e: DataEnvironment) -> Seq<char> {
    match e {
        DataEnvironment::Personal => "personal"@,
        DataEnvironment::Development => "development"@,
        DataEnvironment::Test => "test"@,
    }
}

/// The profile that a user-supplied name selects: trimmed, compared without
/// regard to ASCII case, with `development` as another name for `dev`, which
/// only a debug build knows.
pub open spec fn profile_named(normalized: Seq<char>, build: Build) -> Option<Profile> {
    if normalized == "personal"@ {
        Some(Profile::Personal)
    } else if build == Build::Debug && (normalized == "dev"@ || normalized == "development"@) {
        Some(Profile::Dev)
    } else {
        None
    }
}

/// The environment whose stored identity is exactly `s`.
pub open spec fn environment_named(s: Seq<char>) -> Option<DataEnvironment> {
    if s == "personal"@ {
        Some(DataEnvironment::Personal)
    } else if s == "development"@ {
        Some(DataEnvironment::Development)
    } else if s == "test"@ {
        Some(DataEnvironment::Test)
    } else {
        None
    }
}

impl Profile {
    /// The data environment that this profile reads and writes.
    pub fn environment(self) -> (r: DataEnvironment)
        ensures
            r == profile_environment(self),
    {
        match self {
            Profile::Personal => DataEnvironment::Personal,
            Profile::Dev => DataEnvironment::Development,
        }
    }

    /// The profile's name.
    pub fn as_str(self) -> (r: &'static str)
        ensures
            r@ == profile_label(self),
    {
        match self {
            Profile::Personal => "personal",
            Profile::Dev => "dev",
        }
    }

    /// Reads a profile name as a user writes it.
    pub fn parse(value: &str, build: Build) -> (r: Result<Profile, ConfigError>)
        ensures
            r matches Ok(p) ==> profile_named(ascii_lower(trim_chars(value@)), build) == Some(p),
            r is Err ==> profile_named(ascii_lower(trim_chars(value@)), build) is None,
            r matches Err(e) ==> e matches ConfigError::InvalidProfile(s) && s@ == ascii_lower(
                trim_chars(value@),
            ),
    {
        let trimmed = trim(value);
        let normalized = to_ascii_lowercase(trimmed.as_str());
        proof {
            reveal_strlit("personal");
            reveal_strlit("dev");
            reveal_strlit("development");
        }
        if str_eq(normalized.as_str(), "personal") {
            Ok(Profile::Personal)
        } else if build == Build::Debug && (str_eq(normalized.as_str(), "dev") || str_eq(
            normalized.as_str(),
            "development",
        )) {
            Ok(Profile::Dev)
        } else {
            Err(ConfigError::InvalidProfile(normalized))
        }
    }
}

impl DataEnvironment {
    /// The identity that a database of this environment stores.
    pub fn as_str(self) -> (r: &'static str)
        ensures
            r@ == environment_label(self),
    {
        match self {
            DataEnvironment::Personal => "personal",
            DataEnvironment::Development => "development",
            DataEnvironment::Test => "test",
        }
    }

    /// Whether this is the user's own data.
    pub fn is_personal(self) -> (r: bool)
        ensures
            r == (self == DataEnvironment::Personal),
    {
        match self {
            DataEnvironment::Personal => true,
            _ => false,
        }
    }

    /// Reads a stored identity; only the exact labels are accepted.
    pub fn parse(value: &str) -> (r: Result<DataEnvironment, ConfigError>)
        ensures
            r matches Ok(e) ==> environment_named(value@) == Some(e),
            r is Err ==> environment_named(value@) is None,
            r matches Err(e) ==> e matches ConfigError::InvalidDatabaseEnvironment(s) && s@
                == value@,
    {
        proof {
            reveal_strlit("personal");
            reveal_strlit("development");
            reveal_strlit("test");
        }
        if str_eq(value, "personal") {
            Ok(DataEnvironment::Personal)
        } else if str_eq(value, "development") {
            Ok(DataEnvironment::Development)
        } else if str_eq(value, "test") {
            Ok(DataEnvironment::Test)
        } else {
            Err(ConfigError::InvalidDatabaseEnvironment(value.to_string()))
        }
    }
}

/// Each environment's label reads back as that environment.
pub proof fn lemma_environment_label_round_trip(e: DataEnvironment)
    ensures
        environment_named(environment_label(e)) == Some(e),
{
    reveal_strlit("personal");
    reveal_strlit("development");
    reveal_strlit("test");
    match e {
        DataEnvironment::Personal => {},
        DataEnvironment::Development => {
            assert("development"@.len() != "personal"@.len());
        },
        DataEnvironment::Test => {
            assert("test"@.len() != "personal"@.len());
            assert("test"@.len() != "development"@.len());
        },
    }
}

/// Each profile's label reads back as that profile in a debug build; a
/// release build reads back only the personal profile.
pub proof fn lemma_profile_label_round_trip(p: Profile, build: Build)
    requires
        build == Build::Debug || p == Profile::Personal,
    ensures
        profile_named(ascii_lower(trim_chars(profile_label(p))), build) == Some(p),
{
    reveal_strlit("personal");
    reveal_strlit("dev");
    reveal_strlit("development");
    let s = profile_label(p);
    assert(s.len() > 0 && !crate::text::is_white_space(s[0]));
    assert(crate::text::trim_start_chars(s) == s);
    assert(!crate::text::is_white_space(s.last()));
    assert(crate::text::trim_end_chars(s) == s);
    assert forall|i: int| 0 <= i < s.len() implies crate::text::ascii_lower_char(s[i]) == s[i] by {
    }
    assert(ascii_lower(s) =~= s);
    match p {
        Profile::Personal => {
            assert(s == "personal"@);
        },
        Profile::Dev => {
            assert(s != "personal"@);
            assert(s == "dev"@);
        },
    }
}

impl ConfigError {
    /// The message shown for this error by a build of the given kind.
    pub fn message(&self, build: Build) -> (r: String)
        ensures
            r@ == config_error_message(self, build),
    {
        let mut s = String::new();
        match self {
            ConfigError::InvalidProfile(value) => {
                append_str(&mut s, "invalid ippo profile '");
                append_str(&mut s, value.as_str());
                match build {
                    Build::Debug => append_str(&mut s, "'; expected 'personal' or 'dev'"),
                    Build::Release => append_str(
                        &mut s,
                        "'; release builds support only 'personal'",
                    ),
                }
            },
            ConfigError::InvalidDatabaseEnvironment(value) => {
                append_str(&mut s, "database contains an invalid environment identity '");
                append_str(&mut s, value.as_str());
                append_str(&mut s, "'");
            },
            ConfigError::NonUnicodeProfile => append_str(
                &mut s,
                "IPPO_PROFILE is not valid Unicode",
            ),
            ConfigError::MissingDataDirectory => append_str(
                &mut s,
                "could not determine the platform application-data directory",
            ),
        }
        s
    }
}

pub open spec fn config_error_message(e: &ConfigError, build: Build) -> Seq<char> {
    match e {
        ConfigError::InvalidProfile(value) => "invalid ippo profile '"@ + value@ + match build {
            Build::Debug => "'; expected 'personal' or 'dev'"@,
            Build::Release => "'; release builds support only 'personal'"@,
        },
        ConfigError::InvalidDatabaseEnvironment(value) =>
            "database contains an invalid environment identity '"@ + value@ + "'"@,
        ConfigError::NonUnicodeProfile => "IPPO_PROFILE is not valid Unicode"@,
        ConfigError::MissingDataDirectory =>
            "could not determine the platform application-data directory"@,
    }
}

/// What the command line asked for.
#[derive(Debug)]
pub struct RuntimeOptions {
    pub profile: Option<Profile>,
    pub database: Option<String>,
}

impl Default for RuntimeOptions {
    fn default() -> (r: Self)
        ensures
            r.profile is None,
            r.database is None,
    {
        RuntimeOptions { profile: None, database: None }
    }
}

/// The value of an environment variable that is set.
#[derive(Debug)]
pub enum EnvironmentValue {
    /// The value is valid Unicode.
    Text(String),
    /// The value is set but is not valid Unicode.
    NotUnicode,
}

/// The operating-system family whose data-directory convention applies.
#[derive(Debug, Clone, Copy, PartialEq, Eq, Structural)]
pub enum Platform {
    /// Linux and the other Unix systems: the XDG base directories.
    Unix,
    MacOs,
    Windows,
}

/// The directories that the data root is derived from.
#[derive(Debug)]
pub struct PlatformRoots {
    pub platform: Platform,
    pub home: Option<String>,
    pub xdg_data: Option<String>,
    pub local_app_data: Option<String>,
}

/// The values that configuration reads from the process environment.
#[derive(Debug)]
pub struct ProcessEnvironment {
    pub profile: Option<EnvironmentValue>,
    pub database: Option<String>,
    pub roots: PlatformRoots,
}

/// The data environment in effect for a run.
#[derive(Debug)]
pub struct RuntimeConfig {
    pub profile: Profile,
    pub environment: DataEnvironment,
    pub database_path: String,
    pub database_overridden: bool,
}

/// Whether `c` separates path components on `platform`.
pub open spec fn is_separator(c: char, platform: Platform) -> bool {
    c == '/' || (platform == Platform::Windows && c == '\\')
}

/// A Windows path that is only a drive, such as `C:`.
pub open spec fn is_bare_drive(s: Seq<char>) -> bool {
    s.len() == 2 && s[1] == ':' && (('a' <= s[0] <= 'z') || ('A' <= s[0] <= 'Z'))
}

/// `base` with the relative component `part` adjoined: a separator is put
/// between them unless `base` is empty, already ends with a separator, or is
/// a bare Windows drive.
pub open spec fn joined(base: Seq<char>, part: Seq<char>, platform: Platform) -> Seq<char> {
    let need_separator = base.len() > 0 && !is_separator(base.last(), platform) && !(platform
        == Platform::Windows && is_bare_drive(base));
    let separator = if platform == Platform::Windows { '\\' } else { '/' };
    if need_separator {
        base.push(separator) + part
    } else {
        base + part
    }
}

/// The application-data directory of ippo, or `None` where the directory it
/// derives from is unknown.
pub open spec fn data_root(roots: PlatformRoots) -> Option<Seq<char>> {
    match roots.platform {
        Platform::MacOs => match roots.home {
            Some(home) => Some(
                joined(
                    joined(joined(home@, "Library"@, roots.platform), "Application Support"@, roots.platform),
                    "ippo"@,
                    roots.platform,
                ),
            ),
            None => None,
        },
        Platform::Windows => match roots.local_app_data {
            Some(local) => Some(joined(local@, "ippo"@, roots.platform)),
            None => None,
        },
        Platform::Unix => match roots.xdg_data {
            Some(xdg) => Some(joined(xdg@, "ippo"@, roots.platform)),
            None => match roots.home {
                Some(home) => Some(
                    joined(
                        joined(joined(home@, ".local"@, roots.platform), "share"@, roots.platform),
                        "ippo"@,
                        roots.platform,
                    ),
                ),
                None => None,
            },
        },
    }
}

/// The database that a profile uses under a data root.
pub open spec fn profile_database(root: Seq<char>, profile: Profile, platform: Platform) -> Seq<
    char,
> {
    match profile {
        Profile::Personal => joined(root, "ippo.db"@, platform),
        Profile::Dev => joined(
            joined(joined(root, "profiles"@, platform), "dev"@, platform),
            "ippo.db"@,
            platform,
        ),
    }
}

/// The profile that a run uses: the command line's, else the environment
/// variable's, else the personal profile. `None` where the environment
/// variable is set to a value that names no profile.
pub open spec fn chosen_profile(
    option: Option<Profile>,
    env_profile: Option<EnvironmentValue>,
    build: Build,
) -> Option<Profile> {
    match option {
        Some(p) => Some(p),
        None => match env_profile {
            Some(EnvironmentValue::Text(value)) => profile_named(
                ascii_lower(trim_chars(value@)),
                build,
            ),
            Some(EnvironmentValue::NotUnicode) => None,
            None => Some(Profile::Personal),
        },
    }
}

/// Adjoins a relative path component.
pub fn join_path(base: &str, part: &str, platform: Platform) -> (r: String)
    ensures
        r@ == joined(base@, part@, platform),
{
    let n = base.unicode_len();
    let mut need_separator = n > 0;
    if n > 0 {
        let last = base.get_char(n - 1);
        if last == '/' || (platform == Platform::Windows && last == '\\') {
            need_separator = false;
        }
        if platform == Platform::Windows && n == 2 {
            let first = base.get_char(0);
            if base.get_char(1) == ':' && (('a' <= first && first <= 'z') || ('A' <= first && first
                <= 'Z')) {
                need_separator = false;
            }
        }
    }
    let mut s = base.to_string();
    if need_separator {
        if platform == Platform::Windows {
            push_char(&mut s, '\\');
        } else {
            push_char(&mut s, '/');
        }
    }
    append_str(&mut s, part);
    s
}

/// The directory where ippo keeps its data on this platform.
pub fn platform_data_root(roots: &PlatformRoots) -> (r: Result<String, ConfigError>)
    ensures
        r is Ok <==> data_root(*roots) is Some,
        r matches Ok(path) ==> path@ == data_root(*roots)->0,
        r matches Err(e) ==> e is MissingDataDirectory,
{
    let platform = roots.platform;
    match platform {
        Platform::MacOs => match &roots.home {
            Some(home) => {
                let a = join_path(home.as_str(), "Library", platform);
                let b = join_path(a.as_str(), "Application Support", platform);
                Ok(join_path(b.as_str(), "ippo", platform))
            },
            None => Err(ConfigError::MissingDataDirectory),
        },
        Platform::Windows => match &roots.local_app_data {
            Some(local) => Ok(join_path(local.as_str(), "ippo", platform)),
            None => Err(ConfigError::MissingDataDirectory),
        },
        Platform::Unix => match &roots.xdg_data {
            Some(xdg) => Ok(join_path(xdg.as_str(), "ippo", platform)),
            None => match &roots.home {
                Some(home) => {
                    let a = join_path(home.as_str(), ".local", platform);
                    let b = join_path(a.as_str(), "share", platform);
                    Ok(join_path(b.as_str(), "ippo", platform))
                },
                None => Err(ConfigError::MissingDataDirectory),
            },
        },
    }
}

/// The database that a profile uses by default on this platform.
pub fn default_database_path(profile: Profile, roots: &PlatformRoots) -> (r: Result<
    String,
    ConfigError,
>)
    ensures
        r is Ok <==> data_root(*roots) is Some,
        r matches Ok(path) ==> path@ == profile_database(
            data_root(*roots)->0,
            profile,
            roots.platform,
        ),
        r matches Err(e) ==> e is MissingDataDirectory,
{
    let root = platform_data_root(roots)?;
    let platform = roots.platform;
    let path = match profile {
        Profile::Personal => join_path(root.as_str(), "ippo.db", platform),
        Profile::Dev => {
            let a = join_path(root.as_str(), "profiles", platform);
            let b = join_path(a.as_str(), "dev", platform);
            join_path(b.as_str(), "ippo.db", platform)
        },
    };
    Ok(path)
}

/// A path as text, for display.
pub fn display_path(path: &str) -> (r: String)
    ensures
        r@ == path@,
{
    path.to_string()
}

impl RuntimeConfig {
    /// Resolves the data environment from the command line and the process
    /// environment, for a build of the given kind.
    pub fn resolve(options: RuntimeOptions, process: ProcessEnvironment, build: Build) -> (r: Result<
        RuntimeConfig,
        ConfigError,
    >)
        requires
            build == Build::Release ==> options.profile != Some(Profile::Dev),
        ensures
            resolution_matches(options, process.profile, process.database, process.roots, build, r),
    {
        RuntimeConfig::resolve_from(
            options,
            process.profile,
            process.database,
            process.roots,
            build,
        )
    }

    /// Resolves the data environment. The database is, from highest to
    /// lowest precedence: the command line's path, `IPPO_DATABASE`, the
    /// chosen profile's default path. The profile is the command line's,
    /// else `IPPO_PROFILE`'s, else the personal profile; a release build,
    /// whose command line offers only the personal profile, refuses `dev`.
    pub fn resolve_from(
        options: RuntimeOptions,
        env_profile: Option<EnvironmentValue>,
        env_database: Option<String>,
        roots: PlatformRoots,
        build: Build,
    ) -> (r: Result<RuntimeConfig, ConfigError>)
        requires
            build == Build::Release ==> options.profile != Some(Profile::Dev),
        ensures
            resolution_matches(options, env_profile, env_database, roots, build, r),
    {
        let profile = match options.profile {
            Some(profile) => profile,
            None => match env_profile {
                Some(EnvironmentValue::Text(value)) => Profile::parse(value.as_str(), build)?,
                Some(EnvironmentValue::NotUnicode) => {
                    return Err(ConfigError::NonUnicodeProfile);
                },
                None => Profile::Personal,
            },
        };
        let database_override = match options.database {
            Some(path) => Some(path),
            None => env_database,
        };
        let database_overridden = database_override.is_some();
        let database_path = match database_override {
            Some(path) => path,
            None => default_database_path(profile, &roots)?,
        };
        Ok(RuntimeConfig {
            profile,
            environment: profile.environment(),
            database_path,
            database_overridden,
        })
    }
}

/// What `resolve_from` owes: the chosen profile and its environment, the
/// path of highest precedence, and each error exactly where it arises.
pub open spec fn resolution_matches(
    options: RuntimeOptions,
    env_profile: Option<EnvironmentValue>,
    env_database: Option<String>,
    roots: PlatformRoots,
    build: Build,
    r: Result<RuntimeConfig, ConfigError>,
) -> bool {
    let profile = chosen_profile(options.profile, env_profile, build);
    let overridden = options.database is Some || env_database is Some;
    match r {
        Ok(config) => {
            &&& profile == Some(config.profile)
            &&& config.environment == profile_environment(config.profile)
            &&& config.database_overridden == overridden
            &&& config.database_path@ == match options.database {
                Some(path) => path@,
                None => match env_database {
                    Some(path) => path@,
                    None => profile_database(data_root(roots)->0, config.profile, roots.platform),
                },
            }
            &&& !overridden ==> data_root(roots) is Some
        },
        Err(e) => {
            ||| profile is None && options.profile is None && (match env_profile {
                Some(EnvironmentValue::NotUnicode) => e is NonUnicodeProfile,
                Some(EnvironmentValue::Text(value)) => e matches ConfigError::InvalidProfile(s)
                    && s@ == ascii_lower(trim_chars(value@)),
                None => false,
            })
            ||| profile is Some && !overridden && data_root(roots) is None
                && e is MissingDataDirectory
        },
    }
}

} // verus!
