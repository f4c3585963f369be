use ippo::config::{
    default_database_path, display_path, platform_data_root, Build, ConfigError, DataEnvironment,
    EnvironmentValue, Platform, PlatformRoots, ProcessEnvironment, Profile, RuntimeConfig,
    RuntimeOptions,
};

fn roots() -> PlatformRoots {
    PlatformRoots {
        platform: Platform::Unix,
        home: Some("/test-home".to_string()),
        xdg_data: Some("/test-xdg".to_string()),
        local_app_data: None,
    }
}

#[test]
fn explicit_profile_beats_environment_profile() {
    let config = RuntimeConfig::resolve_from(
        RuntimeOptions {
            profile: Some(Profile::Personal),
            database: None,
        },
        Some(EnvironmentValue::Text("dev".to_string())),
        None,
        roots(),
        Build::Debug,
    )
    .expect("configuration should resolve");

    assert_eq!(config.profile, Profile::Personal);
    assert_eq!(config.environment, DataEnvironment::Personal);
}

#[test]
fn explicit_database_beats_environment_database() {
    let config = RuntimeConfig::resolve_from(
        RuntimeOptions {
            profile: Some(Profile::Dev),
            database: Some("explicit.db".to_string()),
        },
        None,
        Some("environment.db".to_string()),
        roots(),
        Build::Debug,
    )
    .expect("configuration should resolve");

    assert_eq!(config.database_path, "explicit.db");
    assert!(config.database_overridden);
}

#[test]
fn environment_profile_selects_development_database() {
    let config = RuntimeConfig::resolve_from(
        RuntimeOptions::default(),
        Some(EnvironmentValue::Text("dev".to_string())),
        None,
        roots(),
        Build::Debug,
    )
    .expect("configuration should resolve");

    assert_eq!(config.profile, Profile::Dev);
    assert_eq!(config.environment, DataEnvironment::Development);
    assert!(config.database_path.ends_with("profiles/dev/ippo.db"));
}

#[test]
fn no_profile_defaults_to_personal() {
    let config = RuntimeConfig::resolve_from(RuntimeOptions::default(), None, None, roots(), Build::Debug)
        .expect("configuration should resolve");

    assert_eq!(config.profile, Profile::Personal);
    assert_eq!(config.environment, DataEnvironment::Personal);
    assert!(config.database_path.ends_with("ippo.db"));
}

#[test]
fn default_paths_follow_the_platform_conventions() {
    let config = RuntimeConfig::resolve_from(RuntimeOptions::default(), None, None, roots(), Build::Debug).unwrap();
    assert_eq!(config.database_path, "/test-xdg/ippo/ippo.db");
    assert!(!config.database_overridden);

    let no_xdg = PlatformRoots {
        platform: Platform::Unix,
        home: Some("/home/ana/".to_string()),
        xdg_data: None,
        local_app_data: None,
    };
    assert_eq!(
        default_database_path(Profile::Dev, &no_xdg).unwrap(),
        "/home/ana/.local/share/ippo/profiles/dev/ippo.db"
    );

    let mac = PlatformRoots {
        platform: Platform::MacOs,
        home: Some("/Users/ana".to_string()),
        xdg_data: Some("/ignored".to_string()),
        local_app_data: None,
    };
    assert_eq!(
        platform_data_root(&mac).unwrap(),
        "/Users/ana/Library/Application Support/ippo"
    );

    let windows = PlatformRoots {
        platform: Platform::Windows,
        home: None,
        xdg_data: None,
        local_app_data: Some("C:/test-local".to_string()),
    };
    assert_eq!(
        default_database_path(Profile::Personal, &windows).unwrap(),
        "C:/test-local\\ippo\\ippo.db"
    );
    let drive = PlatformRoots {
        platform: Platform::Windows,
        home: None,
        xdg_data: None,
        local_app_data: Some("D:".to_string()),
    };
    assert_eq!(platform_data_root(&drive).unwrap(), "D:ippo");
}

#[test]
fn missing_directories_are_reported() {
    let bare = PlatformRoots {
        platform: Platform::Unix,
        home: None,
        xdg_data: None,
        local_app_data: Some("/unused".to_string()),
    };
    assert!(matches!(
        RuntimeConfig::resolve_from(RuntimeOptions::default(), None, None, bare, Build::Debug),
        Err(ConfigError::MissingDataDirectory)
    ));
    // An explicit database needs no data directory.
    let bare = PlatformRoots {
        platform: Platform::Windows,
        home: Some("/home".to_string()),
        xdg_data: None,
        local_app_data: None,
    };
    let config =
        RuntimeConfig::resolve_from(
            RuntimeOptions::default(),
            None,
            Some("x.db".to_string()),
            bare,
            Build::Debug,
        )
            .unwrap();
    assert_eq!(config.database_path, "x.db");
    assert!(config.database_overridden);
}

#[test]
fn environment_profile_is_trimmed_and_case_insensitive() {
    for value in [" DEV ", "Development", "dev"] {
        let config = RuntimeConfig::resolve_from(
            RuntimeOptions::default(),
            Some(EnvironmentValue::Text(value.to_string())),
            None,
            roots(),
            Build::Debug,
        )
        .unwrap();
        assert_eq!(config.profile, Profile::Dev);
    }
    let config = RuntimeConfig::resolve_from(
        RuntimeOptions::default(),
        Some(EnvironmentValue::Text("\tPersonal\n".to_string())),
        None,
        roots(),
        Build::Debug,
    )
    .unwrap();
    assert_eq!(config.profile, Profile::Personal);
}

#[test]
fn invalid_and_non_unicode_profiles_are_refused() {
    match RuntimeConfig::resolve_from(
        RuntimeOptions::default(),
        Some(EnvironmentValue::Text(" Staging ".to_string())),
        None,
        roots(),
        Build::Debug,
    ) {
        Err(ConfigError::InvalidProfile(value)) => assert_eq!(value, "staging"),
        other => panic!("unexpected {:?}", other),
    }
    assert!(matches!(
        RuntimeConfig::resolve_from(
            RuntimeOptions::default(),
            Some(EnvironmentValue::NotUnicode),
            None,
            roots(),
            Build::Debug
        ),
        Err(ConfigError::NonUnicodeProfile)
    ));
    // An explicit profile means the environment profile is not read.
    assert!(RuntimeConfig::resolve_from(
        RuntimeOptions {
            profile: Some(Profile::Dev),
            database: None
        },
        Some(EnvironmentValue::NotUnicode),
        None,
        roots(),
        Build::Debug
    )
    .is_ok());
}

#[test]
fn resolve_reads_the_process_environment_values() {
    let config = RuntimeConfig::resolve(
        RuntimeOptions::default(),
        ProcessEnvironment {
            profile: Some(EnvironmentValue::Text("dev".to_string())),
            database: Some("/tmp/other.db".to_string()),
            roots: roots(),
        },
        Build::Debug,
    )
    .unwrap();
    assert_eq!(config.profile, Profile::Dev);
    assert_eq!(config.database_path, "/tmp/other.db");
    assert!(config.database_overridden);
}

#[test]
fn profiles_and_environments_have_labels() {
    assert_eq!(Profile::Personal.as_str(), "personal");
    assert_eq!(Profile::Dev.as_str(), "dev");
    assert_eq!(Profile::Dev.environment(), DataEnvironment::Development);
    assert_eq!(Profile::Personal.environment(), DataEnvironment::Personal);
    for e in [
        DataEnvironment::Personal,
        DataEnvironment::Development,
        DataEnvironment::Test,
    ] {
        assert_eq!(DataEnvironment::parse(e.as_str()).unwrap(), e);
    }
    assert!(DataEnvironment::Personal.is_personal());
    assert!(!DataEnvironment::Test.is_personal());
    assert!(matches!(
        DataEnvironment::parse("Personal"),
        Err(ConfigError::InvalidDatabaseEnvironment(_))
    ));
    assert_eq!(Profile::parse(" dev\n", Build::Debug).unwrap(), Profile::Dev);
}

#[test]
fn config_errors_have_their_messages() {
    assert_eq!(
        ConfigError::InvalidProfile("x".to_string()).message(Build::Debug),
        "invalid ippo profile 'x'; expected 'personal' or 'dev'"
    );
    assert_eq!(
        ConfigError::InvalidDatabaseEnvironment("y".to_string()).message(Build::Debug),
        "database contains an invalid environment identity 'y'"
    );
    assert_eq!(
        ConfigError::NonUnicodeProfile.message(Build::Debug),
        "IPPO_PROFILE is not valid Unicode"
    );
    assert_eq!(
        ConfigError::MissingDataDirectory.message(Build::Debug),
        "could not determine the platform application-data directory"
    );
}

#[test]
fn display_path_keeps_the_text() {
    assert_eq!(display_path("/tmp/ippo-dev.db"), "/tmp/ippo-dev.db");
}

#[test]
fn release_builds_offer_only_the_personal_profile() {
    for value in ["dev", " Development "] {
        match RuntimeConfig::resolve_from(
            RuntimeOptions::default(),
            Some(EnvironmentValue::Text(value.to_string())),
            None,
            roots(),
            Build::Release,
        ) {
            Err(error) => assert_eq!(
                error.message(Build::Release),
                format!(
                    "invalid ippo profile '{}'; release builds support only 'personal'",
                    value.trim().to_ascii_lowercase()
                )
            ),
            other => panic!("unexpected {:?}", other),
        }
    }
    let config = RuntimeConfig::resolve_from(
        RuntimeOptions::default(),
        Some(EnvironmentValue::Text("personal".to_string())),
        None,
        roots(),
        Build::Release,
    )
    .unwrap();
    assert_eq!(config.profile, Profile::Personal);
    assert!(Profile::parse("dev", Build::Release).is_err());
}
