use stealer::fs::{
    AdvancedFsUserConfig, ConfigError, FsConfig, FsEnv, FsModeConfig, FsUserConfig,
    FILE_OPS_VARIABLE, FILE_RO_OPS_VARIABLE,
};
use stealer::stealer::flush_connections;

fn empty_env() -> FsEnv {
    FsEnv {
        file_ops: None,
        file_ro_ops: None,
        read_write_pattern: None,
        read_only_pattern: None,
        local_pattern: None,
    }
}

fn text(value: &str) -> Option<String> {
    Some(value.to_string())
}

#[test]
fn fs_config_default() {
    let expect = FsConfig { mode: FsModeConfig::Read, ..Default::default() };
    let fs_config = FsUserConfig::default().generate_config(&empty_env()).unwrap();
    assert_eq!(fs_config, expect);
    assert_eq!(expect.read_write, None);
    assert_eq!(expect.read_only, None);
    assert_eq!(expect.local, None);
}

#[test]
fn fs_user_config_defaults_to_read() {
    assert_eq!(FsUserConfig::default(), FsUserConfig::Simple(FsModeConfig::Read));
    assert_eq!(FsModeConfig::default(), FsModeConfig::Read);
}

#[test]
fn mode_from_the_flags_of_the_environment() {
    let table = [
        (None, None, None),
        (Some(true), None, Some(FsModeConfig::Write)),
        (Some(true), Some(true), Some(FsModeConfig::Write)),
        (Some(true), Some(false), Some(FsModeConfig::Write)),
        (Some(false), Some(true), Some(FsModeConfig::Read)),
        (None, Some(true), Some(FsModeConfig::Read)),
        (Some(false), Some(false), Some(FsModeConfig::Disabled)),
        (None, Some(false), Some(FsModeConfig::Disabled)),
        (Some(false), None, Some(FsModeConfig::Disabled)),
    ];
    for (file_ops, file_ro_ops, expected) in table {
        assert_eq!(FsModeConfig::from_env_logic(file_ops, file_ro_ops), expected);
    }
}

#[test]
fn simple_config_takes_mode_and_patterns_from_the_environment() {
    let env = FsEnv {
        file_ops: text("true"),
        file_ro_ops: None,
        read_write_pattern: text("/var/run"),
        read_only_pattern: text("/etc"),
        local_pattern: text("/lib"),
    };
    let config = FsUserConfig::Simple(FsModeConfig::Disabled).generate_config(&env).unwrap();
    assert_eq!(
        config,
        FsConfig {
            mode: FsModeConfig::Write,
            read_write: text("/var/run"),
            read_only: text("/etc"),
            local: text("/lib"),
        }
    );
}

#[test]
fn simple_config_keeps_its_mode_without_flags() {
    let config = FsUserConfig::Simple(FsModeConfig::Write).generate_config(&empty_env()).unwrap();
    assert_eq!(config.mode, FsModeConfig::Write);
}

#[test]
fn advanced_config_is_overridden_by_the_environment() {
    let advanced = AdvancedFsUserConfig {
        mode: FsModeConfig::Read,
        read_write: text("/mine"),
        read_only: None,
        local: text("/local"),
    };
    let env = FsEnv {
        file_ops: text("false"),
        file_ro_ops: text("false"),
        read_write_pattern: text("/theirs"),
        read_only_pattern: text("/etc"),
        local_pattern: None,
    };
    let config = FsUserConfig::Advanced(advanced.clone()).generate_config(&env).unwrap();
    assert_eq!(
        config,
        FsConfig {
            mode: FsModeConfig::Disabled,
            read_write: text("/theirs"),
            read_only: text("/etc"),
            local: text("/local"),
        }
    );
    let config = FsUserConfig::Advanced(advanced).generate_config(&empty_env()).unwrap();
    assert_eq!(
        config,
        FsConfig {
            mode: FsModeConfig::Read,
            read_write: text("/mine"),
            read_only: None,
            local: text("/local"),
        }
    );
}

#[test]
fn invalid_flag_is_an_error_with_value_and_name() {
    let mut env = empty_env();
    env.file_ops = text("yes");
    env.file_ro_ops = text("no");
    assert_eq!(
        FsUserConfig::default().generate_config(&env),
        Err(ConfigError::InvalidValue("yes".to_string(), FILE_OPS_VARIABLE))
    );
    assert_eq!(
        FsUserConfig::disabled_config(&env),
        Err(ConfigError::InvalidValue("yes".to_string(), "MIRRORD_FILE_OPS"))
    );
    env.file_ops = text("true");
    assert_eq!(
        FsUserConfig::Advanced(AdvancedFsUserConfig {
            mode: FsModeConfig::Read,
            read_write: None,
            read_only: None,
            local: None,
        })
        .generate_config(&env),
        Err(ConfigError::InvalidValue("no".to_string(), FILE_RO_OPS_VARIABLE))
    );
    assert_eq!(FILE_RO_OPS_VARIABLE, "MIRRORD_FILE_RO_OPS");
}

#[test]
fn disabled_config_has_no_mode_unless_the_environment_asks() {
    assert_eq!(
        FsUserConfig::disabled_config(&empty_env()),
        Ok(FsConfig {
            mode: FsModeConfig::Disabled,
            read_write: None,
            read_only: None,
            local: None,
        })
    );
    let env = FsEnv {
        file_ops: None,
        file_ro_ops: text("true"),
        read_write_pattern: None,
        read_only_pattern: text("/etc"),
        local_pattern: None,
    };
    assert_eq!(
        FsUserConfig::disabled_config(&env),
        Ok(FsConfig {
            mode: FsModeConfig::Read,
            read_write: None,
            read_only: text("/etc"),
            local: None,
        })
    );
    assert_eq!(FsModeConfig::disabled_config(&empty_env()), Ok(FsModeConfig::Disabled));
}

#[test]
fn flush_connections_needs_the_word_true() {
    assert!(flush_connections(Some("true")));
    assert!(!flush_connections(Some("false")));
    assert!(!flush_connections(Some("True")));
    assert!(!flush_connections(Some("1")));
    assert!(!flush_connections(Some("")));
    assert!(!flush_connections(None));
}
