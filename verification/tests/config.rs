use hikari::config::{check_engine_version, choose_editor, ConfigError, EditorLocation};

#[test]
fn matching_version_file_is_accepted_after_trimming() {
    assert_eq!(check_engine_version(Some("0.1.0\n"), "0.1.0"), Ok(()));
    assert_eq!(check_engine_version(Some("  0.1.0 \r\n"), "0.1.0"), Ok(()));
}

#[test]
fn missing_or_other_version_is_refused() {
    assert_eq!(check_engine_version(None, "0.1.0"), Err(ConfigError::NotInstalled));
    assert_eq!(
        check_engine_version(Some("0.2.0\n"), "0.1.0"),
        Err(ConfigError::VersionMismatch("0.1.0".to_string(), "0.2.0\n".to_string()))
    );
    assert_eq!(
        check_engine_version(Some("0. 1.0"), "0.1.0"),
        Err(ConfigError::VersionMismatch("0.1.0".to_string(), "0. 1.0".to_string()))
    );
}

#[test]
fn editor_is_taken_from_the_install_directory_first() {
    assert_eq!(choose_editor(true, true), Ok(EditorLocation::Install));
    assert_eq!(choose_editor(false, true), Ok(EditorLocation::BesideExecutable));
    assert_eq!(choose_editor(false, false), Err(ConfigError::EditorNotFound));
}
