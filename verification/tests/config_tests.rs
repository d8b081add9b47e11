use bacman::model::BackupPath;
use bacman::model::Config;
use bacman::model::ConfigError;
use bacman::model::GlobalConfig;
use bacman::model::Profile;
use bacman::resolve::extract_paths;

fn empty_profile() -> Profile {
    Profile { encrypt: None, backup_method: None, backup_to: None, interval: None }
}

fn bare_path(path: &str) -> BackupPath {
    BackupPath {
        path: path.to_string(),
        profile: None,
        encrypt: None,
        backup_method: None,
        backup_to: None,
        interval: None,
    }
}

fn complete_path(path: &str) -> BackupPath {
    let mut p = bare_path(path);
    p.backup_method = Some(vec!["local".to_string()]);
    p.backup_to = Some("https://example.com/repo.git".to_string());
    p.interval = Some("10d".to_string());
    p
}

fn config(profiles: Vec<(String, Profile)>, backup_paths: Vec<BackupPath>) -> Config {
    Config {
        global: GlobalConfig { default_profile: None },
        profiles,
        backup_paths,
    }
}

fn failure_message(r: Result<(), ConfigError>) -> String {
    match r {
        Ok(()) => panic!("expected validation to fail"),
        Err(ConfigError::Invalid(m)) => m,
    }
}

#[test]
fn empty_document_is_valid_and_resolves_to_nothing() {
    let cfg = config(vec![], vec![]);
    assert!(cfg.validate_with(&vec![], &vec![]).is_ok());
    assert_eq!(cfg.resolve_backup_paths().len(), 0);
}

#[test]
fn relative_destination_is_checked_as_local() {
    let mut p = complete_path("/data");
    p.backup_to = Some("./backups".to_string());
    let cfg = config(vec![], vec![p]);
    let msg = failure_message(cfg.validate_with(&vec![true], &vec![false]));
    assert!(msg.contains("Backup destination not accessible: ./backups"));
    let mut p2 = complete_path("/data");
    p2.backup_to = Some("./backups".to_string());
    let cfg2 = config(vec![], vec![p2]);
    assert!(cfg2.validate_with(&vec![true], &vec![true]).is_ok());
}

#[test]
fn resolve_keeps_length_and_order() {
    let cfg = config(vec![], vec![bare_path("/a"), bare_path("/b"), bare_path("/c")]);
    let resolved = cfg.resolve_backup_paths();
    assert_eq!(resolved.len(), 3);
    assert_eq!(resolved[0].path, "/a");
    assert_eq!(resolved[1].path, "/b");
    assert_eq!(resolved[2].path, "/c");
}

#[test]
fn explicit_values_beat_profile_values() {
    let prof = Profile {
        encrypt: Some(true),
        backup_method: Some(vec!["git".to_string()]),
        backup_to: Some("https://profile.example/repo.git".to_string()),
        interval: Some("5h".to_string()),
    };
    let mut p = bare_path("/data");
    p.profile = Some("daily".to_string());
    p.encrypt = Some(false);
    p.backup_method = Some(vec!["local".to_string()]);
    p.backup_to = Some("https://path.example/repo.git".to_string());
    p.interval = Some("30m".to_string());
    let cfg = config(vec![("daily".to_string(), prof)], vec![p]);
    let resolved = cfg.resolve_backup_paths();
    assert_eq!(resolved[0].encrypt, Some(false));
    assert_eq!(resolved[0].backup_method, Some(vec!["local".to_string()]));
    assert_eq!(resolved[0].backup_to, Some("https://path.example/repo.git".to_string()));
    assert_eq!(resolved[0].interval, Some("30m".to_string()));
}

#[test]
fn no_profile_and_no_default_leaves_fields_absent() {
    let cfg = config(vec![("daily".to_string(), empty_profile())], vec![bare_path("/data")]);
    let resolved = cfg.resolve_backup_paths();
    assert_eq!(resolved[0].path, "/data");
    assert_eq!(resolved[0].encrypt, None);
    assert_eq!(resolved[0].backup_method, None);
    assert_eq!(resolved[0].backup_to, None);
    assert_eq!(resolved[0].interval, None);
}

#[test]
fn profile_supplies_backup_method() {
    let mut prof = empty_profile();
    prof.backup_method = Some(vec!["local".to_string()]);
    let mut p = bare_path("/data");
    p.profile = Some("daily".to_string());
    let cfg = config(vec![("daily".to_string(), prof)], vec![p]);
    let resolved = cfg.resolve_backup_paths();
    assert_eq!(resolved[0].backup_method, Some(vec!["local".to_string()]));
}

#[test]
fn default_profile_applies_without_explicit_reference() {
    let mut prof = empty_profile();
    prof.backup_to = Some("git@host:repo.git".to_string());
    let mut cfg = config(vec![("nightly".to_string(), prof)], vec![bare_path("/data")]);
    cfg.global.default_profile = Some("nightly".to_string());
    let resolved = cfg.resolve_backup_paths();
    assert_eq!(resolved[0].backup_to, Some("git@host:repo.git".to_string()));
}

#[test]
fn dangling_reference_does_not_fall_back_to_default() {
    let mut prof = empty_profile();
    prof.backup_method = Some(vec!["local".to_string()]);
    let mut p = bare_path("/data");
    p.profile = Some("missing".to_string());
    let mut cfg = config(vec![("nightly".to_string(), prof)], vec![p]);
    cfg.global.default_profile = Some("nightly".to_string());
    let resolved = cfg.resolve_backup_paths();
    assert_eq!(resolved[0].backup_method, None);
}

#[test]
fn dangling_reference_resolves_but_fails_validation() {
    let mut p = complete_path("/data");
    p.profile = Some("missing".to_string());
    let cfg = config(vec![], vec![p]);
    let resolved = cfg.resolve_backup_paths();
    assert_eq!(resolved.len(), 1);
    assert_eq!(resolved[0].backup_method, Some(vec!["local".to_string()]));
    let msg = failure_message(cfg.validate_with(&vec![true], &vec![false]));
    assert!(msg.contains("missing"));
    assert!(msg.contains("Referenced profile not found: missing"));
}

#[test]
fn valid_document_passes() {
    let cfg = config(vec![], vec![complete_path("/data")]);
    let r = cfg.validate_with(&vec![true], &vec![false]);
    assert!(r.is_ok());
}

#[test]
fn failure_message_has_one_line_per_violation() {
    let mut a = complete_path("/a");
    a.interval = Some("10x".to_string());
    let mut b = complete_path("/b");
    b.backup_method = Some(vec!["floppy".to_string()]);
    let cfg = config(vec![], vec![a, b]);
    let msg = failure_message(cfg.validate_with(&vec![true, false], &vec![false, false]));
    assert_eq!(msg.lines().count(), 3);
    assert!(msg.contains("Invalid interval format: 10x"));
    assert!(msg.contains("Invalid backup method: floppy"));
    assert!(msg.contains("Path does not exist: /b"));
}

#[test]
fn interval_without_unit_suffix_fails() {
    let mut p = complete_path("/data");
    p.interval = Some("10x".to_string());
    let cfg = config(vec![], vec![p]);
    let msg = failure_message(cfg.validate_with(&vec![true], &vec![false]));
    assert!(msg.contains("Invalid interval format: 10x"));
}

#[test]
fn day_hour_and_minute_intervals_pass() {
    for interval in ["10d", "5h", "30m"] {
        let mut p = complete_path("/data");
        p.interval = Some(interval.to_string());
        let cfg = config(vec![], vec![p]);
        let r = cfg.validate_with(&vec![true], &vec![false]);
        assert!(r.is_ok(), "interval {} should pass", interval);
    }
}

#[test]
fn interval_without_digit_fails() {
    let mut p = complete_path("/data");
    p.interval = Some("d".to_string());
    let cfg = config(vec![], vec![p]);
    let msg = failure_message(cfg.validate_with(&vec![true], &vec![false]));
    assert!(msg.contains("Invalid interval format: d"));
}

#[test]
fn remote_destination_needs_no_filesystem_check() {
    let mut p = complete_path("/data");
    p.backup_to = Some("https://example.com/repo.git".to_string());
    let cfg = config(vec![], vec![p]);
    assert!(cfg.validate_with(&vec![true], &vec![false]).is_ok());
}

#[test]
fn git_remote_destination_passes() {
    let mut p = complete_path("/data");
    p.backup_to = Some("git@host:repo.git".to_string());
    let cfg = config(vec![], vec![p]);
    assert!(cfg.validate_with(&vec![true], &vec![false]).is_ok());
}

#[test]
fn local_destination_follows_the_filesystem_answer() {
    let mut p = complete_path("/data");
    p.backup_to = Some("/no/such/dir".to_string());
    let cfg = config(vec![], vec![p]);
    let msg = failure_message(cfg.validate_with(&vec![true], &vec![false]));
    assert!(msg.contains("Backup destination not accessible: /no/such/dir"));
    let mut p2 = complete_path("/data");
    p2.backup_to = Some("/no/such/dir".to_string());
    let cfg2 = config(vec![], vec![p2]);
    assert!(cfg2.validate_with(&vec![true], &vec![true]).is_ok());
}

#[test]
fn destination_of_unknown_shape_fails() {
    let mut p = complete_path("/data");
    p.backup_to = Some("ftp://example.com/repo".to_string());
    let cfg = config(vec![], vec![p]);
    let msg = failure_message(cfg.validate_with(&vec![true], &vec![false]));
    assert!(msg.contains("Invalid backup destination format: ftp://example.com/repo"));
}

#[test]
fn missing_default_profile_is_flagged() {
    let mut cfg = config(vec![], vec![complete_path("/data")]);
    cfg.global.default_profile = Some("nope".to_string());
    let msg = failure_message(cfg.validate_with(&vec![true], &vec![false]));
    assert!(msg.contains("Default profile 'nope' not found"));
}

#[test]
fn method_match_ignores_ascii_case() {
    let mut p = complete_path("/data");
    p.backup_method = Some(vec!["LOCAL".to_string(), "GDrive".to_string()]);
    let cfg = config(vec![], vec![p]);
    assert!(cfg.validate_with(&vec![true], &vec![false]).is_ok());
}

#[test]
fn unresolved_method_and_destination_are_flagged() {
    let cfg = config(vec![], vec![bare_path("/data")]);
    let msg = failure_message(cfg.validate_with(&vec![true], &vec![false]));
    assert_eq!(msg.lines().count(), 2);
    assert!(msg.contains("No backup method specified for path: /data"));
    assert!(msg.contains("No backup destination specified for path: /data"));
}

#[test]
fn extract_paths_projects_in_order() {
    let cfg = config(vec![], vec![bare_path("/a"), bare_path("/b")]);
    let resolved = cfg.resolve_backup_paths();
    let paths = extract_paths(&resolved);
    assert_eq!(paths, vec!["/a".to_string(), "/b".to_string()]);
}

#[test]
fn error_message_text_is_prefixed() {
    let cfg = config(vec![], vec![bare_path("/data")]);
    let err = cfg.validate_with(&vec![true], &vec![false]).unwrap_err();
    let text = err.message();
    assert!(text.starts_with("Invalid configuration: "));
    assert!(text.contains("No backup method specified for path: /data"));
}

#[test]
fn validate_against_real_filesystem_accepts_root() {
    let cfg = config(vec![], vec![complete_path("/")]);
    assert!(cfg.validate().is_ok());
}

#[test]
fn validate_against_real_filesystem_reports_missing_path() {
    let cfg = config(vec![], vec![complete_path("/no/such/path/for-this-test")]);
    let msg = failure_message(cfg.validate());
    assert!(msg.contains("Path does not exist: /no/such/path/for-this-test"));
}
