use cas::config::config::{log_data_from_config, Config, LevelFilter};
use cas::config::policy::{choose_log, choose_mode, expand_path, ConfigPolicy, PolicyError};
use cas::fuse::policy::{AccessMode, Policy};
use cas::path::FsPath;

fn empty_config() -> Config {
    Config {
        whitelist: Vec::new(),
        blacklist: Vec::new(),
        disable_log: Vec::new(),
        log_level: None,
        log: None,
    }
}

fn path(s: &str) -> FsPath {
    FsPath::parse(s.as_bytes())
}

#[test]
fn implicit_cwd_is_passthrough() {
    let cfg = empty_config();
    let root = path("/project/eason/cas");
    let cwd = path("/home/eason/.cargo");
    let policy = ConfigPolicy::from_config(&cfg, &root, Some(&cwd), None).expect("policy");

    assert_eq!(policy.classify(&path("/home/eason/.cargo")), AccessMode::Passthrough);
    assert_eq!(
        policy.classify(&path("/home/eason/.cargo/registry/index")),
        AccessMode::Passthrough
    );
    assert!(!policy.should_log(&path("/home/eason/.cargo/registry/index")));
}

#[test]
fn blacklist_still_wins_over_implicit_cwd() {
    let mut cfg = empty_config();
    cfg.blacklist = vec!["/home/eason/.cargo/**".to_string()];

    let root = path("/project/eason/cas");
    let cwd = path("/home/eason/.cargo");
    let policy = ConfigPolicy::from_config(&cfg, &root, Some(&cwd), None).expect("policy");

    assert_eq!(
        policy.classify(&path("/home/eason/.cargo/registry/index")),
        AccessMode::FuseOnly
    );
    assert!(!policy.should_log(&path("/home/eason/.cargo/registry/index")));
}

#[test]
fn what_no_pattern_names_is_copied_on_write_and_logged() {
    let cfg = empty_config();
    let policy = ConfigPolicy::from_config(&cfg, &path("/p"), None, None).expect("policy");
    assert_eq!(policy.classify(&path("/etc/passwd")), AccessMode::CopyOnWrite);
    assert!(policy.should_log(&path("/etc/passwd")));
    assert_eq!(policy.classify(&path("/p/src/main.rs")), AccessMode::Passthrough);
}

#[test]
fn the_own_directory_stays_in_the_sandbox() {
    let policy =
        ConfigPolicy::from_config(&empty_config(), &path("/p"), None, None).expect("policy");
    assert_eq!(policy.classify(&path("/p/.sandbox")), AccessMode::FuseOnly);
    assert_eq!(policy.classify(&path("/p/.sandbox/data/data.bin")), AccessMode::FuseOnly);

    let mut cfg = empty_config();
    cfg.whitelist = vec![".sandbox".to_string(), ".sandbox/**".to_string()];
    let policy = ConfigPolicy::from_config(&cfg, &path("/p"), None, None).expect("policy");
    assert_eq!(policy.classify(&path("/p/.sandbox")), AccessMode::Passthrough);
}

#[test]
fn a_simple_pattern_hides_what_it_spells_and_no_more() {
    let mut cfg = empty_config();
    cfg.blacklist = vec![".env".to_string(), "keys/**".to_string()];
    cfg.whitelist = vec![".env".to_string()];
    let policy = ConfigPolicy::from_config(&cfg, &path("/p"), None, None).expect("policy");
    assert_eq!(policy.classify(&path("/p/.env")), AccessMode::FuseOnly);
    assert_eq!(policy.classify(&path("/p/.envrc")), AccessMode::Passthrough);
    assert_eq!(policy.classify(&path("/p/a/.env")), AccessMode::Passthrough);
    assert_eq!(policy.classify(&path("/p/keys/a/b")), AccessMode::FuseOnly);
    assert_eq!(policy.classify(&path("/p/keys")), AccessMode::Passthrough);
    assert_eq!(policy.classify(&path("/p/keyset")), AccessMode::Passthrough);
    assert_eq!(policy.classify(&path("/p/.sandboxed")), AccessMode::Passthrough);
}

#[test]
fn a_pattern_with_a_slash_at_its_end_stands_for_the_directory() {
    let mut cfg = empty_config();
    cfg.whitelist = vec!["src/".to_string(), "*.rs".to_string()];
    cfg.blacklist = vec![".env".to_string(), "secrets/".to_string()];
    cfg.disable_log = vec!["*.tmp".to_string()];
    cfg.log_level = Some("info".to_string());
    let policy = ConfigPolicy::from_config(&cfg, &path("/p"), None, None).expect("policy");
    assert_eq!(policy.classify(&path("/p/secrets")), AccessMode::FuseOnly);
    assert_eq!(policy.classify(&path("/p/secrets/key.pem")), AccessMode::FuseOnly);
    assert_eq!(policy.classify(&path("/p/secrets/a/b.rs")), AccessMode::FuseOnly);
    assert_eq!(policy.classify(&path("/p/secrets.txt")), AccessMode::Passthrough);
    assert_eq!(policy.classify(&path("/p/.env")), AccessMode::FuseOnly);
    assert_eq!(policy.classify(&path("/p/src")), AccessMode::Passthrough);
    assert_eq!(policy.classify(&path("/p/src/a.c")), AccessMode::Passthrough);
    assert_eq!(policy.classify(&path("/etc/a.rs")), AccessMode::Passthrough);
    assert_eq!(policy.classify(&path("/etc/a.tmp")), AccessMode::CopyOnWrite);
    assert!(!policy.should_log(&path("/etc/a.tmp")));
    assert!(policy.should_log(&path("/etc/a.txt")));

    let mut cfg = empty_config();
    cfg.blacklist = vec!["~/".to_string(), "x\\/".to_string()];
    cfg.disable_log = vec!["/".to_string()];
    let policy = ConfigPolicy::from_config(&cfg, &path("/p"), Some(&path("/h/u/w")), Some("/h/u"))
        .expect("policy");
    assert_eq!(policy.classify(&path("/h/u")), AccessMode::FuseOnly);
    assert_eq!(policy.classify(&path("/h/u/w/f")), AccessMode::FuseOnly);
    assert_eq!(policy.classify(&path("/h/v")), AccessMode::CopyOnWrite);
    assert!(!policy.should_log(&path("/h/v")));
}

#[test]
fn braces_that_are_nested_too_deep_are_an_error() {
    let nested = |n: usize| "{".repeat(n) + &"}".repeat(n);
    let mut cfg = empty_config();
    cfg.whitelist = vec![
        nested(250),
        "{a,b}".repeat(300),
        "[a]".to_string() + &"{a,b}".repeat(300),
        "[]{]".repeat(300),
        "[!]{]".repeat(300),
        "[^\\{]".repeat(300),
        "\\{".repeat(300),
    ];
    assert!(ConfigPolicy::from_config(&cfg, &path("/p"), None, None).is_ok());
    cfg.whitelist = vec![nested(251)];
    let result = ConfigPolicy::from_config(&cfg, &path("/p"), None, None);
    assert!(matches!(result, Err(PolicyError::TooDeep)));
    cfg.whitelist = vec!["{\\}".repeat(251)];
    let result = ConfigPolicy::from_config(&cfg, &path("/p"), None, None);
    assert!(matches!(result, Err(PolicyError::TooDeep)));
}

#[test]
fn lists_of_any_length_are_accepted() {
    let mut cfg = empty_config();
    cfg.blacklist = (0..12_000).map(|k| format!("/{k:018}/**")).collect();
    cfg.whitelist = (1..=2000).map(|k| "/".repeat(k) + "/**").collect();
    let policy = ConfigPolicy::from_config(&cfg, &path("/p"), None, None).expect("policy");
    assert_eq!(policy.classify(&path("/000000000000000000/x")), AccessMode::FuseOnly);
    assert_eq!(policy.classify(&path("/000000000000011999/x")), AccessMode::FuseOnly);
    assert_eq!(policy.classify(&path("/000000000000012000/x")), AccessMode::CopyOnWrite);
    assert_eq!(policy.classify_text(b"//x"), AccessMode::Passthrough);
}

#[test]
fn patterns_see_a_path_as_it_is_spelled() {
    let mut cfg = empty_config();
    cfg.blacklist = vec!["/outside/x".to_string(), "a/b".to_string()];
    cfg.disable_log = vec!["/quiet//x".to_string()];
    let policy = ConfigPolicy::from_config(&cfg, &path("/p"), None, None).expect("policy");
    assert_eq!(policy.classify_text(b"/outside/x"), AccessMode::FuseOnly);
    assert_eq!(policy.classify_text(b"/outside//x"), AccessMode::CopyOnWrite);
    assert_eq!(policy.classify_text(b"/outside/x/"), AccessMode::CopyOnWrite);
    assert_eq!(policy.classify_text(b"/p/a/b"), AccessMode::FuseOnly);
    assert_eq!(policy.classify_text(b"/p//./a/b/./"), AccessMode::FuseOnly);
    assert_eq!(policy.classify_text(b"/p/a//b"), AccessMode::Passthrough);
    assert!(!policy.should_log_text(b"/quiet//x"));
    assert!(policy.should_log_text(b"/quiet/x"));
}

#[test]
fn a_configuration_of_simple_patterns_is_accepted() {
    let mut cfg = empty_config();
    cfg.blacklist = vec!["a/b-c_d.e".to_string(), "x//**".to_string()];
    cfg.whitelist = vec!["0/".to_string(), "/x/**".to_string()];
    cfg.disable_log = vec!["..".to_string()];
    assert!(ConfigPolicy::from_config(&cfg, &path("/p"), None, None).is_ok());
}

#[test]
fn a_whitelisted_path_passes_through_unlogged() {
    let mut cfg = empty_config();
    cfg.whitelist = vec!["~/cache/**".to_string()];
    let policy =
        ConfigPolicy::from_config(&cfg, &path("/p"), None, Some("/home/u")).expect("policy");
    assert_eq!(policy.classify(&path("/home/u/cache/x")), AccessMode::Passthrough);
    assert!(!policy.should_log(&path("/home/u/cache/x")));
    assert_eq!(policy.classify(&path("/home/v/cache/x")), AccessMode::CopyOnWrite);
}

#[test]
fn a_blacklist_pattern_goes_before_the_whitelist() {
    let mut cfg = empty_config();
    cfg.whitelist = vec!["/data/**".to_string()];
    cfg.blacklist = vec!["/data/secret".to_string()];
    let policy = ConfigPolicy::from_config(&cfg, &path("/p"), None, None).expect("policy");
    assert_eq!(policy.classify(&path("/data/secret")), AccessMode::FuseOnly);
    assert_eq!(policy.classify(&path("/data/open")), AccessMode::Passthrough);
}

#[test]
fn a_log_exception_keeps_the_mode() {
    let mut cfg = empty_config();
    cfg.disable_log = vec!["/usr/**".to_string()];
    let policy = ConfigPolicy::from_config(&cfg, &path("/p"), None, None).expect("policy");
    assert_eq!(policy.classify(&path("/usr/lib/x")), AccessMode::CopyOnWrite);
    assert!(!policy.should_log(&path("/usr/lib/x")));
    assert!(policy.should_log(&path("/etc/x")));
}

#[test]
fn a_text_that_is_no_pattern_is_an_error() {
    let mut cfg = empty_config();
    cfg.blacklist = vec!["[".to_string()];
    let result = ConfigPolicy::from_config(&cfg, &path("/p"), None, None);
    assert!(matches!(result, Err(PolicyError::Pattern(_))));
}

#[test]
fn the_home_directory_is_put_in() {
    assert_eq!(expand_path("~/x", Some("/home/u")), "/home/u/x");
    assert_eq!(expand_path("~/x", Some("/home/u/")), "/home/u/x");
    assert_eq!(expand_path("~/", Some("/home/u")), "/home/u/");
    assert_eq!(expand_path("~", Some("/home/u")), "~");
    assert_eq!(expand_path("~user/x", Some("/home/u")), "~user/x");
    assert_eq!(expand_path("~/x", None), "~/x");
    assert_eq!(expand_path("/a/~/x", Some("/home/u")), "/a/~/x");
}

#[test]
fn modes_and_logs_follow_the_order_of_matches() {
    assert_eq!(choose_mode(true, true, true, true), AccessMode::FuseOnly);
    assert_eq!(choose_mode(false, true, false, false), AccessMode::Passthrough);
    assert_eq!(choose_mode(false, false, true, false), AccessMode::Passthrough);
    assert_eq!(choose_mode(false, false, false, true), AccessMode::Passthrough);
    assert_eq!(choose_mode(false, false, false, false), AccessMode::CopyOnWrite);
    assert!(choose_log(false, false, false, false, false));
    assert!(!choose_log(false, false, false, false, true));
    assert!(!choose_log(true, false, false, false, false));
}

#[test]
fn log_levels_by_name() {
    let mut cfg = empty_config();
    assert_eq!(cfg.log_level_filter(), LevelFilter::Info);
    let names = [
        ("error", LevelFilter::Error),
        ("warn", LevelFilter::Warn),
        ("info", LevelFilter::Info),
        ("debug", LevelFilter::Debug),
        ("trace", LevelFilter::Trace),
        ("TRACE", LevelFilter::Info),
        ("loud", LevelFilter::Info),
    ];
    for (name, level) in names {
        cfg.log_level = Some(name.to_string());
        assert_eq!(cfg.log_level_filter(), level);
    }
    cfg.log_level = Some("debug".to_string());
    cfg.log = Some("/tmp/log".to_string());
    assert_eq!(
        log_data_from_config(Some(cfg)),
        (LevelFilter::Debug, Some("/tmp/log".to_string()))
    );
    assert_eq!(log_data_from_config(None), (LevelFilter::Info, None));
}
