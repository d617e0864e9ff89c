use dirclip::pattern::ConfigError;
use dirclip::pattern::FilterPattern;

#[test]
fn valid_pattern_compiles() {
    let fp = FilterPattern::new("*.rs".to_string());
    assert!(fp.is_ok());
}

#[test]
fn malformed_pattern_rejected() {
    let r = FilterPattern::new("[abc".to_string());
    assert!(matches!(r, Err(ConfigError::InvalidPattern)));
}

#[test]
fn config_error_message() {
    let r = FilterPattern::new("[abc".to_string());
    match r {
        Err(e) => assert_eq!(e.message(), "invalid filter pattern"),
        Ok(_) => panic!("malformed pattern was accepted"),
    }
}

#[test]
fn matches_extension() {
    let fp = FilterPattern::new("*.rs".to_string()).unwrap();
    assert!(fp.matches("a.rs"));
    assert!(fp.matches("main.rs"));
    assert!(!fp.matches("a.txt"));
    assert!(!fp.matches("rs"));
}

#[test]
fn matches_question_mark_and_class() {
    let fp = FilterPattern::new("c?t".to_string()).unwrap();
    assert!(fp.matches("cat"));
    assert!(!fp.matches("cart"));
    let cls = FilterPattern::new("k[!e]tteh".to_string()).unwrap();
    assert!(cls.matches("kitteh"));
    assert!(!cls.matches("ketteh"));
}

#[test]
fn star_matches_every_name() {
    let fp = FilterPattern::new("*".to_string()).unwrap();
    assert!(fp.matches("y.rs"));
    assert!(fp.matches("x.log"));
    assert!(fp.matches(""));
}
