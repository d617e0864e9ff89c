use dirclip::paths::base_name;
use dirclip::paths::path_is_under;
use dirclip::pattern::FilterPattern;
use dirclip::scan::directory_has_matching_files;
use dirclip::scan::scan_events;
use dirclip::scan::scan_from_verdicts;
use dirclip::scan::should_process;
use dirclip::scan::should_process_file;
use dirclip::scan::Entry;
use dirclip::scan::ScanEvent;

fn file_entry(path: &str, parent: &str, depth: usize) -> Entry {
    Entry { path: path.to_string(), parent: parent.to_string(), is_file: true, depth }
}

fn dir_entry(path: &str, parent: &str, depth: usize) -> Entry {
    Entry { path: path.to_string(), parent: parent.to_string(), is_file: false, depth }
}

fn expect_dir(ev: &ScanEvent, path: &str) {
    match ev {
        ScanEvent::Directory(p) => assert_eq!(p.as_str(), path),
        ScanEvent::File(p) => panic!("expected directory {}, got file {}", path, p),
    }
}

fn expect_file(ev: &ScanEvent, path: &str) {
    match ev {
        ScanEvent::File(p) => assert_eq!(p.as_str(), path),
        ScanEvent::Directory(p) => panic!("expected file {}, got directory {}", path, p),
    }
}

#[test]
fn base_name_after_last_slash() {
    assert_eq!(base_name("./sub/c.rs"), "c.rs");
    assert_eq!(base_name("name"), "name");
    assert_eq!(base_name("a/"), "");
    assert_eq!(base_name(""), "");
}

#[test]
fn path_is_under_prefix_and_slash() {
    assert!(path_is_under("./sub/c.rs", "./sub"));
    assert!(path_is_under("./sub/c.rs", "."));
    assert!(!path_is_under("./subx/c.rs", "./sub"));
    assert!(!path_is_under("./sub", "./sub"));
    assert!(!path_is_under(".", "./sub"));
}

#[test]
fn should_process_without_filter_accepts() {
    assert!(should_process(false, None, "anything.bin"));
}

#[test]
fn should_process_excluded_is_rejected() {
    let star = FilterPattern::new("*".to_string()).unwrap();
    assert!(!should_process(true, Some(&star), "y.rs"));
    assert!(!should_process(true, None, "y.rs"));
}

#[test]
fn should_process_filter_decides_on_name() {
    let rs = FilterPattern::new("*.rs".to_string()).unwrap();
    assert!(should_process(false, Some(&rs), "a.rs"));
    assert!(!should_process(false, Some(&rs), "b.txt"));
}

#[test]
fn should_process_file_uses_base_name() {
    let rs = FilterPattern::new("*.rs".to_string()).unwrap();
    let ignore: Option<&gitignore::File> = None;
    assert!(should_process_file(&"./sub/c.rs".to_string(), Some(&rs), ignore));
    assert!(!should_process_file(&"./sub/c.txt".to_string(), Some(&rs), ignore));
    assert!(should_process_file(&"./plain.rs".to_string(), None, ignore));
}

#[test]
fn directory_match_needs_passing_file_below() {
    let entries = vec![
        dir_entry("./sub", ".", 1),
        file_entry("./sub/c.rs", "./sub", 2),
        file_entry("./b.txt", ".", 1),
    ];
    let verdicts = vec![false, true, false];
    assert!(directory_has_matching_files(&entries, &verdicts, "./sub"));
    assert!(directory_has_matching_files(&entries, &verdicts, "."));
    let none_pass = vec![false, false, false];
    assert!(!directory_has_matching_files(&entries, &none_pass, "./sub"));
    assert!(!directory_has_matching_files(&entries, &verdicts, "./other"));
}

#[test]
fn scenario_flat_filter_non_recursive() {
    let entries = vec![file_entry("./a.rs", ".", 1), file_entry("./b.txt", ".", 1)];
    let rs = FilterPattern::new("*.rs".to_string()).unwrap();
    let ignore: Option<&gitignore::File> = None;
    let events = scan_events(&entries, false, Some(&rs), ignore);
    assert_eq!(events.len(), 2);
    expect_dir(&events[0], ".");
    expect_file(&events[1], "./a.rs");
}

#[test]
fn scenario_subdirectory_not_entered_without_recursion() {
    let entries = vec![dir_entry("./sub", ".", 1), file_entry("./sub/c.rs", "./sub", 2)];
    let rs = FilterPattern::new("*.rs".to_string()).unwrap();
    let ignore: Option<&gitignore::File> = None;
    let events = scan_events(&entries, false, Some(&rs), ignore);
    assert_eq!(events.len(), 0);
}

#[test]
fn scenario_subdirectory_announced_once_when_recursive() {
    let entries = vec![dir_entry("./sub", ".", 1), file_entry("./sub/c.rs", "./sub", 2)];
    let rs = FilterPattern::new("*.rs".to_string()).unwrap();
    let ignore: Option<&gitignore::File> = None;
    let events = scan_events(&entries, true, Some(&rs), ignore);
    assert_eq!(events.len(), 2);
    expect_dir(&events[0], "./sub");
    expect_file(&events[1], "./sub/c.rs");
}

#[test]
fn scenario_ignore_rule_vetoes_filter() {
    // An active ignore rule excludes x.log; the filter alone would keep both.
    let entries = vec![file_entry("./x.log", ".", 1), file_entry("./y.rs", ".", 1)];
    let verdicts = vec![false, true];
    let events = scan_from_verdicts(&entries, &verdicts, false);
    assert_eq!(events.len(), 2);
    expect_dir(&events[0], ".");
    expect_file(&events[1], "./y.rs");
}

#[test]
fn one_announcement_per_contributing_directory() {
    let entries = vec![
        dir_entry("./a", ".", 1),
        file_entry("./a/x.rs", "./a", 2),
        file_entry("./a/y.rs", "./a", 2),
        dir_entry("./b", ".", 1),
        file_entry("./b/z.rs", "./b", 2),
    ];
    let ignore: Option<&gitignore::File> = None;
    let events = scan_events(&entries, true, None, ignore);
    assert_eq!(events.len(), 5);
    expect_dir(&events[0], "./a");
    expect_file(&events[1], "./a/x.rs");
    expect_file(&events[2], "./a/y.rs");
    expect_dir(&events[3], "./b");
    expect_file(&events[4], "./b/z.rs");
}

#[test]
fn consecutive_files_share_one_announcement() {
    let entries = vec![file_entry("./a.rs", ".", 1), file_entry("./b.rs", ".", 1)];
    let ignore: Option<&gitignore::File> = None;
    let events = scan_events(&entries, false, None, ignore);
    assert_eq!(events.len(), 3);
    expect_dir(&events[0], ".");
    expect_file(&events[1], "./a.rs");
    expect_file(&events[2], "./b.rs");
}

#[test]
fn directories_below_depth_one_skipped_without_recursion() {
    let entries = vec![
        file_entry("./top.rs", ".", 1),
        dir_entry("./sub", ".", 1),
        file_entry("./sub/deep.rs", "./sub", 2),
        file_entry("./sub/deeper/more.rs", "./sub/deeper", 3),
    ];
    let ignore: Option<&gitignore::File> = None;
    let events = scan_events(&entries, false, None, ignore);
    assert_eq!(events.len(), 2);
    expect_dir(&events[0], ".");
    expect_file(&events[1], "./top.rs");
}

#[test]
fn directory_without_matching_descendants_is_silent() {
    let entries = vec![
        dir_entry("./logs", ".", 1),
        file_entry("./logs/run.txt", "./logs", 2),
        file_entry("./a.rs", ".", 1),
    ];
    let rs = FilterPattern::new("*.rs".to_string()).unwrap();
    let ignore: Option<&gitignore::File> = None;
    let events = scan_events(&entries, true, Some(&rs), ignore);
    assert_eq!(events.len(), 2);
    expect_dir(&events[0], ".");
    expect_file(&events[1], "./a.rs");
}
