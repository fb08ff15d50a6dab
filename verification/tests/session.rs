use arcane_frames::command::{classify, Command};

#[test]
fn help_is_exact_after_trimming() {
    assert_eq!(classify("help"), Command::Help);
    assert_eq!(classify("help\n"), Command::Help);
    assert_eq!(classify("help  \t"), Command::Help);
}

#[test]
fn help_is_case_sensitive_and_untrimmed_at_front() {
    assert_eq!(classify("HELP"), Command::Unknown);
    assert_eq!(classify(" help"), Command::Unknown);
    assert_eq!(classify("helped"), Command::Unknown);
}

#[test]
fn read_matches_by_prefix() {
    assert_eq!(classify("read 1 2 3\n"), Command::Read);
    assert_eq!(classify("read"), Command::Read);
    assert_eq!(classify("readable"), Command::Read);
}

#[test]
fn write_matches_by_prefix() {
    assert_eq!(classify("write 1 2 567\n"), Command::Write);
    assert_eq!(classify("write"), Command::Write);
    assert_eq!(classify("writes"), Command::Write);
}

#[test]
fn anything_else_is_unknown() {
    assert_eq!(classify(""), Command::Unknown);
    assert_eq!(classify("\n"), Command::Unknown);
    assert_eq!(classify("wri te 1 2 3"), Command::Unknown);
    assert_eq!(classify("quit"), Command::Unknown);
}
