use pty_engine::config::{default_shell, resolve_initial_cwd};
use pty_engine::cwd::parse_cwd_listing;

#[test]
fn finds_cwd_after_fcwd_marker() {
    let listing = b"p123\nfcwd\nn/Users/me\nftxt\nn/bin/zsh\n";
    assert_eq!(parse_cwd_listing(listing), Some(b"/Users/me".to_vec()));
}

#[test]
fn no_marker_means_no_cwd() {
    let listing = b"p123\nftxt\nn/bin/zsh\n";
    assert_eq!(parse_cwd_listing(listing), None);
}

#[test]
fn marker_without_name_line_means_no_cwd() {
    assert_eq!(parse_cwd_listing(b"p123\nfcwd\n"), None);
    assert_eq!(parse_cwd_listing(b"fcwd"), None);
}

#[test]
fn name_lines_before_the_marker_are_ignored() {
    let listing = b"n/tmp\nfcwd\nn/home/me\n";
    assert_eq!(parse_cwd_listing(listing), Some(b"/home/me".to_vec()));
}

#[test]
fn empty_listing_has_no_cwd() {
    assert_eq!(parse_cwd_listing(b""), None);
}

#[test]
fn bare_name_line_yields_empty_path() {
    assert_eq!(parse_cwd_listing(b"fcwd\nn\n"), Some(Vec::new()));
}

#[test]
fn non_name_lines_between_marker_and_name_are_skipped() {
    let listing = b"fcwd\na4\nn/srv\n";
    assert_eq!(parse_cwd_listing(listing), Some(b"/srv".to_vec()));
}

#[test]
fn shell_choice_prefers_the_environment() {
    assert_eq!(default_shell(Some("/bin/zsh".to_string()), false), "/bin/zsh");
    assert_eq!(default_shell(None, false), "/bin/bash");
    assert_eq!(default_shell(Some("/bin/zsh".to_string()), true), "powershell.exe");
}

#[test]
fn initial_cwd_prefers_request_then_home() {
    assert_eq!(
        resolve_initial_cwd(Some("/work".to_string()), Some("/home/me".to_string())),
        "/work"
    );
    assert_eq!(resolve_initial_cwd(None, Some("/home/me".to_string())), "/home/me");
    assert_eq!(resolve_initial_cwd(None, None), ".");
}
