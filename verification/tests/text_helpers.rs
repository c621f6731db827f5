use agent_hook::text::{chars_of, contains_str, is_whitespace, trimmed_ends_with};
use agent_hook::{hook_command, is_our_command, join_paths};

#[test]
fn whitespace_matches_std() {
    for c in (0u32..=0x10ffff).filter_map(char::from_u32) {
        assert_eq!(is_whitespace(c), c.is_whitespace(), "{:?}", c);
    }
}

#[test]
fn hook_command_quotes_the_binary() {
    assert_eq!(hook_command("/bin/contextzip", "cursor"), "\"/bin/contextzip\" hook cursor");
    assert_eq!(hook_command("C:\\a b\\contextzip.exe", "gemini"), "\"C:\\a b\\contextzip.exe\" hook gemini");
}

#[test]
fn our_commands_are_recognised_whatever_the_path() {
    assert!(is_our_command(&hook_command("/opt/x/contextzip", "copilot"), "copilot"));
    assert!(is_our_command("contextzip hook cursor \n", "cursor"));
    assert!(!is_our_command("contextzip hook cursor", "gemini"));
    assert!(!is_our_command("/usr/bin/cz hook cursor", "cursor"));
    assert!(!is_our_command("contextzip hook cursor --x", "cursor"));
}

#[test]
fn string_helpers() {
    assert!(contains_str("abcabd", "abd"));
    assert!(contains_str("abc", ""));
    assert!(!contains_str("ab", "abc"));
    assert!(trimmed_ends_with("x hook a\u{3000} ", "hook a"));
    assert!(!trimmed_ends_with("a", "ba"));
    assert_eq!(chars_of("héllo"), vec!['h', 'é', 'l', 'l', 'o']);
}

#[test]
fn join_paths_separates_with_commas() {
    assert_eq!(join_paths(&[]), "");
    assert_eq!(join_paths(&["/a".to_string()]), "/a");
    assert_eq!(join_paths(&["/a".to_string(), "/b".to_string(), "/c".to_string()]), "/a, /b, /c");
}
