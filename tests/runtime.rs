use beastmine_launcher::errors::LauncherError;
use beastmine_launcher::layout::Platform;
use beastmine_launcher::runtime::{
    bundled_runtime_path, first_line_of, resolve_from_lookup, resolve_step, trimmed, LookupOutput,
    RuntimeStep,
};

#[test]
fn bundled_runtime_path_per_platform() {
    assert_eq!(bundled_runtime_path("/r/java", Platform::Unix), "/r/java/bin/java");
    assert_eq!(bundled_runtime_path("C:\\r\\java", Platform::Windows), "C:\\r\\java\\bin\\java.exe");
}

#[test]
fn bundled_runtime_wins_without_lookup() {
    let exe = bundled_runtime_path("/r/java", Platform::Unix);
    assert_eq!(resolve_step(&exe, true), RuntimeStep::Found("/r/java/bin/java".to_string()));
    assert_eq!(resolve_step(&exe, false), RuntimeStep::SystemLookup);
}

#[test]
fn lookup_takes_first_line_trimmed() {
    let out = LookupOutput {
        success: true,
        stdout: "  C:\\Program Files\\Java\\bin\\java.exe\r\nD:\\jdk\\bin\\java.exe\r\n".to_string(),
    };
    assert_eq!(resolve_from_lookup(Some(out)), Ok("C:\\Program Files\\Java\\bin\\java.exe".to_string()));
}

#[test]
fn lookup_with_no_output_names_plain_java() {
    let out = LookupOutput { success: true, stdout: String::new() };
    assert_eq!(resolve_from_lookup(Some(out)), Ok("java".to_string()));
    let blank = LookupOutput { success: true, stdout: "\n/usr/bin/java".to_string() };
    assert_eq!(resolve_from_lookup(Some(blank)), Ok(String::new()));
}

#[test]
fn failed_or_missing_lookup_is_java_not_found() {
    let out = LookupOutput { success: false, stdout: "/usr/bin/java".to_string() };
    assert_eq!(resolve_from_lookup(Some(out)), Err(LauncherError::JavaNotFound));
    assert_eq!(resolve_from_lookup(None), Err(LauncherError::JavaNotFound));
}

#[test]
fn trimming_follows_unicode_white_space() {
    assert_eq!(trimmed("\u{a0}\t x y \u{3000}\r"), "x y");
    assert_eq!(trimmed("   "), "");
    assert_eq!(trimmed("\u{200b}x"), "\u{200b}x");
    assert_eq!(first_line_of("ab\ncd"), "ab");
    assert_eq!(first_line_of("abc"), "abc");
}
