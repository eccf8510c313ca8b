use beastmine_launcher::classpath::{classpath_string, collect_archives, is_archive_path, join_strings};
use beastmine_launcher::errors::LauncherError;
use beastmine_launcher::game::GameService;
use beastmine_launcher::layout::Platform;

fn s(v: &[&str]) -> Vec<String> {
    v.iter().map(|x| x.to_string()).collect()
}

const ROOT: &str = "/h/AppData/Roaming/.beastmine";

#[test]
fn archive_extension_rules() {
    assert!(is_archive_path("/l/a.jar", Platform::Unix));
    assert!(is_archive_path("a.b.jar", Platform::Unix));
    assert!(is_archive_path("..jar", Platform::Unix));
    assert!(!is_archive_path(".jar", Platform::Unix));
    assert!(!is_archive_path("/l/.jar", Platform::Unix));
    assert!(!is_archive_path("C:\\l\\.jar", Platform::Windows));
    assert!(is_archive_path("C:\\l\\.jar", Platform::Unix));
    assert!(!is_archive_path("/l/a.JAR", Platform::Unix));
    assert!(!is_archive_path("/l/a.jar.sha1", Platform::Unix));
    assert!(!is_archive_path("/l/ajar", Platform::Unix));
}

#[test]
fn archives_sorted_and_deduplicated() {
    let files = s(&["/l/b/z.jar", "/l/a.txt", "/l/a/y.jar", "/l/b/z.jar", "/l/a/x.jar"]);
    let r = collect_archives(&files, Platform::Unix);
    assert_eq!(r, s(&["/l/a/x.jar", "/l/a/y.jar", "/l/b/z.jar"]));
}

#[test]
fn join_strings_puts_separator_between() {
    assert_eq!(join_strings(&s(&[]), ":"), "");
    assert_eq!(join_strings(&s(&["a"]), ":"), "a");
    assert_eq!(join_strings(&s(&["a", "b", "c"]), ";"), "a;b;c");
}

#[test]
fn classpath_fixture_has_n_plus_one_entries_in_fixed_order() {
    let g = GameService::new();
    let libs = s(&[
        "/h/AppData/Roaming/.beastmine/libraries/org/lwjgl/lwjgl.jar",
        "/h/AppData/Roaming/.beastmine/libraries/com/google/gson.jar",
        "/h/AppData/Roaming/.beastmine/libraries/com/mojang/authlib.jar",
        "/h/AppData/Roaming/.beastmine/libraries/com/mojang/README.md",
    ]);
    let mut shuffled = libs.clone();
    shuffled.reverse();
    let a = g.build_classpath("1.20.1", ROOT, Platform::Unix, true, &libs, true).unwrap();
    let b = g.build_classpath("1.20.1", ROOT, Platform::Unix, true, &shuffled, true).unwrap();
    assert_eq!(a, b);
    let entries: Vec<&str> = a.split(':').collect();
    assert_eq!(entries.len(), 4);
    assert_eq!(
        entries,
        vec![
            "/h/AppData/Roaming/.beastmine/libraries/com/google/gson.jar",
            "/h/AppData/Roaming/.beastmine/libraries/com/mojang/authlib.jar",
            "/h/AppData/Roaming/.beastmine/libraries/org/lwjgl/lwjgl.jar",
            "/h/AppData/Roaming/.beastmine/versions/1.20.1/1.20.1.jar",
        ]
    );
    for i in 0..entries.len() {
        for j in 0..entries.len() {
            if i != j {
                assert_ne!(entries[i], entries[j]);
            }
        }
    }
}

#[test]
fn classpath_on_windows_uses_semicolons() {
    let libs = s(&["C:\\b\\b.jar", "C:\\b\\a.jar"]);
    assert_eq!(
        classpath_string(&libs, "C:\\v\\1.jar", true, Platform::Windows),
        "C:\\b\\a.jar;C:\\b\\b.jar;C:\\v\\1.jar"
    );
}

#[test]
fn classpath_without_libraries_is_the_version_archive() {
    let g = GameService::new();
    let r = g.build_classpath("1.20.1", ROOT, Platform::Unix, true, &Vec::new(), true);
    assert_eq!(r, Ok("/h/AppData/Roaming/.beastmine/versions/1.20.1/1.20.1.jar".to_string()));
}

#[test]
fn classpath_without_version_archive_lists_libraries_only() {
    let libs = s(&["/l/b.jar", "/l/a.jar"]);
    assert_eq!(classpath_string(&libs, "/v/1.jar", false, Platform::Unix), "/l/a.jar:/l/b.jar");
    assert_eq!(classpath_string(&Vec::new(), "/v/1.jar", false, Platform::Unix), "");
}

#[test]
fn classpath_lists_version_archive_once() {
    let libs = s(&["/v/1.jar", "/l/a.jar"]);
    assert_eq!(classpath_string(&libs, "/v/1.jar", true, Platform::Unix), "/l/a.jar:/v/1.jar");
}

#[test]
fn classpath_of_missing_version_is_version_not_found() {
    let g = GameService::new();
    let r = g.build_classpath("9.9", ROOT, Platform::Unix, false, &s(&["/l/a.jar"]), true);
    assert_eq!(r, Err(LauncherError::VersionNotFound("9.9".to_string())));
}
