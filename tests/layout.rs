use beastmine_launcher::layout::{
    get_assets_dir, get_java_dir, get_launcher_dir, get_libraries_dir, get_modpacks_dir,
    get_skins_dir, get_versions_dir, join, launcher_dir_under, Platform,
};

#[test]
fn join_adds_one_separator() {
    assert_eq!(join("/home/u", "x", Platform::Unix), "/home/u/x");
    assert_eq!(join("/home/u/", "x", Platform::Unix), "/home/u/x");
    assert_eq!(join("", "x", Platform::Unix), "x");
    assert_eq!(join("C:\\Users\\u", "x", Platform::Windows), "C:\\Users\\u\\x");
    assert_eq!(join("C:\\Users\\u\\", "x", Platform::Windows), "C:\\Users\\u\\x");
    assert_eq!(join("C:/Users/u/", "x", Platform::Windows), "C:/Users/u/x");
    assert_eq!(join("a\\", "x", Platform::Unix), "a\\/x");
}

#[test]
fn launcher_dir_under_home_and_without() {
    assert_eq!(
        launcher_dir_under(Some("/home/u"), Platform::Unix),
        "/home/u/AppData/Roaming/.beastmine"
    );
    assert_eq!(
        launcher_dir_under(Some("C:\\Users\\u"), Platform::Windows),
        "C:\\Users\\u\\AppData\\Roaming\\.beastmine"
    );
    assert_eq!(launcher_dir_under(None, Platform::Unix), "./AppData/Roaming/.beastmine");
}

#[test]
fn launcher_dir_of_current_user_ends_in_launcher_folder() {
    let d = get_launcher_dir(Platform::Unix);
    assert!(d.ends_with("/AppData/Roaming/.beastmine"));
    assert!(d.len() > "/AppData/Roaming/.beastmine".len());
}

#[test]
fn directory_accessors_are_stable_and_distinct() {
    let root = "/home/u/AppData/Roaming/.beastmine";
    let p = Platform::Unix;
    let all = vec![
        get_versions_dir(root, p),
        get_java_dir(root, p),
        get_assets_dir(root, p),
        get_libraries_dir(root, p),
        get_modpacks_dir(root, p),
        get_skins_dir(root, p),
    ];
    let again = vec![
        get_versions_dir(root, p),
        get_java_dir(root, p),
        get_assets_dir(root, p),
        get_libraries_dir(root, p),
        get_modpacks_dir(root, p),
        get_skins_dir(root, p),
    ];
    assert_eq!(all, again);
    assert_eq!(all[0], format!("{}/versions", root));
    assert_eq!(all[1], format!("{}/java", root));
    assert_eq!(all[2], format!("{}/assets", root));
    assert_eq!(all[3], format!("{}/libraries", root));
    assert_eq!(all[4], format!("{}/modpacks", root));
    assert_eq!(all[5], format!("{}/skins", root));
    for i in 0..all.len() {
        assert!(all[i].starts_with(root));
        for j in 0..all.len() {
            if i != j {
                assert_ne!(all[i], all[j]);
            }
        }
    }
}

#[test]
fn separators_per_platform() {
    assert_eq!(Platform::Unix.list_separator(), ":");
    assert_eq!(Platform::Windows.list_separator(), ";");
    assert_eq!(Platform::Unix.path_separator(), "/");
    assert_eq!(Platform::Windows.path_separator(), "\\");
    assert!(Platform::Windows.is_separator('/'));
    assert!(!Platform::Unix.is_separator('\\'));
}
