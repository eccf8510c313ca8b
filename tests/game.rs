use beastmine_launcher::errors::LauncherError;
use beastmine_launcher::game::{DirEntry, GameService};
use beastmine_launcher::install::InstallRegistry;
use beastmine_launcher::layout::Platform;
use beastmine_launcher::models::{
    GameSettings, GraphicsQuality, InstallStage, LaunchRequest, LaunchResult, LauncherSettings,
    Resolution, Theme, VersionType,
};

const ROOT: &str = "/h/AppData/Roaming/.beastmine";

fn request(version: &str) -> LaunchRequest {
    LaunchRequest {
        version: version.to_string(),
        java_args: vec!["-Xmx8G".to_string()],
        game_args: vec!["--demo".to_string()],
        modpack_id: None,
    }
}

#[test]
fn jvm_args_are_baseline_then_overrides() {
    let g = GameService::new();
    let a = g.get_optimized_jvm_args(&request("1.20.1"));
    assert_eq!(a.len(), 20);
    assert_eq!(a[0], "-Xmx4G");
    assert_eq!(a[1], "-Xms1G");
    assert_eq!(a[2], "-XX:+UseG1GC");
    assert_eq!(a[18], "-Dfml.ignorePatchDiscrepancies=true");
    assert_eq!(a[19], "-Xmx8G");
}

#[test]
fn game_args_in_fixed_order() {
    let g = GameService::new();
    let a = g.compose_game_args(&request("1.20.1"), ROOT, Platform::Unix, "sid");
    let expected: Vec<String> = vec![
        "--username", "Player", "--version", "1.20.1", "--gameDir",
        "/h/AppData/Roaming/.beastmine/versions/1.20.1", "--assetsDir",
        "/h/AppData/Roaming/.beastmine/assets", "--assetIndex", "1.20.1", "--uuid", "sid",
        "--accessToken", "0", "--userType", "legacy", "--versionType", "BeastMine", "--demo",
    ]
    .into_iter()
    .map(|x| x.to_string())
    .collect();
    assert_eq!(a, expected);
}

#[test]
fn game_args_carry_a_fresh_session_id() {
    let g = GameService::new();
    let a = g.build_game_args(&request("1.20.1"), ROOT, Platform::Unix);
    let b = g.build_game_args(&request("1.20.1"), ROOT, Platform::Unix);
    assert_eq!(a[10], "--uuid");
    assert_eq!(a[11].len(), 36);
    assert_eq!(a[11].chars().filter(|c| *c == '-').count(), 4);
    assert_ne!(a[11], b[11]);
}

#[test]
fn launch_of_missing_version_is_version_not_found() {
    let g = GameService::new();
    let r = g.prepare_launch(
        &request("0.0"),
        ROOT,
        Platform::Unix,
        Ok("/usr/bin/java".to_string()),
        false,
        &Vec::new(),
        false,
    );
    assert_eq!(r, Err(LauncherError::VersionNotFound("0.0".to_string())));
    let r = g.prepare_launch(&request("0.0"), ROOT, Platform::Unix, Err(LauncherError::JavaNotFound), false, &Vec::new(), false);
    assert_eq!(r, Err(LauncherError::VersionNotFound("0.0".to_string())));
}

#[test]
fn launch_without_runtime_is_java_not_found() {
    let g = GameService::new();
    let r = g.prepare_launch(&request("1.20.1"), ROOT, Platform::Unix, Err(LauncherError::JavaNotFound), true, &Vec::new(), true);
    assert_eq!(r, Err(LauncherError::JavaNotFound));
}

#[test]
fn launch_command_layout() {
    let g = GameService::new();
    let libs = vec![format!("{}/libraries/b.jar", ROOT), format!("{}/libraries/a.jar", ROOT)];
    let cmd = g
        .plan_launch(&request("1.20.1"), ROOT, Platform::Unix, Ok("/usr/bin/java".to_string()), true, &libs, true, "sid")
        .unwrap();
    assert_eq!(cmd.program, "/usr/bin/java");
    assert_eq!(cmd.working_dir, format!("{}/versions/1.20.1", ROOT));
    assert_eq!(cmd.args.len(), 20 + 3 + 19);
    assert_eq!(cmd.args[20], "-cp");
    assert_eq!(
        cmd.args[21],
        format!("{r}/libraries/a.jar:{r}/libraries/b.jar:{r}/versions/1.20.1/1.20.1.jar", r = ROOT)
    );
    assert_eq!(cmd.args[22], "net.minecraft.client.main.Main");
    assert_eq!(cmd.args[23], "--username");
    assert_eq!(cmd.args[34], "sid");
    assert_eq!(cmd.args[41], "--demo");
    assert_eq!(cmd.creation_flags, 0);
    let win = g
        .plan_launch(&request("1.20.1"), "C:\\l", Platform::Windows, Ok("java".to_string()), true, &Vec::new(), false, "sid")
        .unwrap();
    assert_eq!(win.creation_flags, 0x08000000);
    assert_eq!(win.working_dir, "C:\\l\\versions\\1.20.1");
    assert_eq!(win.args[21], "");
}

#[test]
fn failed_spawn_is_a_launch_failure_without_pid() {
    let g = GameService::new();
    let r = g.launch_result(Err("No such file or directory".to_string()));
    assert_eq!(r, Err(LauncherError::GameError("No such file or directory".to_string())));
}

#[test]
fn spawned_process_reports_its_pid() {
    let g = GameService::new();
    assert_eq!(
        g.launch_result(Ok(Some(4242))),
        Ok(LaunchResult { success: true, pid: Some(4242), error: None })
    );
}

#[test]
fn empty_versions_directory_lists_nothing() {
    let g = GameService::new();
    assert!(g.get_installed_versions(&Vec::new()).is_empty());
}

#[test]
fn installed_versions_are_the_directories() {
    let g = GameService::new();
    let entries = vec![
        DirEntry { name: "1.20.1".to_string(), is_dir: true },
        DirEntry { name: "notes.txt".to_string(), is_dir: false },
        DirEntry { name: "1.8.9".to_string(), is_dir: true },
    ];
    let v = g.get_installed_versions(&entries);
    assert_eq!(v.len(), 2);
    assert_eq!(v[0].id, "1.20.1");
    assert_eq!(v[0].name, "1.20.1");
    assert_eq!(v[1].id, "1.8.9");
    assert!(v[0].installed);
    assert_eq!(v[0].version_type, VersionType::Release);
    assert_eq!(v[0].size_mb, 0);
    assert!(v[0].release_date > 1_600_000_000);
    let fixed = g.versions_from_entries(&entries, 7);
    assert_eq!(fixed[1].release_date, 7);
}

#[test]
fn java_versions_list_bundled_runtime() {
    let g = GameService::new();
    assert!(g.get_java_versions("/r/java", false).is_empty());
    let v = g.get_java_versions("/r/java", true);
    assert_eq!(v.len(), 1);
    assert_eq!(v[0].version, "21");
    assert_eq!(v[0].path, "/r/java");
    assert!(v[0].is_default);
    assert_eq!(v[0].arch, "x64");
}

#[test]
fn install_version_starts_and_rejects_duplicates() {
    let g = GameService::new();
    let mut reg = InstallRegistry::new();
    let st = g.install_version(&mut reg, "1.20.1", 10).unwrap();
    assert_eq!(st.stage, InstallStage::Downloading);
    assert_eq!(st.version, "1.20.1");
    assert_eq!(
        g.install_version(&mut reg, "1.20.1", 10),
        Err(LauncherError::InstallConflict("1.20.1".to_string()))
    );
}

#[test]
fn default_settings() {
    let s = GameSettings::default();
    assert_eq!(s.max_memory_mb, 4096);
    assert_eq!(s.min_memory_mb, 512);
    assert_eq!(s.java_path, None);
    assert_eq!(s.java_args.len(), 11);
    assert_eq!(s.java_args[0], "-XX:+UseG1GC");
    assert_eq!(s.java_args[10], "-XX:G1HeapWastePercent=5");
    assert!(s.game_args.is_empty());
    assert_eq!(s.resolution, Resolution { width: 1920, height: 1080 });
    assert!(!s.fullscreen);
    assert!(s.vsync);
    assert_eq!(s.render_distance, 12);
    assert_eq!(s.graphics_quality, GraphicsQuality::Fancy);
    let l = LauncherSettings::default();
    assert_eq!(l.theme, Theme::Dark);
    assert_eq!(l.language, "");
    assert_eq!(l.download_threads, 0);
}

#[test]
fn stored_settings_win_over_defaults() {
    let g = GameService::new();
    let mut s = GameSettings::default();
    s.max_memory_mb = 8192;
    s.game_args = vec!["--fullscreen".to_string()];
    assert_eq!(g.get_settings(Some(s.clone())), s);
    assert_eq!(g.get_settings(None), GameSettings::default());
}
