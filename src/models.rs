//! The records that cross the boundary between the launcher and its shell.
use vstd::prelude::*;
use crate::text::strs;

verus! {

#[derive(Clone, Debug, PartialEq, Eq)]
pub struct LoginRequest {
    pub username: String,
    pub password: String,
}

/// One launch attempt: which version, and what to add to the command line.
#[derive(Clone, Debug, PartialEq, Eq)]
pub struct LaunchRequest {
    pub version: String,
    /// Runtime flags, placed after the built-in ones.
    pub java_args: Vec<String>,
    /// Game arguments, placed after the built-in ones.
    pub game_args: Vec<String>,
    pub modpack_id: Option<String>,
}

#[derive(Clone, Copy, Debug, PartialEq, Eq, Structural)]
pub enum VersionType {
    Release,
    Snapshot,
    OldAlpha,
    OldBeta,
    Modded,
}

/// A game version known to the launcher.
#[derive(Clone, Debug, PartialEq, Eq)]
pub struct GameVersion {
    pub id: String,
    pub name: String,
    /// Seconds since the Unix epoch.
    pub release_date: i64,
    pub version_type: VersionType,
    pub installed: bool,
    pub size_mb: u64,
}

/// What came of one launch attempt.
#[derive(Clone, Debug, PartialEq, Eq)]
pub struct LaunchResult {
    pub success: bool,
    pub pid: Option<u32>,
    pub error: Option<String>,
}

/// A stage of the install pipeline. `Completed` and `Error` are terminal.
#[derive(Clone, Debug, PartialEq, Eq)]
pub enum InstallStage {
    Downloading,
    Verifying,
    Extracting,
    InstallingJava,
    Completed,
    Error(String),
}

/// The live state of one installation.
#[derive(Clone, Debug, PartialEq, Eq)]
pub struct InstallProgress {
    pub version: String,
    /// Percent done, from 0 to 100.
    pub progress: u32,
    pub stage: InstallStage,
    pub bytes_downloaded: u64,
    pub total_bytes: u64,
    pub speed_bytes_per_sec: u64,
}

/// A runtime that the launcher can start the game with.
#[derive(Clone, Debug, PartialEq, Eq)]
pub struct JavaVersion {
    pub version: String,
    pub path: String,
    pub is_default: bool,
    pub arch: String,
}

#[derive(Clone, Copy, Debug, PartialEq, Eq, Structural)]
pub struct Resolution {
    pub width: u32,
    pub height: u32,
}

#[derive(Clone, Copy, Debug, PartialEq, Eq, Structural)]
pub enum GraphicsQuality {
    Fast,
    Fancy,
    Fabulous,
}

/// The launch configuration, stored as one record and replaced whole.
#[derive(Clone, Debug, PartialEq, Eq)]
pub struct GameSettings {
    pub max_memory_mb: u32,
    pub min_memory_mb: u32,
    pub java_path: Option<String>,
    pub java_args: Vec<String>,
    pub game_args: Vec<String>,
    pub resolution: Resolution,
    pub fullscreen: bool,
    pub vsync: bool,
    pub render_distance: u8,
    pub graphics_quality: GraphicsQuality,
}

/// The garbage-collector flags that fresh settings carry.
pub open spec fn default_java_args() -> Seq<Seq<char>> {
    seq![
        "-XX:+UseG1GC"@,
        "-XX:+ParallelRefProcEnabled"@,
        "-XX:MaxGCPauseMillis=200"@,
        "-XX:+UnlockExperimentalVMOptions"@,
        "-XX:+DisableExplicitGC"@,
        "-XX:+AlwaysPreTouch"@,
        "-XX:G1NewSizePercent=30"@,
        "-XX:G1MaxNewSizePercent=40"@,
        "-XX:G1HeapRegionSize=8M"@,
        "-XX:G1ReservePercent=20"@,
        "-XX:G1HeapWastePercent=5"@,
    ]
}

/// The settings in force before any have been saved.
pub open spec fn is_default_settings(s: GameSettings) -> bool {
    &&& s.max_memory_mb == 4096
    &&& s.min_memory_mb == 512
    &&& s.java_path is None
    &&& strs(s.java_args@) == default_java_args()
    &&& s.game_args@.len() == 0
    &&& s.resolution == Resolution { width: 1920, height: 1080 }
    &&& !s.fullscreen
    &&& s.vsync
    &&& s.render_distance == 12
    &&& s.graphics_quality == GraphicsQuality::Fancy
}

impl Default for GameSettings {
    fn default() -> (r: GameSettings)
        ensures
            is_default_settings(r),
    {
        let mut java_args: Vec<String> = Vec::new();
        java_args.push("-XX:+UseG1GC".to_string());
        java_args.push("-XX:+ParallelRefProcEnabled".to_string());
        java_args.push("-XX:MaxGCPauseMillis=200".to_string());
        java_args.push("-XX:+UnlockExperimentalVMOptions".to_string());
        java_args.push("-XX:+DisableExplicitGC".to_string());
        java_args.push("-XX:+AlwaysPreTouch".to_string());
        java_args.push("-XX:G1NewSizePercent=30".to_string());
        java_args.push("-XX:G1MaxNewSizePercent=40".to_string());
        java_args.push("-XX:G1HeapRegionSize=8M".to_string());
        java_args.push("-XX:G1ReservePercent=20".to_string());
        java_args.push("-XX:G1HeapWastePercent=5".to_string());
        assert(strs(java_args@) =~= default_java_args());
        GameSettings {
            max_memory_mb: 4096,
            min_memory_mb: 512,
            java_path: None,
            java_args,
            game_args: Vec::new(),
            resolution: Resolution { width: 1920, height: 1080 },
            fullscreen: false,
            vsync: true,
            render_distance: 12,
            graphics_quality: GraphicsQuality::Fancy,
        }
    }
}

#[derive(Clone, Copy, Debug, PartialEq, Eq, Structural)]
pub enum Theme {
    Dark,
    Light,
    Auto,
}

impl Default for Theme {
    fn default() -> (r: Theme)
        ensures
            r == Theme::Dark,
    {
        Theme::Dark
    }
}

/// Preferences of the launcher itself.
#[derive(Clone, Debug, PartialEq, Eq)]
pub struct LauncherSettings {
    pub auto_update: bool,
    pub close_on_launch: bool,
    pub show_snapshots: bool,
    pub keep_launcher_open: bool,
    pub theme: Theme,
    pub language: String,
    pub download_threads: u8,
    pub verify_downloads: bool,
    pub use_gpu_acceleration: bool,
}

impl Default for LauncherSettings {
    fn default() -> (r: LauncherSettings)
        ensures
            !r.auto_update && !r.close_on_launch && !r.show_snapshots && !r.keep_launcher_open,
            r.theme == Theme::Dark,
            r.language@.len() == 0,
            r.download_threads == 0,
            !r.verify_downloads && !r.use_gpu_acceleration,
    {
        LauncherSettings {
            auto_update: false,
            close_on_launch: false,
            show_snapshots: false,
            keep_launcher_open: false,
            theme: Theme::Dark,
            language: String::new(),
            download_threads: 0,
            verify_downloads: false,
            use_gpu_acceleration: false,
        }
    }
}

} // verus!
