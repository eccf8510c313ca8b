//! The game service: what a launch runs, which versions and runtimes are
//! installed, and the settings in force.
use vstd::prelude::*;
use crate::classpath::{classpath_of, classpath_string};
use crate::errors::LauncherError;
use crate::install::{started, in_flight, InstallRegistry};
use crate::layout::{
    assets_name, get_assets_dir, get_versions_dir, join, join_path, subdir, versions_name, Platform,
};
use crate::models::{
    is_default_settings, GameSettings, GameVersion, InstallProgress, JavaVersion, LaunchRequest,
    LaunchResult, VersionType,
};
use crate::text::{extend_strings, strs};

verus! {

/// The runtime flags that every launch starts with: heap sizing, then
/// collector tuning for short pauses.
pub open spec fn baseline_jvm_args() -> Seq<Seq<char>> {
    seq![
        "-Xmx4G"@,
        "-Xms1G"@,
        "-XX:+UseG1GC"@,
        "-XX:+ParallelRefProcEnabled"@,
        "-XX:MaxGCPauseMillis=200"@,
        "-XX:+UnlockExperimentalVMOptions"@,
        "-XX:+DisableExplicitGC"@,
        "-XX:+AlwaysPreTouch"@,
        "-XX:G1NewSizePercent=30"@,
        "-XX:G1MaxNewSizePercent=40"@,
        "-XX:G1HeapRegionSize=8M"@,
        "-XX:G1ReservePercent=20"@,
        "-XX:G1HeapWastePercent=5"@,
        "-XX:+UseStringDeduplication"@,
        "-XX:+OptimizeStringConcat"@,
        "-XX:+UseCompressedOops"@,
        "-XX:+UseFastAccessorMethods"@,
        "-Dfml.ignoreInvalidMinecraftCertificates=true"@,
        "-Dfml.ignorePatchDiscrepancies=true"@,
    ]
}

/// The directory of `version`.
pub open spec fn version_dir_of(launcher_dir: Seq<char>, version: Seq<char>, p: Platform) -> Seq<char> {
    join_path(subdir(launcher_dir, versions_name(), p), version, p)
}

/// The archive of `version` inside its directory.
pub open spec fn version_jar_of(launcher_dir: Seq<char>, version: Seq<char>, p: Platform) -> Seq<char> {
    join_path(version_dir_of(launcher_dir, version, p), version + seq!['.', 'j', 'a', 'r'], p)
}

/// The game's arguments: identity, version, directories, asset index,
/// session, token and type tags, then the caller's extras.
pub open spec fn game_args_of(
    version: Seq<char>,
    game_dir: Seq<char>,
    assets_dir: Seq<char>,
    session: Seq<char>,
    extra: Seq<Seq<char>>,
) -> Seq<Seq<char>> {
    seq![
        "--username"@,
        "Player"@,
        "--version"@,
        version,
        "--gameDir"@,
        game_dir,
        "--assetsDir"@,
        assets_dir,
        "--assetIndex"@,
        version,
        "--uuid"@,
        session,
        "--accessToken"@,
        "0"@,
        "--userType"@,
        "legacy"@,
        "--versionType"@,
        "BeastMine"@,
    ] + extra
}

/// The game arguments of `request` under `launcher_dir`, with `session` as
/// the session identifier.
pub open spec fn request_game_args(request: LaunchRequest, launcher_dir: Seq<char>, p: Platform, session: Seq<char>) -> Seq<Seq<char>> {
    game_args_of(
        request.version@,
        version_dir_of(launcher_dir, request.version@, p),
        subdir(launcher_dir, assets_name(), p),
        session,
        strs(request.game_args@),
    )
}

/// Whether `s` has the shape of a hyphenated UUID: 36 characters, with
/// hyphens at the four group boundaries.
pub open spec fn is_session_id(s: Seq<char>) -> bool {
    s.len() == 36 && s[8] == '-' && s[13] == '-' && s[18] == '-' && s[23] == '-'
}

/// The whole argument list of a launch: runtime flags, classpath, main
/// class, game arguments.
pub open spec fn launch_args_of(
    request: LaunchRequest,
    launcher_dir: Seq<char>,
    p: Platform,
    lib_files: Seq<Seq<char>>,
    jar_exists: bool,
    session: Seq<char>,
) -> Seq<Seq<char>> {
    baseline_jvm_args() + strs(request.java_args@) + seq![
        "-cp"@,
        classpath_of(lib_files, version_jar_of(launcher_dir, request.version@, p), jar_exists, p),
        "net.minecraft.client.main.Main"@,
    ] + request_game_args(request, launcher_dir, p, session)
}

/// The process creation flag that keeps a console window from opening for
/// the child on Windows.
pub const CREATE_NO_WINDOW: u32 = 0x08000000;

/// The creation flags of the game process on `p`.
pub open spec fn creation_flags_of(p: Platform) -> u32 {
    match p {
        Platform::Windows => CREATE_NO_WINDOW,
        Platform::Unix => 0,
    }
}

/// A process to start, with its output sent to pipes.
#[derive(Clone, Debug, PartialEq, Eq)]
pub struct LaunchCommand {
    pub program: String,
    pub args: Vec<String>,
    pub working_dir: String,
    /// Flags for the platform's process creation; zero where there are none.
    pub creation_flags: u32,
}

/// An entry of the versions directory.
#[derive(Clone, Debug, PartialEq, Eq)]
pub struct DirEntry {
    pub name: String,
    pub is_dir: bool,
}

/// The names of the directories among `entries`, in order.
pub open spec fn dir_names(entries: Seq<DirEntry>) -> Seq<Seq<char>>
    decreases entries.len(),
{
    if entries.len() == 0 {
        Seq::empty()
    } else {
        let init = dir_names(entries.drop_last());
        if entries.last().is_dir {
            init.push(entries.last().name@)
        } else {
            init
        }
    }
}

/// `v` describes the installed version `id`, found at time `now`.
pub open spec fn installed_version(v: GameVersion, id: Seq<char>, now: i64) -> bool {
    &&& v.id@ == id
    &&& v.name@ == id
    &&& v.release_date == now
    &&& v.version_type == VersionType::Release
    &&& v.installed
    &&& v.size_mb == 0
}

/// Each of `vs` describes the installed version of the same place in `ids`,
/// found at time `now`.
pub open spec fn all_installed(vs: Seq<GameVersion>, ids: Seq<Seq<char>>, now: i64) -> bool {
    forall|i: int| 0 <= i < vs.len() ==> installed_version(#[trigger] vs[i], ids[i], now)
}

/// Relies on uuid::Uuid::new_v4 and uuid's Display, which prints the
/// hyphenated form: a fresh random identifier of 36 characters, in groups
/// of 8, 4, 4, 4 and 12 hex digits.
#[verifier::external_body]
fn new_session_id() -> (r: String)
    ensures
        is_session_id(r@),
{
    uuid::Uuid::new_v4().to_string()
}

/// Relies on chrono::Utc::now and DateTime::timestamp: the current time, in
/// seconds since the Unix epoch.
#[verifier::external_body]
fn now_timestamp() -> (r: i64) {
    chrono::Utc::now().timestamp()
}

/// The stateless service behind the game operations.
pub struct GameService;

impl GameService {
    pub fn new() -> (r: GameService) {
        GameService
    }

    /// The runtime flags of a launch: the built-in ones, then the request's
    /// own, unchanged and in order.
    pub fn get_optimized_jvm_args(&self, request: &LaunchRequest) -> (r: Vec<String>)
        ensures
            strs(r@) == baseline_jvm_args() + strs(request.java_args@),
    {
        let mut args: Vec<String> = Vec::new();
        args.push("-Xmx4G".to_string());
        args.push("-Xms1G".to_string());
        args.push("-XX:+UseG1GC".to_string());
        args.push("-XX:+ParallelRefProcEnabled".to_string());
        args.push("-XX:MaxGCPauseMillis=200".to_string());
        args.push("-XX:+UnlockExperimentalVMOptions".to_string());
        args.push("-XX:+DisableExplicitGC".to_string());
        args.push("-XX:+AlwaysPreTouch".to_string());
        args.push("-XX:G1NewSizePercent=30".to_string());
        args.push("-XX:G1MaxNewSizePercent=40".to_string());
        args.push("-XX:G1HeapRegionSize=8M".to_string());
        args.push("-XX:G1ReservePercent=20".to_string());
        args.push("-XX:G1HeapWastePercent=5".to_string());
        args.push("-XX:+UseStringDeduplication".to_string());
        args.push("-XX:+OptimizeStringConcat".to_string());
        args.push("-XX:+UseCompressedOops".to_string());
        args.push("-XX:+UseFastAccessorMethods".to_string());
        args.push("-Dfml.ignoreInvalidMinecraftCertificates=true".to_string());
        args.push("-Dfml.ignorePatchDiscrepancies=true".to_string());
        assert(strs(args@) =~= baseline_jvm_args());
        extend_strings(&mut args, &request.java_args);
        args
    }

    /// The directory of `version` under `launcher_dir`.
    pub fn version_dir(&self, launcher_dir: &str, version: &str, p: Platform) -> (r: String)
        ensures
            r@ == version_dir_of(launcher_dir@, version@, p),
    {
        let versions = get_versions_dir(launcher_dir, p);
        join(versions.as_str(), version, p)
    }

    /// The archive of `version` under `launcher_dir`.
    pub fn version_jar(&self, launcher_dir: &str, version: &str, p: Platform) -> (r: String)
        ensures
            r@ == version_jar_of(launcher_dir@, version@, p),
    {
        let dir = self.version_dir(launcher_dir, version, p);
        let mut name = version.to_owned();
        proof {
            reveal_strlit(".jar");
        }
        name.append(".jar");
        join(dir.as_str(), name.as_str(), p)
    }

    /// The classpath of `version`: `VersionNotFound` where its directory is
    /// absent, else the archives that the library scan found, in a fixed
    /// order, then the version archive where it exists.
    pub fn build_classpath(
        &self,
        version: &str,
        launcher_dir: &str,
        p: Platform,
        version_dir_exists: bool,
        lib_files: &Vec<String>,
        version_jar_exists: bool,
    ) -> (r: Result<String, LauncherError>)
        ensures
            !version_dir_exists ==> (r matches Err(LauncherError::VersionNotFound(v)) && v@ == version@),
            version_dir_exists ==> (r matches Ok(cp)
                && cp@ == classpath_of(strs(lib_files@), version_jar_of(launcher_dir@, version@, p), version_jar_exists, p)),
    {
        if !version_dir_exists {
            return Err(LauncherError::VersionNotFound(version.to_owned()));
        }
        let jar = self.version_jar(launcher_dir, version, p);
        Ok(classpath_string(lib_files, jar.as_str(), version_jar_exists, p))
    }

    /// The game arguments of `request`, with `session_id` as the session.
    pub fn compose_game_args(&self, request: &LaunchRequest, launcher_dir: &str, p: Platform, session_id: &str) -> (r: Vec<String>)
        ensures
            strs(r@) == request_game_args(*request, launcher_dir@, p, session_id@),
    {
        let game_dir = self.version_dir(launcher_dir, request.version.as_str(), p);
        let assets_dir = get_assets_dir(launcher_dir, p);
        let mut args: Vec<String> = Vec::new();
        args.push("--username".to_string());
        args.push("Player".to_string());
        args.push("--version".to_string());
        args.push(request.version.clone());
        args.push("--gameDir".to_string());
        args.push(game_dir);
        args.push("--assetsDir".to_string());
        args.push(assets_dir);
        args.push("--assetIndex".to_string());
        args.push(request.version.clone());
        args.push("--uuid".to_string());
        args.push(session_id.to_owned());
        args.push("--accessToken".to_string());
        args.push("0".to_string());
        args.push("--userType".to_string());
        args.push("legacy".to_string());
        args.push("--versionType".to_string());
        args.push("BeastMine".to_string());
        extend_strings(&mut args, &request.game_args);
        assert(strs(args@) =~= request_game_args(*request, launcher_dir@, p, session_id@));
        args
    }

    /// The game arguments of `request` with a freshly drawn session.
    pub fn build_game_args(&self, request: &LaunchRequest, launcher_dir: &str, p: Platform) -> (r: Vec<String>)
        ensures
            exists|sid: Seq<char>| is_session_id(sid) && strs(r@) == request_game_args(*request, launcher_dir@, p, sid),
    {
        let sid = new_session_id();
        self.compose_game_args(request, launcher_dir, p, sid.as_str())
    }

    /// What a launch runs, given the outcome of runtime resolution and what
    /// is on disk, with `session_id` as the session. Nothing is to run
    /// where the version directory is absent (`VersionNotFound`) or no
    /// runtime was found (the resolver's error).
    pub fn plan_launch(
        &self,
        request: &LaunchRequest,
        launcher_dir: &str,
        p: Platform,
        runtime: Result<String, LauncherError>,
        version_dir_exists: bool,
        lib_files: &Vec<String>,
        version_jar_exists: bool,
        session_id: &str,
    ) -> (r: Result<LaunchCommand, LauncherError>)
        ensures
            !version_dir_exists ==> (r matches Err(LauncherError::VersionNotFound(v)) && v@ == request.version@),
            version_dir_exists && runtime is Err ==> r == Err::<LaunchCommand, LauncherError>(runtime->Err_0),
            version_dir_exists && runtime is Ok ==> (r matches Ok(cmd) && {
                &&& cmd.program@ == runtime->Ok_0@
                &&& cmd.working_dir@ == version_dir_of(launcher_dir@, request.version@, p)
                &&& cmd.creation_flags == creation_flags_of(p)
                &&& strs(cmd.args@) == launch_args_of(*request, launcher_dir@, p, strs(lib_files@), version_jar_exists, session_id@)
            }),
    {
        if !version_dir_exists {
            return Err(LauncherError::VersionNotFound(request.version.clone()));
        }
        let program = match runtime {
            Ok(path) => path,
            Err(e) => {
                return Err(e);
            },
        };
        let classpath = match self.build_classpath(
            request.version.as_str(),
            launcher_dir,
            p,
            version_dir_exists,
            lib_files,
            version_jar_exists,
        ) {
            Ok(cp) => cp,
            Err(e) => {
                return Err(e);
            },
        };
        let mut args = self.get_optimized_jvm_args(request);
        let ghost jvm = strs(args@);
        args.push("-cp".to_string());
        args.push(classpath);
        args.push("net.minecraft.client.main.Main".to_string());
        let ghost with_main = strs(args@);
        assert(with_main =~= jvm + seq!["-cp"@, classpath@, "net.minecraft.client.main.Main"@]);
        let game = self.compose_game_args(request, launcher_dir, p, session_id);
        extend_strings(&mut args, &game);
        let working_dir = self.version_dir(launcher_dir, request.version.as_str(), p);
        let creation_flags = match p {
            Platform::Windows => CREATE_NO_WINDOW,
            Platform::Unix => 0,
        };
        Ok(LaunchCommand { program, args, working_dir, creation_flags })
    }

    /// What a launch runs, as `plan_launch` gives it, with a freshly drawn
    /// session.
    pub fn prepare_launch(
        &self,
        request: &LaunchRequest,
        launcher_dir: &str,
        p: Platform,
        runtime: Result<String, LauncherError>,
        version_dir_exists: bool,
        lib_files: &Vec<String>,
        version_jar_exists: bool,
    ) -> (r: Result<LaunchCommand, LauncherError>)
        ensures
            !version_dir_exists ==> (r matches Err(LauncherError::VersionNotFound(v)) && v@ == request.version@),
            version_dir_exists && runtime is Err ==> r == Err::<LaunchCommand, LauncherError>(runtime->Err_0),
            version_dir_exists && runtime is Ok ==> (r matches Ok(cmd) && {
                &&& cmd.program@ == runtime->Ok_0@
                &&& cmd.working_dir@ == version_dir_of(launcher_dir@, request.version@, p)
                &&& cmd.creation_flags == creation_flags_of(p)
                &&& exists|sid: Seq<char>| is_session_id(sid)
                    && strs(cmd.args@) == launch_args_of(*request, launcher_dir@, p, strs(lib_files@), version_jar_exists, sid)
            }),
    {
        let sid = new_session_id();
        self.plan_launch(request, launcher_dir, p, runtime, version_dir_exists, lib_files, version_jar_exists, sid.as_str())
    }

    /// The result of a launch from the outcome of the spawn: the process id
    /// where it started, else `GameError` with the reason.
    pub fn launch_result(&self, spawned: Result<Option<u32>, String>) -> (r: Result<LaunchResult, LauncherError>)
        ensures
            match spawned {
                Ok(pid) => r == Ok::<LaunchResult, LauncherError>(LaunchResult { success: true, pid, error: None }),
                Err(reason) => r == Err::<LaunchResult, LauncherError>(LauncherError::GameError(reason)),
            },
    {
        match spawned {
            Ok(pid) => Ok(LaunchResult { success: true, pid, error: None }),
            Err(reason) => Err(LauncherError::GameError(reason)),
        }
    }

    /// The installed versions among the entries of the versions directory,
    /// found at time `now`: one per directory, in order.
    pub fn versions_from_entries(&self, entries: &Vec<DirEntry>, now: i64) -> (r: Vec<GameVersion>)
        ensures
            r@.len() == dir_names(entries@).len(),
            forall|i: int| 0 <= i < r@.len() ==> installed_version(#[trigger] r@[i], dir_names(entries@)[i], now),
    {
        let mut r: Vec<GameVersion> = Vec::new();
        let mut i: usize = 0;
        assert(entries@.subrange(0, 0) =~= Seq::<DirEntry>::empty());
        while i < entries.len()
            invariant
                i <= entries@.len(),
                r@.len() == dir_names(entries@.subrange(0, i as int)).len(),
                forall|k: int| 0 <= k < r@.len() ==> installed_version(#[trigger] r@[k], dir_names(entries@.subrange(0, i as int))[k], now),
            decreases entries@.len() - i,
        {
            let ghost before = entries@.subrange(0, i as int);
            assert(entries@.subrange(0, i + 1).drop_last() =~= before);
            if entries[i].is_dir {
                let name = entries[i].name.clone();
                r.push(GameVersion {
                    id: name.clone(),
                    name,
                    release_date: now,
                    version_type: VersionType::Release,
                    installed: true,
                    size_mb: 0,
                });
            }
            i = i + 1;
        }
        assert(entries@.subrange(0, entries@.len() as int) =~= entries@);
        r
    }

    /// The installed versions among the entries of the versions directory.
    pub fn get_installed_versions(&self, entries: &Vec<DirEntry>) -> (r: Vec<GameVersion>)
        ensures
            r@.len() == dir_names(entries@).len(),
            exists|now: i64| #[trigger] all_installed(r@, dir_names(entries@), now),
    {
        let now = now_timestamp();
        let r = self.versions_from_entries(entries, now);
        assert(all_installed(r@, dir_names(entries@), now));
        r
    }

    /// The runtimes known: the bundled one where its directory exists.
    pub fn get_java_versions(&self, java_dir: &str, java_dir_exists: bool) -> (r: Vec<JavaVersion>)
        ensures
            !java_dir_exists ==> r@.len() == 0,
            java_dir_exists ==> r@.len() == 1 && r@[0].version@ == "21"@ && r@[0].path@ == java_dir@
                && r@[0].is_default && r@[0].arch@ == "x64"@,
    {
        let mut r: Vec<JavaVersion> = Vec::new();
        if java_dir_exists {
            r.push(JavaVersion {
                version: "21".to_string(),
                path: java_dir.to_owned(),
                is_default: true,
                arch: "x64".to_string(),
            });
        }
        r
    }

    /// Starts an install of `version` in `registry`, as `InstallRegistry::begin`.
    pub fn install_version(&self, registry: &mut InstallRegistry, version: &str, total_bytes: u64) -> (r: Result<InstallProgress, LauncherError>)
        requires
            old(registry).wf(),
        ensures
            final(registry).wf(),
            in_flight(old(registry).installs@, version@) ==> {
                &&& r matches Err(LauncherError::InstallConflict(v)) && v@ == version@
                &&& *final(registry) == *old(registry)
            },
            !in_flight(old(registry).installs@, version@) ==> r is Ok && started(version@, total_bytes, r->Ok_0),
    {
        registry.begin(version, total_bytes)
    }

    /// The settings in force: the stored record where there is one, else
    /// the defaults.
    pub fn get_settings(&self, stored: Option<GameSettings>) -> (r: GameSettings)
        ensures
            match stored {
                Some(s) => r == s,
                None => is_default_settings(r),
            },
    {
        match stored {
            Some(s) => s,
            None => GameSettings::default(),
        }
    }
}

} // verus!
