//! The install pipeline: Downloading, Verifying, Extracting, InstallingJava,
//! then Completed, or Error from any stage before that; and the registry of
//! installs in flight, one per version.
use vstd::prelude::*;
use vstd::arithmetic::div_mod::lemma_div_is_ordered;
use crate::errors::LauncherError;
use crate::models::{InstallProgress, InstallStage};
use crate::text::str_eq;

verus! {

/// The share of the whole install that the download stands for, in percent.
pub const DOWNLOAD_SHARE: u32 = 60;

/// What the caller reports to the pipeline.
#[derive(Clone, Debug, PartialEq, Eq)]
pub enum InstallEvent {
    /// Bytes received so far, and the current transfer rate.
    Progress { bytes_downloaded: u64, speed_bytes_per_sec: u64 },
    /// The work of the current stage succeeded.
    StageDone,
    /// The work of the current stage failed, for the reason given.
    Failed(String),
}

pub open spec fn is_terminal(s: InstallStage) -> bool {
    s is Completed || s is Error
}

/// The position of a stage in the pipeline; `Error` comes after all.
pub open spec fn rank(s: InstallStage) -> int {
    match s {
        InstallStage::Downloading => 0,
        InstallStage::Verifying => 1,
        InstallStage::Extracting => 2,
        InstallStage::InstallingJava => 3,
        InstallStage::Completed => 4,
        InstallStage::Error(_) => 5,
    }
}

/// The stage that follows `s` once its work succeeded.
pub open spec fn next_stage(s: InstallStage) -> InstallStage {
    match s {
        InstallStage::Downloading => InstallStage::Verifying,
        InstallStage::Verifying => InstallStage::Extracting,
        InstallStage::Extracting => InstallStage::InstallingJava,
        InstallStage::InstallingJava => InstallStage::Completed,
        other => other,
    }
}

/// The coarse progress reported on entering a stage after the download.
pub open spec fn stage_percent(s: InstallStage) -> u32 {
    match s {
        InstallStage::Verifying => 70,
        InstallStage::Extracting => 80,
        InstallStage::InstallingJava => 90,
        InstallStage::Completed => 100,
        _ => 0,
    }
}

/// The progress of the download stage: its share, scaled by the bytes done.
pub open spec fn download_percent(done: u64, total: u64) -> u32 {
    if total == 0 {
        0
    } else {
        ((done as int * DOWNLOAD_SHARE as int) / total as int) as u32
    }
}

/// A fresh install of `version`, downloading from the start.
pub open spec fn started(version: Seq<char>, total: u64, st: InstallProgress) -> bool {
    &&& st.version@ == version
    &&& st.stage == InstallStage::Downloading
    &&& st.progress == 0
    &&& st.bytes_downloaded == 0
    &&& st.total_bytes == total
    &&& st.speed_bytes_per_sec == 0
}

/// The state after `ev`. Terminal states stay as they are; byte counts
/// move only while downloading, and never back.
pub open spec fn step(st: InstallProgress, ev: InstallEvent) -> InstallProgress {
    if is_terminal(st.stage) {
        st
    } else {
        match ev {
            InstallEvent::Progress { bytes_downloaded, speed_bytes_per_sec } => {
                if st.stage is Downloading {
                    let capped = if bytes_downloaded <= st.total_bytes { bytes_downloaded } else { st.total_bytes };
                    let done = if capped >= st.bytes_downloaded { capped } else { st.bytes_downloaded };
                    InstallProgress {
                        version: st.version,
                        progress: download_percent(done, st.total_bytes),
                        stage: st.stage,
                        bytes_downloaded: done,
                        total_bytes: st.total_bytes,
                        speed_bytes_per_sec,
                    }
                } else {
                    st
                }
            },
            InstallEvent::StageDone => InstallProgress {
                version: st.version,
                progress: stage_percent(next_stage(st.stage)),
                stage: next_stage(st.stage),
                bytes_downloaded: st.bytes_downloaded,
                total_bytes: st.total_bytes,
                speed_bytes_per_sec: 0,
            },
            InstallEvent::Failed(reason) => InstallProgress {
                version: st.version,
                progress: st.progress,
                stage: InstallStage::Error(reason),
                bytes_downloaded: st.bytes_downloaded,
                total_bytes: st.total_bytes,
                speed_bytes_per_sec: 0,
            },
        }
    }
}

impl InstallProgress {
    /// The invariant of a live install state.
    pub open spec fn wf(&self) -> bool {
        &&& self.bytes_downloaded <= self.total_bytes
        &&& self.progress <= 100
        &&& self.stage is Downloading ==> self.progress == download_percent(self.bytes_downloaded, self.total_bytes)
        &&& (self.stage is Verifying || self.stage is Extracting || self.stage is InstallingJava || self.stage is Completed)
            ==> self.progress == stage_percent(self.stage)
    }

    /// A fresh install of `version` with `total_bytes` to download.
    pub fn start(version: &str, total_bytes: u64) -> (r: InstallProgress)
        ensures
            started(version@, total_bytes, r),
            r.wf(),
    {
        InstallProgress {
            version: version.to_owned(),
            progress: 0,
            stage: InstallStage::Downloading,
            bytes_downloaded: 0,
            total_bytes,
            speed_bytes_per_sec: 0,
        }
    }

    /// Applies one event to the state.
    pub fn apply(&mut self, ev: InstallEvent)
        requires
            old(self).wf(),
        ensures
            *final(self) == step(*old(self), ev),
            final(self).wf(),
    {
        proof {
            lemma_step_keeps_wf(*self, ev);
        }
        if self.is_finished() {
            return;
        }
        match ev {
            InstallEvent::Progress { bytes_downloaded, speed_bytes_per_sec } => {
                if let InstallStage::Downloading = self.stage {
                    let capped = if bytes_downloaded <= self.total_bytes { bytes_downloaded } else { self.total_bytes };
                    let done = if capped >= self.bytes_downloaded { capped } else { self.bytes_downloaded };
                    self.progress = percent_of_download(done, self.total_bytes);
                    self.bytes_downloaded = done;
                    self.speed_bytes_per_sec = speed_bytes_per_sec;
                }
            },
            InstallEvent::StageDone => {
                let next = match self.stage {
                    InstallStage::Downloading => InstallStage::Verifying,
                    InstallStage::Verifying => InstallStage::Extracting,
                    InstallStage::Extracting => InstallStage::InstallingJava,
                    _ => InstallStage::Completed,
                };
                self.progress = match next {
                    InstallStage::Verifying => 70,
                    InstallStage::Extracting => 80,
                    InstallStage::InstallingJava => 90,
                    _ => 100,
                };
                self.stage = next;
                self.speed_bytes_per_sec = 0;
            },
            InstallEvent::Failed(reason) => {
                self.stage = InstallStage::Error(reason);
                self.speed_bytes_per_sec = 0;
            },
        }
    }

    /// Whether the install reached Completed or Error.
    pub fn is_finished(&self) -> (r: bool)
        ensures
            r == is_terminal(self.stage),
    {
        match self.stage {
            InstallStage::Completed => true,
            InstallStage::Error(_) => true,
            _ => false,
        }
    }

    /// A copy of this state.
    pub fn snapshot(&self) -> (r: InstallProgress)
        ensures
            r == *self,
    {
        let stage = match &self.stage {
            InstallStage::Downloading => InstallStage::Downloading,
            InstallStage::Verifying => InstallStage::Verifying,
            InstallStage::Extracting => InstallStage::Extracting,
            InstallStage::InstallingJava => InstallStage::InstallingJava,
            InstallStage::Completed => InstallStage::Completed,
            InstallStage::Error(reason) => InstallStage::Error(reason.clone()),
        };
        InstallProgress {
            version: self.version.clone(),
            progress: self.progress,
            stage,
            bytes_downloaded: self.bytes_downloaded,
            total_bytes: self.total_bytes,
            speed_bytes_per_sec: self.speed_bytes_per_sec,
        }
    }
}

proof fn lemma_download_percent_bounds(a: u64, b: u64, total: u64)
    requires
        a <= b <= total,
    ensures
        download_percent(a, total) <= download_percent(b, total) <= DOWNLOAD_SHARE,
{
    if total > 0 {
        assert(a as int * 60 <= b as int * 60);
        assert(b as int * 60 <= total as int * 60);
        lemma_div_is_ordered(a as int * 60, b as int * 60, total as int);
        lemma_div_is_ordered(b as int * 60, total as int * 60, total as int);
        assert((total as int * 60) / (total as int) == 60) by (nonlinear_arith)
            requires
                total > 0,
        ;
        assert(0 <= (a as int * 60) / (total as int)) by (nonlinear_arith)
            requires
                total > 0,
        ;
    }
}

/// `done` bytes of `total` as a share of the download stage.
fn percent_of_download(done: u64, total: u64) -> (r: u32)
    requires
        done <= total,
    ensures
        r == download_percent(done, total),
{
    proof {
        lemma_download_percent_bounds(done, done, total);
        if total > 0 {
            lemma_download_percent_bounds(done, total, total);
        }
    }
    if total == 0 {
        0
    } else {
        let scaled: u128 = (done as u128) * 60;
        let q: u128 = scaled / (total as u128);
        proof {
            lemma_download_percent_bounds(done, total, total);
            assert(q == (done as int * 60) / total as int);
        }
        q as u32
    }
}

/// Every event keeps a live state well formed.
pub proof fn lemma_step_keeps_wf(st: InstallProgress, ev: InstallEvent)
    requires
        st.wf(),
    ensures
        step(st, ev).wf(),
{
    if !is_terminal(st.stage) {
        if let InstallEvent::Progress { bytes_downloaded, speed_bytes_per_sec } = ev {
            if st.stage is Downloading {
                let n = step(st, ev);
                lemma_download_percent_bounds(n.bytes_downloaded, n.total_bytes, n.total_bytes);
            }
        }
    }
}

/// Stages only move forward, one at a time, or straight to Error; terminal
/// stages never change; progress never goes back.
pub proof fn lemma_step_forward(st: InstallProgress, ev: InstallEvent)
    requires
        st.wf(),
    ensures
        rank(step(st, ev).stage) == rank(st.stage) || rank(step(st, ev).stage) == rank(st.stage) + 1
            || step(st, ev).stage is Error,
        is_terminal(st.stage) ==> step(st, ev) == st,
        step(st, ev).progress >= st.progress,
        step(st, ev).bytes_downloaded >= st.bytes_downloaded,
{
    if !is_terminal(st.stage) {
        let n = step(st, ev);
        if st.stage is Downloading {
            lemma_download_percent_bounds(st.bytes_downloaded, n.bytes_downloaded, st.total_bytes);
            lemma_download_percent_bounds(n.bytes_downloaded, st.total_bytes, st.total_bytes);
        }
    }
}

/// A successful install passes through exactly Downloading, Verifying,
/// Extracting, InstallingJava and Completed, in that order, none twice, and
/// ends at full progress, where further events change nothing.
pub proof fn lemma_successful_install_stages(s0: InstallProgress, ev: InstallEvent)
    requires
        s0.wf(),
        s0.stage == InstallStage::Downloading,
    ensures
        ({
            let s1 = step(s0, InstallEvent::StageDone);
            let s2 = step(s1, InstallEvent::StageDone);
            let s3 = step(s2, InstallEvent::StageDone);
            let s4 = step(s3, InstallEvent::StageDone);
            let trace = seq![s0.stage, s1.stage, s2.stage, s3.stage, s4.stage];
            &&& trace == seq![
                InstallStage::Downloading,
                InstallStage::Verifying,
                InstallStage::Extracting,
                InstallStage::InstallingJava,
                InstallStage::Completed,
            ]
            &&& trace.no_duplicates()
            &&& s4.progress == 100
            &&& step(s4, ev) == s4
        }),
{
    let s1 = step(s0, InstallEvent::StageDone);
    let s2 = step(s1, InstallEvent::StageDone);
    let s3 = step(s2, InstallEvent::StageDone);
    let s4 = step(s3, InstallEvent::StageDone);
    let trace = seq![s0.stage, s1.stage, s2.stage, s3.stage, s4.stage];
    assert(forall|i: int| 0 <= i < 5 ==> rank(#[trigger] trace[i]) == i);
}

/// The installs in flight, at most one per version.
pub struct InstallRegistry {
    pub installs: Vec<InstallProgress>,
}

/// The index of the install of `version` in `s`, if there is one.
pub open spec fn entry_of(s: Seq<InstallProgress>, version: Seq<char>) -> Option<int> {
    if exists|i: int| 0 <= i < s.len() && (#[trigger] s[i]).version@ == version {
        Some(choose|i: int| 0 <= i < s.len() && (#[trigger] s[i]).version@ == version)
    } else {
        None
    }
}

/// Whether an install of `version` is in flight in `s`.
pub open spec fn in_flight(s: Seq<InstallProgress>, version: Seq<char>) -> bool {
    exists|i: int| 0 <= i < s.len() && (#[trigger] s[i]).version@ == version && !is_terminal(s[i].stage)
}

/// No two states of `s` are for the same version.
pub open spec fn unique_versions(s: Seq<InstallProgress>) -> bool {
    forall|i: int, j: int| 0 <= i < j < s.len() ==> (#[trigger] s[i]).version@ != (#[trigger] s[j]).version@
}

proof fn lemma_entry_at(s: Seq<InstallProgress>, version: Seq<char>, i: int)
    requires
        unique_versions(s),
        0 <= i < s.len(),
        s[i].version@ == version,
    ensures
        entry_of(s, version) == Some(i),
{
    let k = choose|k: int| 0 <= k < s.len() && (#[trigger] s[k]).version@ == version;
    if k < i {
        assert(s[k].version@ != s[i].version@);
    } else if k > i {
        assert(s[i].version@ != s[k].version@);
    }
}

/// Where the versions are unique, replacing one state by another of the
/// same version, or adding one of a new version, moves no other entry.
proof fn lemma_entries_kept(old_s: Seq<InstallProgress>, new_s: Seq<InstallProgress>, version: Seq<char>)
    requires
        unique_versions(old_s),
        unique_versions(new_s),
        old_s.len() <= new_s.len(),
        forall|i: int| 0 <= i < old_s.len() && old_s[i].version@ != version ==> #[trigger] new_s[i] == old_s[i],
        forall|i: int| 0 <= i < new_s.len() && (i >= old_s.len() || old_s[i].version@ == version) ==> (#[trigger] new_s[i]).version@ == version,
    ensures
        forall|v: Seq<char>| v != version ==> entry_of(new_s, v) == entry_of(old_s, v),
        forall|v: Seq<char>| v != version ==> in_flight(new_s, v) == in_flight(old_s, v),
{
    assert forall|v: Seq<char>| v != version implies entry_of(new_s, v) == entry_of(old_s, v) && in_flight(new_s, v) == in_flight(old_s, v) by {
        if exists|i: int| 0 <= i < old_s.len() && (#[trigger] old_s[i]).version@ == v {
            let i = choose|i: int| 0 <= i < old_s.len() && (#[trigger] old_s[i]).version@ == v;
            lemma_entry_at(old_s, v, i);
            assert(new_s[i] == old_s[i]);
            lemma_entry_at(new_s, v, i);
        } else {
            if exists|i: int| 0 <= i < new_s.len() && (#[trigger] new_s[i]).version@ == v {
                let i = choose|i: int| 0 <= i < new_s.len() && (#[trigger] new_s[i]).version@ == v;
                if i < old_s.len() && old_s[i].version@ != version {
                    assert(new_s[i] == old_s[i]);
                }
            }
        }
        if in_flight(new_s, v) {
            let i = choose|i: int| 0 <= i < new_s.len() && (#[trigger] new_s[i]).version@ == v && !is_terminal(new_s[i].stage);
            if i < old_s.len() && old_s[i].version@ != version {
                assert(new_s[i] == old_s[i]);
            }
        }
        if in_flight(old_s, v) {
            let i = choose|i: int| 0 <= i < old_s.len() && (#[trigger] old_s[i]).version@ == v && !is_terminal(old_s[i].stage);
            assert(new_s[i] == old_s[i]);
        }
    }
}

impl InstallRegistry {
    /// Versions are unique and every state is well formed.
    pub open spec fn wf(&self) -> bool {
        &&& unique_versions(self.installs@)
        &&& forall|i: int| 0 <= i < self.installs@.len() ==> (#[trigger] self.installs@[i]).wf()
    }

    pub fn new() -> (r: InstallRegistry)
        ensures
            r.wf(),
            r.installs@.len() == 0,
    {
        InstallRegistry { installs: Vec::new() }
    }

    /// The position of the install of `version`.
    fn find(&self, version: &str) -> (r: Option<usize>)
        requires
            self.wf(),
        ensures
            match r {
                Some(i) => i < self.installs@.len() && self.installs@[i as int].version@ == version@
                    && entry_of(self.installs@, version@) == Some(i as int),
                None => entry_of(self.installs@, version@) is None,
            },
    {
        let mut i: usize = 0;
        while i < self.installs.len()
            invariant
                self.wf(),
                i <= self.installs@.len(),
                forall|j: int| 0 <= j < i ==> (#[trigger] self.installs@[j]).version@ != version@,
            decreases self.installs@.len() - i,
        {
            if str_eq(self.installs[i].version.as_str(), version) {
                proof {
                    lemma_entry_at(self.installs@, version@, i as int);
                }
                return Some(i);
            }
            i = i + 1;
        }
        None
    }

    /// Starts an install of `version`. Refused with `InstallConflict` while
    /// one is in flight for it, leaving that one as it was; a finished one
    /// is replaced by the fresh state.
    pub fn begin(&mut self, version: &str, total_bytes: u64) -> (r: Result<InstallProgress, LauncherError>)
        requires
            old(self).wf(),
        ensures
            final(self).wf(),
            in_flight(old(self).installs@, version@) ==> {
                &&& r matches Err(LauncherError::InstallConflict(v)) && v@ == version@
                &&& *final(self) == *old(self)
            },
            !in_flight(old(self).installs@, version@) ==> {
                &&& r is Ok && started(version@, total_bytes, r->Ok_0)
                &&& entry_of(final(self).installs@, version@) matches Some(k)
                    && final(self).installs@[k] == r->Ok_0
                &&& forall|v: Seq<char>| v != version@ ==> in_flight(final(self).installs@, v) == in_flight(old(self).installs@, v)
                &&& forall|v: Seq<char>| v != version@ ==> entry_of(final(self).installs@, v) == entry_of(old(self).installs@, v)
            },
    {
        let ghost before = self.installs@;
        match self.find(version) {
            Some(i) => {
                if !self.installs[i].is_finished() {
                    return Err(LauncherError::InstallConflict(version.to_owned()));
                }
                proof {
                    assert forall|j: int| 0 <= j < before.len() && (#[trigger] before[j]).version@ == version@ implies is_terminal(before[j].stage) by {
                        lemma_entry_at(before, version@, j);
                    }
                }
                let st = InstallProgress::start(version, total_bytes);
                let copy = st.snapshot();
                self.installs.set(i, st);
                proof {
                    assert(self.installs@ == before.update(i as int, copy));
                    assert(unique_versions(self.installs@)) by {
                        assert forall|a: int, b: int| 0 <= a < b < self.installs@.len() implies (#[trigger] self.installs@[a]).version@ != (#[trigger] self.installs@[b]).version@ by {
                            if a != i && b != i {
                                assert(before[a].version@ != before[b].version@);
                            } else if a == i {
                                assert(before[a].version@ != before[b].version@);
                            } else {
                                assert(before[a].version@ != before[b].version@);
                            }
                        }
                    }
                    lemma_entries_kept(before, self.installs@, version@);
                    lemma_entry_at(self.installs@, version@, i as int);
                }
                Ok(copy)
            },
            None => {
                let st = InstallProgress::start(version, total_bytes);
                let copy = st.snapshot();
                self.installs.push(st);
                proof {
                    assert(self.installs@ == before.push(copy));
                    assert forall|j: int| 0 <= j < before.len() implies (#[trigger] before[j]).version@ != version@ by {
                        if before[j].version@ == version@ {
                            assert(exists|k: int| 0 <= k < before.len() && (#[trigger] before[k]).version@ == version@);
                        }
                    }
                    assert(unique_versions(self.installs@)) by {
                        assert forall|a: int, b: int| 0 <= a < b < self.installs@.len() implies (#[trigger] self.installs@[a]).version@ != (#[trigger] self.installs@[b]).version@ by {
                            if b < before.len() {
                                assert(before[a].version@ != before[b].version@);
                            } else {
                                assert(before[a].version@ != version@);
                            }
                        }
                    }
                    lemma_entries_kept(before, self.installs@, version@);
                    lemma_entry_at(self.installs@, version@, before.len() as int);
                }
                Ok(copy)
            },
        }
    }
    /// The state of the install of `version`, if there is one.
    pub fn state_of(&self, version: &str) -> (r: Option<InstallProgress>)
        requires
            self.wf(),
        ensures
            match entry_of(self.installs@, version@) {
                Some(k) => r == Some(self.installs@[k]),
                None => r is None,
            },
    {
        match self.find(version) {
            Some(i) => Some(self.installs[i].snapshot()),
            None => None,
        }
    }

    /// Hands `ev` to the install of `version`; false where there is none.
    /// Every other install stays as it was.
    pub fn report(&mut self, version: &str, ev: InstallEvent) -> (r: bool)
        requires
            old(self).wf(),
        ensures
            final(self).wf(),
            match entry_of(old(self).installs@, version@) {
                Some(k) => r && final(self).installs@ == old(self).installs@.update(k, step(old(self).installs@[k], ev)),
                None => !r && *final(self) == *old(self),
            },
            forall|v: Seq<char>| entry_of(final(self).installs@, v) == entry_of(old(self).installs@, v),
    {
        match self.find(version) {
            Some(i) => {
                let ghost before = self.installs@;
                let mut st = self.installs[i].snapshot();
                st.apply(ev);
                self.installs.set(i, st);
                proof {
                    assert(unique_versions(self.installs@)) by {
                        assert forall|a: int, b: int| 0 <= a < b < self.installs@.len() implies (#[trigger] self.installs@[a]).version@ != (#[trigger] self.installs@[b]).version@ by {
                            assert(before[a].version@ != before[b].version@);
                        }
                    }
                    lemma_entries_kept(before, self.installs@, version@);
                    lemma_entry_at(self.installs@, version@, i as int);
                }
                true
            },
            None => false,
        }
    }
}

} // verus!
