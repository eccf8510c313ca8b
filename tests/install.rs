use beastmine_launcher::errors::LauncherError;
use beastmine_launcher::install::{InstallEvent, InstallRegistry};
use beastmine_launcher::models::{InstallProgress, InstallStage};

#[test]
fn successful_install_passes_every_stage_once() {
    let mut st = InstallProgress::start("1.20.1", 1000);
    let mut seen = vec![st.stage.clone()];
    for _ in 0..4 {
        st.apply(InstallEvent::StageDone);
        seen.push(st.stage.clone());
    }
    assert_eq!(
        seen,
        vec![
            InstallStage::Downloading,
            InstallStage::Verifying,
            InstallStage::Extracting,
            InstallStage::InstallingJava,
            InstallStage::Completed,
        ]
    );
    assert_eq!(st.progress, 100);
    st.apply(InstallEvent::StageDone);
    assert_eq!(st.stage, InstallStage::Completed);
    assert!(st.is_finished());
}

#[test]
fn download_progress_is_scaled_and_monotone() {
    let mut st = InstallProgress::start("1.20.1", 1000);
    st.apply(InstallEvent::Progress { bytes_downloaded: 500, speed_bytes_per_sec: 77 });
    assert_eq!(st.bytes_downloaded, 500);
    assert_eq!(st.progress, 30);
    assert_eq!(st.speed_bytes_per_sec, 77);
    st.apply(InstallEvent::Progress { bytes_downloaded: 100, speed_bytes_per_sec: 5 });
    assert_eq!(st.bytes_downloaded, 500);
    assert_eq!(st.progress, 30);
    st.apply(InstallEvent::Progress { bytes_downloaded: 5000, speed_bytes_per_sec: 5 });
    assert_eq!(st.bytes_downloaded, 1000);
    assert_eq!(st.progress, 60);
    st.apply(InstallEvent::StageDone);
    assert_eq!(st.progress, 70);
    assert_eq!(st.speed_bytes_per_sec, 0);
    st.apply(InstallEvent::Progress { bytes_downloaded: 1, speed_bytes_per_sec: 9 });
    assert_eq!(st.bytes_downloaded, 1000);
    assert_eq!(st.speed_bytes_per_sec, 0);
}

#[test]
fn download_progress_with_unknown_size_stays_at_zero() {
    let mut st = InstallProgress::start("x", 0);
    st.apply(InstallEvent::Progress { bytes_downloaded: 10, speed_bytes_per_sec: 1 });
    assert_eq!(st.progress, 0);
    assert_eq!(st.bytes_downloaded, 0);
}

#[test]
fn failure_is_terminal() {
    let mut st = InstallProgress::start("1.20.1", 10);
    st.apply(InstallEvent::StageDone);
    st.apply(InstallEvent::Failed("checksum mismatch".to_string()));
    assert_eq!(st.stage, InstallStage::Error("checksum mismatch".to_string()));
    assert_eq!(st.progress, 70);
    st.apply(InstallEvent::StageDone);
    assert_eq!(st.stage, InstallStage::Error("checksum mismatch".to_string()));
}

#[test]
fn second_install_of_same_version_is_a_conflict() {
    let mut reg = InstallRegistry::new();
    let first = reg.begin("1.20.1", 100).unwrap();
    assert_eq!(first.stage, InstallStage::Downloading);
    assert!(reg.report("1.20.1", InstallEvent::Progress { bytes_downloaded: 50, speed_bytes_per_sec: 3 }));
    let before = reg.state_of("1.20.1").unwrap();
    let r = reg.begin("1.20.1", 999);
    assert_eq!(r, Err(LauncherError::InstallConflict("1.20.1".to_string())));
    assert_eq!(reg.state_of("1.20.1").unwrap(), before);
    assert_eq!(before.bytes_downloaded, 50);
    assert_eq!(before.total_bytes, 100);
}

#[test]
fn installs_of_other_versions_run_side_by_side() {
    let mut reg = InstallRegistry::new();
    assert!(reg.begin("a", 10).is_ok());
    assert!(reg.begin("b", 20).is_ok());
    assert!(reg.report("a", InstallEvent::StageDone));
    assert_eq!(reg.state_of("a").unwrap().stage, InstallStage::Verifying);
    assert_eq!(reg.state_of("b").unwrap().stage, InstallStage::Downloading);
    assert!(!reg.report("c", InstallEvent::StageDone));
    assert_eq!(reg.state_of("c"), None);
}

#[test]
fn finished_install_can_start_again() {
    let mut reg = InstallRegistry::new();
    reg.begin("a", 10).unwrap();
    assert!(reg.report("a", InstallEvent::Failed("disk full".to_string())));
    let again = reg.begin("a", 30).unwrap();
    assert_eq!(again.total_bytes, 30);
    assert_eq!(reg.state_of("a").unwrap().stage, InstallStage::Downloading);
    assert_eq!(reg.installs.len(), 1);
}
