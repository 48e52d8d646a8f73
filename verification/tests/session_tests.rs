use media_download::cleanup::{base_name_of, cleanup_action, file_belongs, CleanupAction};
use media_download::session::{DownloadProcess, Event, LoopAction, Phase, ProcessStatus};

#[test]
fn phases_follow_events() {
    assert_eq!(Phase::Idle.after(Event::Start), Phase::FetchingMetadata);
    assert_eq!(Phase::FetchingMetadata.after(Event::MetadataObtained), Phase::MetadataReady);
    assert_eq!(Phase::FetchingMetadata.after(Event::MetadataFailed), Phase::Failed);
    assert_eq!(Phase::MetadataReady.after(Event::FetchSpawned), Phase::Downloading);
    assert_eq!(Phase::MetadataReady.after(Event::SpawnFailed), Phase::Failed);
    assert_eq!(Phase::Idle.after(Event::FetchSpawned), Phase::Idle);
    assert_eq!(Phase::Completed.after(Event::Start), Phase::Completed);
    assert_eq!(Phase::Downloading.after(Event::MetadataFailed), Phase::Downloading);
}

#[test]
fn liveness() {
    assert!(DownloadProcess::is_alive(ProcessStatus::Running));
    assert!(!DownloadProcess::is_alive(ProcessStatus::Exited));
    assert!(!DownloadProcess::is_alive(ProcessStatus::WaitFailed));
}

#[test]
fn new_session_is_downloading() {
    let s = DownloadProcess::new("9".to_string(), true);
    assert_eq!(s.phase, Phase::Downloading);
    assert!(s.is_playlist);
    assert!(!s.is_cancelled);
    assert_eq!(s.progress.id, "9");
    assert_eq!(s.progress.progress_percent, "0.0");
}

#[test]
fn uncancelled_session_reads_then_completes() {
    let mut s = DownloadProcess::new("9".to_string(), false);
    assert_eq!(s.run(ProcessStatus::Running, false), LoopAction::ReadLine);
    assert_eq!(s.phase, Phase::Downloading);
    assert!(s.accept_line("[download]  45.2% of 10.00MiB at 1.50MiB/s ETA 00:07"));
    assert_eq!(s.progress.progress_percent, "45.2");
    assert!(!s.accept_line("[youtube] Extracting URL"));
    assert_eq!(s.progress.progress_percent, "45.2");
    assert_eq!(s.progress.eta, Some("00:07".to_string()));
    assert_eq!(s.run(ProcessStatus::Exited, false), LoopAction::Finish);
    assert_eq!(s.phase, Phase::Completed);
    assert_eq!(s.run(ProcessStatus::Exited, true), LoopAction::Nothing);
    assert_eq!(s.phase, Phase::Completed);
    assert!(!s.is_cancelled);
}

#[test]
fn cancelled_session_never_completes() {
    let mut s = DownloadProcess::new("9".to_string(), false);
    assert_eq!(s.run(ProcessStatus::Running, true), LoopAction::Terminate);
    assert!(s.is_cancelled);
    let mut turn = 0;
    while turn < 50 {
        s.accept_line("[download]  99.9% of 10.00MiB at 1.50MiB/s ETA 00:00");
        assert_eq!(s.run(ProcessStatus::Running, false), LoopAction::Terminate);
        assert_eq!(s.phase, Phase::Downloading);
        turn += 1;
    }
    assert_eq!(s.run(ProcessStatus::Exited, false), LoopAction::CleanUp);
    assert_eq!(s.phase, Phase::Cancelled);
}

#[test]
fn wait_failure_ends_the_loop() {
    let mut s = DownloadProcess::new("9".to_string(), false);
    assert_eq!(s.run(ProcessStatus::WaitFailed, false), LoopAction::Finish);
    let mut s = DownloadProcess::new("9".to_string(), true);
    assert_eq!(s.run(ProcessStatus::WaitFailed, true), LoopAction::CleanUp);
    assert_eq!(s.phase, Phase::Cancelled);
}

#[test]
fn cancel_twice_is_cancel_once() {
    let mut s = DownloadProcess::new("9".to_string(), false);
    s.cancel();
    assert!(s.is_cancelled);
    assert_eq!(s.phase, Phase::Downloading);
    s.cancel();
    assert!(s.is_cancelled);
    assert_eq!(s.phase, Phase::Downloading);
    assert_eq!(s.progress.progress_percent, "0.0");
    assert_eq!(s.run(ProcessStatus::Running, false), LoopAction::Terminate);
}

#[test]
fn single_item_cleanup_removes_the_matching_file() {
    let listing = vec![
        "notes.txt".to_string(),
        "MyVideo_20240101_part.mp4".to_string(),
        "MyVideo_20240101_other.mp4".to_string(),
        "holiday.mp4".to_string(),
    ];
    let action = cleanup_action(true, false, "/downloads/MyVideo_20240101.mp4", '/', &listing);
    assert_eq!(action, CleanupAction::RemoveFile(1));
    let action = cleanup_action(false, false, "/downloads/MyVideo_20240101.mp4", '/', &listing);
    assert_eq!(action, CleanupAction::Nothing);
    let action = cleanup_action(true, false, "/downloads/Absent.mp4", '/', &listing);
    assert_eq!(action, CleanupAction::Nothing);
    let action = cleanup_action(true, false, "C:\\dl\\holiday.webm", '\\', &listing);
    assert_eq!(action, CleanupAction::RemoveFile(3));
}

#[test]
fn playlist_cleanup_removes_the_folder() {
    let listing = vec!["Mix_1".to_string()];
    assert_eq!(
        cleanup_action(true, true, "/downloads/Mix_1", '/', &listing),
        CleanupAction::RemoveFolder
    );
    assert_eq!(cleanup_action(true, true, "/downloads/Mix_1", '/', &vec![]), CleanupAction::RemoveFolder);
    assert_eq!(cleanup_action(false, true, "/downloads/Mix_1", '/', &listing), CleanupAction::Nothing);
}

#[test]
fn base_names() {
    let text = |v: Vec<char>| v.into_iter().collect::<String>();
    assert_eq!(text(base_name_of("/downloads/MyVideo_20240101.mp4", '/')), "MyVideo_20240101");
    assert_eq!(text(base_name_of("MyVideo.final.mp4", '/')), "MyVideo.final");
    assert_eq!(text(base_name_of("C:\\a\\b.c", '\\')), "b");
    assert_eq!(text(base_name_of("/downloads/", '/')), "");
    let base: Vec<char> = "MyVideo_20240101".chars().collect();
    assert!(file_belongs("MyVideo_20240101_part.mp4", &base));
    assert!(!file_belongs("MyVideo.20240101_part", &base));
    assert!(!file_belongs("other.MyVideo_20240101", &base));
}

#[test]
fn out_of_range_line_leaves_the_progress() {
    let mut s = DownloadProcess::new("9".to_string(), false);
    assert!(s.accept_line("[download]  45.2% of 10.00MiB at 1.50MiB/s ETA 00:07"));
    assert!(!s.accept_line("[download] 250.0% of 10.00MiB at 9.99MiB/s ETA 00:01"));
    assert_eq!(s.progress.progress_percent, "45.2");
    assert_eq!(s.progress.speed, Some("1.50MiB/s".to_string()));
}
