use media_download::command::DownloadError;
use media_download::metadata::{DownloadParameters, MetadataError, Platform};
use media_download::session::{DownloadProcess, Phase};

fn host() -> Platform {
    Platform { separator: '/', windows_names: false }
}

fn params(format: &str) -> DownloadParameters {
    DownloadParameters {
        id: "42".to_string(),
        download_folder: "/dl".to_string(),
        format: format.to_string(),
        resolution: "720".to_string(),
        link: "https://example.com/v".to_string(),
    }
}

#[test]
fn video_format_arguments() {
    let mut command = vec!["first".to_string()];
    assert_eq!(DownloadProcess::assign_parameters_to_command(&mut command, &params("mp4")), Ok(()));
    assert_eq!(command, vec!["first", "-f", "bv[height<=720]+ba", "--merge-output-format", "mp4"]);
}

#[test]
fn audio_format_arguments() {
    let mut command = Vec::new();
    assert_eq!(DownloadProcess::assign_parameters_to_command(&mut command, &params("m4a")), Ok(()));
    assert_eq!(command, vec!["-f", "m4a"]);
    let mut command = Vec::new();
    assert_eq!(DownloadProcess::assign_parameters_to_command(&mut command, &params("mp3")), Ok(()));
    assert_eq!(command, vec!["-x", "--audio-format", "mp3"]);
}

#[test]
fn unknown_format_is_refused() {
    let mut command = vec!["first".to_string()];
    assert_eq!(
        DownloadProcess::assign_parameters_to_command(&mut command, &params("webm")),
        Err(DownloadError::UnsupportedFormat)
    );
    assert_eq!(command, vec!["first"]);
    assert_eq!(
        DownloadProcess::metadata_arguments(&params("MP4")).unwrap_err(),
        DownloadError::UnsupportedFormat
    );
    assert_eq!(
        DownloadProcess::fetch_arguments(&params(""), false, "/dl/x.mp4").unwrap_err(),
        DownloadError::UnsupportedFormat
    );
    assert_eq!(
        DownloadProcess::download(&params("flac"), host(), b"").unwrap_err(),
        DownloadError::UnsupportedFormat
    );
}

#[test]
fn metadata_run_arguments() {
    let args = DownloadProcess::metadata_arguments(&params("mp3")).unwrap();
    assert_eq!(
        args,
        vec![
            "https://example.com/v",
            "--no-playlist",
            "-x",
            "--audio-format",
            "mp3",
            "--print",
            "%(title)s[|]%(thumbnail)s[|]%(duration_string)s[|]%(resolution)s[|]%(filesize_approx)s[|]%(title)s_%(epoch>%Y%m%d_%H_%M_%p)s_42.%(ext)s[|]%(playlist_count)s[|]%(playlist_title)s[|]%(playlist_title)s_%(epoch>%Y%m%d_%H_%M_%p)s_42[|]%(webpage_url)s",
        ]
    );
}

#[test]
fn fetch_run_arguments() {
    let args = DownloadProcess::fetch_arguments(&params("m4a"), false, "/dl/x_42.m4a").unwrap();
    assert_eq!(
        args,
        vec![
            "https://example.com/v",
            "--no-playlist",
            "-f",
            "m4a",
            "--no-part",
            "-o",
            "/dl/x_42.m4a",
            "--newline"
        ]
    );
    let args = DownloadProcess::fetch_arguments(&params("mp4"), true, "/dl/Mix_42").unwrap();
    assert_eq!(
        args,
        vec![
            "https://example.com/v",
            "--no-playlist",
            "-f",
            "bv[height<=720]+ba",
            "--merge-output-format",
            "mp4",
            "--no-part",
            "-o",
            "/dl/Mix_42/%(title)s.%(ext)s",
            "--newline"
        ]
    );
}

#[test]
fn download_plan_of_a_single_item() {
    let output = b"T[|]thumb[|]1:00[|]640x360[|]500[|]T_2024_42.mp4[|]NA[|]NA[|]NA_2024_42[|]https://example.com/v\n";
    let plan = DownloadProcess::download(&params("mp4"), host(), output).unwrap();
    assert_eq!(plan.metadata.download_path, "/dl/T_2024_42.mp4");
    assert_eq!(plan.metadata.file_size, 500);
    assert!(!plan.metadata.is_playlist);
    assert_eq!(plan.arguments[7], "-o");
    assert_eq!(plan.arguments[8], "/dl/T_2024_42.mp4");
    assert_eq!(plan.arguments.len(), 10);
    assert_eq!(plan.process.phase, Phase::Downloading);
    assert!(!plan.process.is_playlist);
    assert!(!plan.process.is_cancelled);
    assert_eq!(plan.process.progress.id, "42");
}

#[test]
fn download_plan_fails_with_the_metadata() {
    assert_eq!(
        DownloadProcess::download(&params("mp4"), host(), b" \n").unwrap_err(),
        DownloadError::Metadata(MetadataError::Empty)
    );
    assert_eq!(
        DownloadProcess::download(&params("mp4"), host(), b"a[|]b").unwrap_err(),
        DownloadError::Metadata(MetadataError::Malformed)
    );
    assert_eq!(
        DownloadProcess::download(&params("mp4"), host(), &[0xc3, 0x28]).unwrap_err(),
        DownloadError::Metadata(MetadataError::InvalidEncoding)
    );
}
