use encoder::chapter::LiveStatusType;
use encoder::encode::{
    escape_special_chars, first_hls_media, session_directory_name, EncodeStream, GetStream,
    Selection,
};

fn request(post_process: bool) -> EncodeStream<'static> {
    EncodeStream {
        stream_url: "https://example.test/live.m3u8",
        save_file_path: "rec/2024-01-01_00-00-00/index.mkv",
        title: "a=b;c#d\\e\nf",
        artist: "someone",
        ffmpeg_binary: " /usr/bin/ffmpeg\n",
        post_process,
        video_codec: "libx264",
        audio_codec: "aac",
    }
}

#[test]
fn directory_name_at_the_epoch() {
    assert_eq!(session_directory_name(0, 0), Some("1970-01-01_00-00-00".to_owned()));
}

#[test]
fn directory_name_follows_the_offset() {
    assert_eq!(session_directory_name(0, 9 * 3600), Some("1970-01-01_09-00-00".to_owned()));
    assert_eq!(
        session_directory_name(1_700_000_000, 9 * 3600),
        Some("2023-11-15_07-13-20".to_owned())
    );
    assert_eq!(
        session_directory_name(1_700_000_000, -5 * 3600),
        Some("2023-11-14_17-13-20".to_owned())
    );
}

#[test]
fn directory_name_limits() {
    assert_eq!(session_directory_name(-1, 0), None);
    assert_eq!(session_directory_name(0, 86_400), None);
    assert_eq!(session_directory_name(0, -86_400), None);
    assert_eq!(session_directory_name(253_402_214_400, 0), None);
    assert_eq!(
        session_directory_name(253_402_214_399, 86_399),
        Some("9999-12-31_23-59-58".to_owned())
    );
    assert_eq!(session_directory_name(0, -86_399), Some("1969-12-31_00-00-01".to_owned()));
}

#[test]
fn escapes_in_sequence() {
    assert_eq!(escape_special_chars("plain"), "plain");
    assert_eq!(escape_special_chars("a=b"), "a\\\\=b");
    assert_eq!(escape_special_chars("a;b#c"), "a\\\\;b\\\\#c");
    assert_eq!(escape_special_chars("a\\b"), "a\\\\b");
    assert_eq!(escape_special_chars("a\nb"), "a b");
}

#[test]
fn capture_writes_the_file_without_transcoding() {
    let launch = request(false).execute();
    assert_eq!(
        launch.streamlink,
        vec![
            "https://example.test/live.m3u8",
            "best",
            "--loglevel",
            "info",
            "--ffmpeg-ffmpeg",
            "/usr/bin/ffmpeg",
            "--ffmpeg-copyts",
            "--ffmpeg-fout",
            "matroska",
            "-o",
            "rec/2024-01-01_00-00-00/index.mkv"
        ]
    );
    assert_eq!(launch.ffmpeg, None);
}

#[test]
fn capture_is_piped_into_the_transcoder() {
    let launch = request(true).execute();
    assert_eq!(
        launch.streamlink,
        vec![
            "https://example.test/live.m3u8",
            "best",
            "--loglevel",
            "info",
            "--ffmpeg-ffmpeg",
            "/usr/bin/ffmpeg",
            "--ffmpeg-copyts",
            "--ffmpeg-fout",
            "matroska",
            "--stdout"
        ]
    );
    let expected: Vec<String> = [
        "-hide_banner",
        "-nostats",
        "-loglevel",
        "info",
        "-i",
        "pipe:",
        "-c:v",
        "libx264",
        "-c:a",
        "aac",
        "-map_metadata",
        "0",
        "-metadata",
        "title=\"a\\\\=b\\\\;c\\\\#d\\\\e f\"",
        "-metadata",
        "artist=\"someone\"",
        "rec/2024-01-01_00-00-00/index.mkv",
    ]
    .iter()
    .map(|s| s.to_string())
    .collect();
    assert_eq!(launch.ffmpeg, Some(expected));
}

#[test]
fn finds_the_first_hls_medium() {
    let ids = |list: &[&str]| list.iter().map(|s| s.to_string()).collect::<Vec<String>>();
    assert_eq!(first_hls_media(&ids(&["LLHLS", "HLS", "HLS"])), Some(1));
    assert_eq!(first_hls_media(&ids(&["HLS"])), Some(0));
    assert_eq!(first_hls_media(&ids(&["LLHLS", "hls"])), None);
    assert_eq!(first_hls_media(&ids(&[])), None);
}

#[test]
fn picks_the_medium_to_record() {
    let ids: Vec<String> = ["LLHLS", "HLS"].iter().map(|s| s.to_string()).collect();
    let none: Vec<String> = vec!["LLHLS".to_owned()];
    let open = LiveStatusType::Open;
    let pick = |status, adult, media_ids| GetStream { status, adult, media_ids }.execute();
    assert_eq!(pick(LiveStatusType::Close, false, Some(&ids)), Selection::Closed);
    assert_eq!(pick(open, true, None), Selection::AdultOnly);
    assert_eq!(pick(open, false, None), Selection::NoPlayback);
    assert_eq!(pick(open, true, Some(&ids)), Selection::Hls(1));
    assert_eq!(pick(open, false, Some(&none)), Selection::NoHls);
}
