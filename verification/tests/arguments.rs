use ytdlp_bridge::{download_args, download_notice, format_selector, DOWNLOADER};

const URL: &str = "https://example.com/watch?v=abc123";

fn tokens(list: &[&str]) -> Vec<String> {
    list.iter().map(|token| token.to_string()).collect()
}

#[test]
fn downloader_is_yt_dlp() {
    assert_eq!(DOWNLOADER, "yt-dlp");
}

#[test]
fn video_1080p_is_bounded_by_its_height() {
    assert_eq!(
        download_args(URL, "video", "1080p"),
        tokens(&[
            "--no-playlist",
            "-f",
            "bestvideo[height<=1080]+bestaudio/best[height<=1080]",
            URL,
        ])
    );
}

#[test]
fn video_720p_is_bounded_by_its_height() {
    assert_eq!(
        download_args(URL, "video", "720p"),
        tokens(&[
            "--no-playlist",
            "-f",
            "bestvideo[height<=720]+bestaudio/best[height<=720]",
            URL,
        ])
    );
}

#[test]
fn video_480p_is_bounded_by_its_height() {
    assert_eq!(
        download_args(URL, "video", "480p"),
        tokens(&[
            "--no-playlist",
            "-f",
            "bestvideo[height<=480]+bestaudio/best[height<=480]",
            URL,
        ])
    );
}

#[test]
fn video_360p_is_bounded_by_its_height() {
    assert_eq!(
        download_args(URL, "video", "360p"),
        tokens(&[
            "--no-playlist",
            "-f",
            "bestvideo[height<=360]+bestaudio/best[height<=360]",
            URL,
        ])
    );
}

#[test]
fn selector_follows_the_flag_for_every_known_height() {
    for (quality, height) in [("1080p", "1080"), ("720p", "720"), ("480p", "480"), ("360p", "360")] {
        let args = download_args(URL, "mp4", quality);
        let flag = args.iter().position(|token| token == "-f").expect("the flag is there");
        let expected = format!("bestvideo[height<={height}]+bestaudio/best[height<={height}]");
        assert_eq!(args[flag + 1], expected);
        assert_eq!(args.iter().filter(|token| *token == "-f").count(), 1);
    }
}

#[test]
fn highest_quality_has_no_selector() {
    let args = download_args(URL, "video", "highest");
    assert_eq!(args, tokens(&["--no-playlist", URL]));
    assert!(!args.iter().any(|token| token == "-f"));
}

#[test]
fn unknown_quality_selects_best() {
    assert_eq!(
        download_args(URL, "video", "4k"),
        tokens(&["--no-playlist", "-f", "best", URL])
    );
    assert_eq!(
        download_args(URL, "video", ""),
        tokens(&["--no-playlist", "-f", "best", URL])
    );
}

#[test]
fn quality_is_matched_exactly() {
    assert_eq!(
        download_args(URL, "video", "720P"),
        tokens(&["--no-playlist", "-f", "best", URL])
    );
    assert_eq!(
        download_args(URL, "video", " 720p"),
        tokens(&["--no-playlist", "-f", "best", URL])
    );
    assert_eq!(
        download_args(URL, "video", "Highest"),
        tokens(&["--no-playlist", "-f", "best", URL])
    );
}

#[test]
fn audio_is_extracted_as_mp3_in_every_quality() {
    for quality in ["highest", "1080p", "720p", "480p", "360p", "best", "", "-f"] {
        let args = download_args(URL, "audio", quality);
        assert_eq!(
            args,
            tokens(&["--no-playlist", "-x", "--audio-format", "mp3", URL])
        );
        assert!(!args.iter().any(|token| token == "-f"));
    }
}

#[test]
fn anything_but_audio_is_video() {
    for format in ["video", "Audio", "AUDIO", "audio ", "mp3", ""] {
        assert_eq!(
            download_args(URL, format, "480p"),
            tokens(&[
                "--no-playlist",
                "-f",
                "bestvideo[height<=480]+bestaudio/best[height<=480]",
                URL,
            ])
        );
    }
}

#[test]
fn address_is_the_last_token_as_it_came() {
    for url in ["", " spaced out ", "--exec=rm", "-f", "https://exämple.com/视频"] {
        for (format, quality) in [("audio", "720p"), ("video", "highest"), ("video", "720p")] {
            let args = download_args(url, format, quality);
            assert_eq!(args.last().map(String::as_str), Some(url));
            assert_eq!(args[0], "--no-playlist");
        }
    }
}

#[test]
fn address_that_reads_as_the_flag_is_still_the_address() {
    assert_eq!(
        download_args("-f", "video", "highest"),
        tokens(&["--no-playlist", "-f"])
    );
}

#[test]
fn format_selector_values() {
    assert_eq!(
        format_selector("1080p"),
        Some("bestvideo[height<=1080]+bestaudio/best[height<=1080]")
    );
    assert_eq!(
        format_selector("720p"),
        Some("bestvideo[height<=720]+bestaudio/best[height<=720]")
    );
    assert_eq!(
        format_selector("480p"),
        Some("bestvideo[height<=480]+bestaudio/best[height<=480]")
    );
    assert_eq!(
        format_selector("360p"),
        Some("bestvideo[height<=360]+bestaudio/best[height<=360]")
    );
    assert_eq!(format_selector("144p"), Some("best"));
    assert_eq!(format_selector(""), Some("best"));
    assert_eq!(format_selector("highest"), None);
}

#[test]
fn notice_names_address_format_and_quality() {
    assert_eq!(
        download_notice(URL, "video", "720p"),
        "Downloading: https://example.com/watch?v=abc123 as video with quality 720p"
    );
    assert_eq!(
        download_notice("", "", ""),
        "Downloading:  as  with quality "
    );
}
