use ytdlp_bridge::parse_destination;

fn path(text: &str) -> Option<String> {
    Some(text.to_string())
}

#[test]
fn destination_line_gives_the_path() {
    assert_eq!(
        parse_destination("Destination: /tmp/video.mp4\n"),
        path("/tmp/video.mp4")
    );
}

#[test]
fn destination_is_found_inside_the_output() {
    let output = "[youtube] abc123: Downloading webpage\n\
                  [download] Destination: /tmp/video.mp4\n\
                  [download] 100% of 10.00MiB in 00:01\n";
    assert_eq!(parse_destination(output), path("/tmp/video.mp4"));
}

#[test]
fn output_without_marker_has_no_path() {
    assert_eq!(parse_destination(""), None);
    assert_eq!(parse_destination("[download] 100% of 10.00MiB\n"), None);
    assert_eq!(parse_destination("destination: /tmp/video.mp4\n"), None);
    assert_eq!(parse_destination("Destination /tmp/video.mp4\n"), None);
    assert_eq!(parse_destination("Destination\n:"), None);
    assert_eq!(parse_destination("Destination"), None);
}

#[test]
fn path_ends_with_the_line() {
    assert_eq!(
        parse_destination("Destination: a.mp4\n[ExtractAudio] Not converting audio\n"),
        path("a.mp4")
    );
    assert_eq!(parse_destination("Destination: a.mp4"), path("a.mp4"));
    assert_eq!(parse_destination("Destination: a.mp4\r\nnext"), path("a.mp4"));
    assert_eq!(parse_destination("Destination: a.mp4\r"), path("a.mp4"));
}

#[test]
fn path_is_trimmed_on_both_sides() {
    assert_eq!(parse_destination("Destination:a.mp4\n"), path("a.mp4"));
    assert_eq!(parse_destination("Destination: \t a.mp4 \t \n"), path("a.mp4"));
    assert_eq!(
        parse_destination("Destination:\u{00A0}\u{3000}a.mp4\u{2003}\u{0085}\n"),
        path("a.mp4")
    );
    assert_eq!(
        parse_destination("Destination: my video (1).mp4  \n"),
        path("my video (1).mp4")
    );
}

#[test]
fn empty_destination_line_gives_an_empty_path() {
    assert_eq!(parse_destination("Destination:"), path(""));
    assert_eq!(parse_destination("Destination:\n/tmp/video.mp4\n"), path(""));
    assert_eq!(parse_destination("Destination:   \t\r\n"), path(""));
}

#[test]
fn first_marker_decides() {
    assert_eq!(
        parse_destination("Destination: first.mp4\nDestination: second.mp4\n"),
        path("first.mp4")
    );
    assert_eq!(
        parse_destination("Destination:\nDestination: second.mp4\n"),
        path("")
    );
}

#[test]
fn second_marker_on_the_line_belongs_to_the_path() {
    assert_eq!(
        parse_destination("Destination: a Destination: b\n"),
        path("a Destination: b")
    );
    assert_eq!(
        parse_destination("Destination:Destination:"),
        path("Destination:")
    );
}

#[test]
fn marker_may_overlap_its_own_start() {
    assert_eq!(parse_destination("DestDestination: x\n"), path("x"));
    assert_eq!(parse_destination("DDestination:Destination:\n"), path("Destination:"));
}

#[test]
fn path_may_hold_any_characters() {
    assert_eq!(
        parse_destination("[download] Destination: /home/zoë/Vidéos/视频 🙂.mp4\n"),
        path("/home/zoë/Vidéos/视频 🙂.mp4")
    );
    assert_eq!(
        parse_destination("préambule 视频\nDestination: ü\n"),
        path("ü")
    );
}

#[test]
fn long_output_is_read_to_its_marker() {
    let mut output = String::new();
    for i in 0..2000 {
        output.push_str(&format!("[download] {:5.1}% of 10.00MiB\n", i as f64 / 20.0));
    }
    output.push_str("[Merger] Destination: /tmp/merged.mkv\n");
    assert_eq!(parse_destination(&output), path("/tmp/merged.mkv"));
}
