//! The command line handed to the downloader.
//!
//! A download is one run of `yt-dlp`. Its arguments are a few option tokens,
//! chosen by the wanted format and quality, and then the address.

use crate::text::same_text;
use vstd::prelude::*;
use vstd::string::StringExecFns;

verus! {

/// The program that downloads.
pub const DOWNLOADER: &'static str = "yt-dlp";

/// The value of the format selector for `quality`: none for the highest
/// quality, which leaves the choice to the downloader; the selector bounded by
/// the height that `quality` names; `best` where it names none of the known
/// heights.
pub open spec fn selector_for(quality: Seq<char>) -> Option<Seq<char>> {
    if quality == "highest"@ {
        None
    } else if quality == "1080p"@ {
        Some("bestvideo[height<=1080]+bestaudio/best[height<=1080]"@)
    } else if quality == "720p"@ {
        Some("bestvideo[height<=720]+bestaudio/best[height<=720]"@)
    } else if quality == "480p"@ {
        Some("bestvideo[height<=480]+bestaudio/best[height<=480]"@)
    } else if quality == "360p"@ {
        Some("bestvideo[height<=360]+bestaudio/best[height<=360]"@)
    } else {
        Some("best"@)
    }
}

/// The option tokens for `format` and `quality`: playlists are never
/// expanded; audio is extracted as mp3, whatever the quality; video gets the
/// format selector flag with its value, where the quality has one.
pub open spec fn option_tokens(format: Seq<char>, quality: Seq<char>) -> Seq<Seq<char>> {
    if format == "audio"@ {
        seq!["--no-playlist"@, "-x"@, "--audio-format"@, "mp3"@]
    } else {
        match selector_for(quality) {
            Some(selector) => seq!["--no-playlist"@, "-f"@, selector],
            None => seq!["--no-playlist"@],
        }
    }
}

/// The arguments of a download: the option tokens, then the address.
pub open spec fn download_tokens(url: Seq<char>, format: Seq<char>, quality: Seq<char>) -> Seq<
    Seq<char>,
> {
    option_tokens(format, quality).push(url)
}

/// The line that announces a download.
pub open spec fn notice(url: Seq<char>, format: Seq<char>, quality: Seq<char>) -> Seq<char> {
    "Downloading: "@ + url + " as "@ + format + " with quality "@ + quality
}

/// Whether `tokens` hold the option `flag` with `value` as the token after it.
pub open spec fn has_option(tokens: Seq<Seq<char>>, flag: Seq<char>, value: Seq<char>) -> bool {
    exists|i: int|
        0 <= i && i + 1 < tokens.len() && #[trigger] tokens[i] == flag && tokens[i + 1] == value
}

/// Whether `quality` names one of the heights that a video can be bounded by.
pub open spec fn names_height(quality: Seq<char>) -> bool {
    quality == "1080p"@ || quality == "720p"@ || quality == "480p"@ || quality == "360p"@
}

/// The value of the format selector for `quality`, if it has one.
pub fn format_selector(quality: &str) -> (selector: Option<&'static str>)
    ensures
        selector.deep_view() == selector_for(quality@),
{
    if same_text(quality, "highest") {
        None
    } else if same_text(quality, "1080p") {
        Some("bestvideo[height<=1080]+bestaudio/best[height<=1080]")
    } else if same_text(quality, "720p") {
        Some("bestvideo[height<=720]+bestaudio/best[height<=720]")
    } else if same_text(quality, "480p") {
        Some("bestvideo[height<=480]+bestaudio/best[height<=480]")
    } else if same_text(quality, "360p") {
        Some("bestvideo[height<=360]+bestaudio/best[height<=360]")
    } else {
        Some("best")
    }
}

/// The arguments with which the downloader fetches `url` in `format` and
/// `quality`. The address is handed on as it is.
pub fn download_args(url: &str, format: &str, quality: &str) -> (args: Vec<String>)
    ensures
        args.deep_view() == download_tokens(url@, format@, quality@),
{
    let mut args: Vec<String> = Vec::new();
    args.push("--no-playlist".to_owned());
    if same_text(format, "audio") {
        args.push("-x".to_owned());
        args.push("--audio-format".to_owned());
        args.push("mp3".to_owned());
    } else if let Some(selector) = format_selector(quality) {
        args.push("-f".to_owned());
        args.push(selector.to_owned());
    }
    args.push(url.to_owned());
    assert(args.deep_view() =~= download_tokens(url@, format@, quality@));
    args
}

/// The line that announces the download of `url` in `format` and `quality`.
pub fn download_notice(url: &str, format: &str, quality: &str) -> (line: String)
    ensures
        line@ == notice(url@, format@, quality@),
{
    let mut line: String = "Downloading: ".to_owned();
    line.append(url);
    line.append(" as ");
    line.append(format);
    line.append(" with quality ");
    line.append(quality);
    line
}

/// How the words that name a quality differ: in their length, or in their
/// first character.
proof fn lemma_words_differ()
    ensures
        "1080p"@.len() == 5,
        "720p"@.len() == 4 && "720p"@[0] == '7',
        "480p"@.len() == 4 && "480p"@[0] == '4',
        "360p"@.len() == 4 && "360p"@[0] == '3',
        "highest"@.len() == 7,
{
    reveal_strlit("1080p");
    reveal_strlit("720p");
    reveal_strlit("480p");
    reveal_strlit("360p");
    reveal_strlit("highest");
}

/// No option token but the format selector flag reads `-f`.
proof fn lemma_flags_differ()
    ensures
        "--no-playlist"@ != "-f"@,
        "-x"@ != "-f"@,
        "--audio-format"@ != "-f"@,
        "mp3"@ != "-f"@,
{
    reveal_strlit("-f");
    reveal_strlit("--no-playlist");
    reveal_strlit("-x");
    reveal_strlit("--audio-format");
    reveal_strlit("mp3");
    assert("-x"@[1] != "-f"@[1]);
}

/// A video in a quality that names a height is fetched with the format
/// selector flag, and the flag's value is the selector bounded by that height.
pub proof fn lemma_height_is_selected(url: Seq<char>, format: Seq<char>, quality: Seq<char>)
    requires
        format != "audio"@,
        names_height(quality),
    ensures
        selector_for(quality) is Some,
        download_tokens(url, format, quality) == seq![
            "--no-playlist"@,
            "-f"@,
            selector_for(quality)->Some_0,
            url,
        ],
        has_option(download_tokens(url, format, quality), "-f"@, selector_for(quality)->Some_0),
        quality == "1080p"@ ==> selector_for(quality) == Some(
            "bestvideo[height<=1080]+bestaudio/best[height<=1080]"@,
        ),
        quality == "720p"@ ==> selector_for(quality) == Some(
            "bestvideo[height<=720]+bestaudio/best[height<=720]"@,
        ),
        quality == "480p"@ ==> selector_for(quality) == Some(
            "bestvideo[height<=480]+bestaudio/best[height<=480]"@,
        ),
        quality == "360p"@ ==> selector_for(quality) == Some(
            "bestvideo[height<=360]+bestaudio/best[height<=360]"@,
        ),
{
    lemma_words_differ();
    let tokens = download_tokens(url, format, quality);
    let selector = selector_for(quality)->Some_0;
    assert(tokens =~= seq!["--no-playlist"@, "-f"@, selector, url]);
    assert(tokens[1] == "-f"@ && tokens[2] == selector);
}

/// The selector for a height has one shape: where `quality` is `height` and
/// the letter `p`, the best video and the best whole, each no higher than
/// `height`.
pub proof fn lemma_selector_names_the_height(quality: Seq<char>, height: Seq<char>)
    requires
        names_height(quality),
        quality == height + "p"@,
    ensures
        selector_for(quality) == Some(
            "bestvideo[height<="@ + height + "]+bestaudio/best[height<="@ + height + "]"@,
        ),
{
    lemma_words_differ();
    reveal_strlit("p");
    reveal_strlit("bestvideo[height<=");
    reveal_strlit("]+bestaudio/best[height<=");
    reveal_strlit("]");
    let shaped = "bestvideo[height<="@ + height + "]+bestaudio/best[height<="@ + height + "]"@;
    assert(height =~= quality.take(quality.len() - 1));
    if quality == "1080p"@ {
        reveal_strlit("1080p");
        reveal_strlit("bestvideo[height<=1080]+bestaudio/best[height<=1080]");
        assert(shaped =~= "bestvideo[height<=1080]+bestaudio/best[height<=1080]"@);
    } else if quality == "720p"@ {
        reveal_strlit("720p");
        reveal_strlit("bestvideo[height<=720]+bestaudio/best[height<=720]");
        assert(shaped =~= "bestvideo[height<=720]+bestaudio/best[height<=720]"@);
    } else if quality == "480p"@ {
        reveal_strlit("480p");
        reveal_strlit("bestvideo[height<=480]+bestaudio/best[height<=480]");
        assert(shaped =~= "bestvideo[height<=480]+bestaudio/best[height<=480]"@);
    } else {
        reveal_strlit("360p");
        reveal_strlit("bestvideo[height<=360]+bestaudio/best[height<=360]");
        assert(shaped =~= "bestvideo[height<=360]+bestaudio/best[height<=360]"@);
    }
}

/// A video in the highest quality is fetched without the format selector
/// flag: the choice is left to the downloader.
///
/// The address is a token like the others. One that reads `-f` is left out
/// here: it stands where the address stands, as the last token.
pub proof fn lemma_highest_is_not_selected(url: Seq<char>, format: Seq<char>, quality: Seq<char>)
    requires
        format != "audio"@,
        quality == "highest"@,
        url != "-f"@,
    ensures
        download_tokens(url, format, quality) == seq!["--no-playlist"@, url],
        !option_tokens(format, quality).contains("-f"@),
        !download_tokens(url, format, quality).contains("-f"@),
{
    lemma_flags_differ();
    assert(download_tokens(url, format, quality) =~= seq!["--no-playlist"@, url]);
}

/// Audio is extracted as mp3 in every quality, and never with the format
/// selector flag.
///
/// The address is a token like the others. One that reads `-f` is left out
/// here: it stands where the address stands, as the last token.
pub proof fn lemma_audio_is_extracted(url: Seq<char>, format: Seq<char>, quality: Seq<char>)
    requires
        format == "audio"@,
        url != "-f"@,
    ensures
        download_tokens(url, format, quality) == seq![
            "--no-playlist"@,
            "-x"@,
            "--audio-format"@,
            "mp3"@,
            url,
        ],
        download_tokens(url, format, quality).contains("-x"@),
        has_option(download_tokens(url, format, quality), "--audio-format"@, "mp3"@),
        !option_tokens(format, quality).contains("-f"@),
        !download_tokens(url, format, quality).contains("-f"@),
{
    lemma_flags_differ();
    let tokens = download_tokens(url, format, quality);
    assert(tokens =~= seq!["--no-playlist"@, "-x"@, "--audio-format"@, "mp3"@, url]);
    assert(tokens[1] == "-x"@);
    assert(tokens[2] == "--audio-format"@ && tokens[3] == "mp3"@);
}

} // verus!
