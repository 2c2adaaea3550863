//! From the end of the downloader's run to the result of the download.

use crate::destination::{destination_of, marker, parse_destination};
use crate::text::{occurs, occurs_at};
use vstd::prelude::*;
use vstd::string::StringExecFns;
use vstd::utf8::{decode_utf8, valid_utf8};

verus! {

/// What the front-end learns of a download that went well.
#[derive(Debug, PartialEq, Eq)]
pub struct DownloadResult {
    /// Whether the download went well.
    pub success: bool,
    /// A sentence for the user.
    pub message: String,
    /// The file that was written, where the downloader announced one.
    pub file_path: Option<String>,
}

/// What a `DownloadResult` holds, as mathematical values.
pub struct DownloadResultView {
    pub success: bool,
    pub message: Seq<char>,
    pub file_path: Option<Seq<char>>,
}

impl View for DownloadResult {
    type V = DownloadResultView;

    open spec fn view(&self) -> DownloadResultView {
        DownloadResultView {
            success: self.success,
            message: self.message@,
            file_path: self.file_path.deep_view(),
        }
    }
}

/// How a run of the downloader ended.
#[derive(Debug, PartialEq, Eq)]
pub enum ProcessOutcome {
    /// The program could not be started.
    SpawnFailed {
        /// The operating system's description of the failure.
        reason: String,
    },
    /// The program ran to its end.
    Exited {
        /// Whether it reported success.
        success: bool,
        /// The bytes it wrote to its standard output.
        stdout: Vec<u8>,
        /// The bytes it wrote to its standard error.
        stderr: Vec<u8>,
    },
}

/// The text that `String::from_utf8_lossy` makes of `bytes`: what they encode
/// where they are UTF-8, and else a text in which U+FFFD stands for each part
/// that is not.
pub uninterp spec fn lossy_text(bytes: Seq<u8>) -> Seq<char>;

/// The result of a download that went well, for the text of the standard
/// output.
pub open spec fn completed(stdout: Seq<char>) -> DownloadResultView {
    DownloadResultView {
        success: true,
        message: "Download completed successfully"@,
        file_path: destination_of(stdout),
    }
}

/// The complaint about a download that failed, for the text of the standard
/// error.
pub open spec fn failure_text(stderr: Seq<char>) -> Seq<char> {
    "Download failed: "@ + stderr
}

/// The complaint about a downloader that could not be started.
pub open spec fn spawn_failure_text(reason: Seq<char>) -> Seq<char> {
    "Failed to execute yt-dlp: "@ + reason
}

/// The result of a run that ended, for the texts of its two streams: that of
/// a download that went well, or the complaint.
pub open spec fn result_of_exit(success: bool, stdout: Seq<char>, stderr: Seq<char>) -> Result<
    DownloadResultView,
    Seq<char>,
> {
    if success {
        Ok(completed(stdout))
    } else {
        Err(failure_text(stderr))
    }
}

/// The result of a run of the downloader.
pub open spec fn result_of(outcome: ProcessOutcome) -> Result<DownloadResultView, Seq<char>> {
    match outcome {
        ProcessOutcome::SpawnFailed { reason } => Err(spawn_failure_text(reason@)),
        ProcessOutcome::Exited { success, stdout, stderr } => result_of_exit(
            success,
            lossy_text(stdout@),
            lossy_text(stderr@),
        ),
    }
}

/// A result as mathematical values.
pub open spec fn result_view(result: Result<DownloadResult, String>) -> Result<
    DownloadResultView,
    Seq<char>,
> {
    match result {
        Ok(download) => Ok(download@),
        Err(complaint) => Err(complaint@),
    }
}

/// Reads `bytes` as text with `String::from_utf8_lossy`.
///
/// Taken on trust from the standard library: that the text depends on the
/// bytes alone, and that bytes which are UTF-8 give the text they encode.
/// What is made of other bytes is known by its name only.
#[verifier::external_body]
fn decode_lossy(bytes: &[u8]) -> (text: String)
    ensures
        text@ == lossy_text(bytes@),
        valid_utf8(bytes@) ==> text@ == decode_utf8(bytes@),
{
    String::from_utf8_lossy(bytes).into_owned()
}

/// The result of a run that ended with `success`, having written `stdout` and
/// `stderr`.
pub fn exit_result(success: bool, stdout: &str, stderr: &str) -> (result: Result<
    DownloadResult,
    String,
>)
    ensures
        result is Ok <==> success,
        result_view(result) == result_of_exit(success, stdout@, stderr@),
{
    if success {
        Ok(
            DownloadResult {
                success: true,
                message: "Download completed successfully".to_owned(),
                file_path: parse_destination(stdout),
            },
        )
    } else {
        let mut complaint: String = "Download failed: ".to_owned();
        complaint.append(stderr);
        Err(complaint)
    }
}

/// The complaint about a downloader that could not be started for `reason`.
pub fn spawn_failure_message(reason: &str) -> (complaint: String)
    ensures
        complaint@ == spawn_failure_text(reason@),
{
    let mut complaint: String = "Failed to execute yt-dlp: ".to_owned();
    complaint.append(reason);
    complaint
}

/// The result of a run of the downloader: that of a download that went well
/// where it exited with success, a complaint where it failed or could not be
/// started. The bytes of its streams are read as UTF-8, leniently: where the
/// stream that counts is UTF-8, the result is that of the text it encodes.
pub fn download_result(outcome: ProcessOutcome) -> (result: Result<DownloadResult, String>)
    ensures
        result is Ok <==> (outcome matches ProcessOutcome::Exited { success, .. } && success),
        result_view(result) == result_of(outcome),
        outcome matches ProcessOutcome::Exited { success, stdout, stderr } ==> {
            &&& success && valid_utf8(stdout@) ==> (result matches Ok(download) && download@
                == completed(decode_utf8(stdout@)))
            &&& !success && valid_utf8(stderr@) ==> (result matches Err(complaint) && complaint@
                == failure_text(decode_utf8(stderr@)))
        },
{
    match outcome {
        ProcessOutcome::SpawnFailed { reason } => Err(spawn_failure_message(reason.as_str())),
        ProcessOutcome::Exited { success, stdout, stderr } => {
            if success {
                let text = decode_lossy(stdout.as_slice());
                exit_result(true, text.as_str(), "")
            } else {
                let text = decode_lossy(stderr.as_slice());
                exit_result(false, "", text.as_str())
            }
        },
    }
}

/// A run that exited with success is a success whether or not its output
/// announces a file: without the marker, the result holds no path.
pub proof fn lemma_success_without_path(stdout: Seq<char>, stderr: Seq<char>)
    requires
        !occurs(stdout, marker()),
    ensures
        result_of_exit(true, stdout, stderr) == Ok::<DownloadResultView, Seq<char>>(
            DownloadResultView {
                success: true,
                message: "Download completed successfully"@,
                file_path: None,
            },
        ),
{
}

/// A run that exited with a failure gives a complaint, and the complaint
/// holds what the run wrote to its standard error.
pub proof fn lemma_failure_holds_stderr(stdout: Seq<char>, stderr: Seq<char>)
    ensures
        result_of_exit(false, stdout, stderr) == Err::<DownloadResultView, Seq<char>>(
            failure_text(stderr),
        ),
        occurs(failure_text(stderr), stderr),
{
    let at = "Download failed: "@.len() as int;
    assert(failure_text(stderr).subrange(at, at + stderr.len()) =~= stderr);
    assert(occurs_at(failure_text(stderr), stderr, at));
}

/// A downloader that could not be started gives a complaint, and the
/// complaint holds the operating system's description of the failure.
pub proof fn lemma_spawn_failure_holds_reason(reason: String)
    ensures
        result_of(ProcessOutcome::SpawnFailed { reason }) == Err::<DownloadResultView, Seq<char>>(
            spawn_failure_text(reason@),
        ),
        occurs(spawn_failure_text(reason@), reason@),
{
    let at = "Failed to execute yt-dlp: "@.len() as int;
    assert(spawn_failure_text(reason@).subrange(at, at + reason@.len()) =~= reason@);
    assert(occurs_at(spawn_failure_text(reason@), reason@, at));
}

} // verus!
