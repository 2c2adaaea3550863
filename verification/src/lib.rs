//! The logic of a desktop bridge around the `yt-dlp` downloader.
//!
//! A front-end asks for a video by address, format and quality. The bridge
//! answers in three steps, and this library holds the two that decide:
//!
//! 1. [`download_args`] builds the command line for [`DOWNLOADER`].
//! 2. The caller runs the program and collects how it ended in a
//!    [`ProcessOutcome`].
//! 3. [`download_result`] turns that outcome into a [`DownloadResult`] or a
//!    complaint, reading the written file's path off the program's output
//!    with [`parse_destination`].
//!
//! Nothing here starts a process or prints. Every function states what it
//! returns over character sequences, and is proved to return it.

pub mod args;
pub mod destination;
pub mod greeting;
pub mod outcome;
pub mod text;

pub use crate::args::{download_args, download_notice, format_selector, DOWNLOADER};
pub use crate::destination::parse_destination;
pub use crate::greeting::greet;
pub use crate::outcome::{
    download_result, exit_result, spawn_failure_message, DownloadResult, ProcessOutcome,
};
