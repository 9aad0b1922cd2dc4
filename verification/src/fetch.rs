//! Accounting for one download: how its progress is displayed, and how many
//! bytes have been written so far.

use vstd::prelude::*;

verus! {

/// How the progress of one download is displayed.
#[derive(Clone, Copy, Debug, PartialEq, Eq, Structural)]
pub enum ProgressMode {
    /// The total size is known: a bar that fills up to it.
    Bar(u64),
    /// The total size is unknown: an indeterminate spinner.
    Spinner,
}

/// The display mode for a download whose response announces `content_length`
/// bytes: a bar of that length where a positive length is announced, a spinner
/// where none or zero is. A negative length is read as the unsigned number
/// with the same 64 bits.
pub open spec fn progress_mode_of(content_length: Option<i64>) -> ProgressMode {
    match content_length {
        Some(n) => if n > 0 {
            ProgressMode::Bar(n as u64)
        } else if n < 0 {
            ProgressMode::Bar((n + 0x1_0000_0000_0000_0000) as u64)
        } else {
            ProgressMode::Spinner
        },
        None => ProgressMode::Spinner,
    }
}

/// The progress of one download.
#[derive(Clone, Copy, Debug, PartialEq, Eq, Structural)]
pub struct DownloadProgress {
    pub mode: ProgressMode,
    pub downloaded: u64,
}

impl DownloadProgress {
    /// The progress of a download that has received nothing yet.
    pub fn begin(content_length: Option<i64>) -> (progress: DownloadProgress)
        ensures
            progress.mode == progress_mode_of(content_length),
            progress.downloaded == 0,
    {
        let mode = match content_length {
            Some(n) => {
                if n > 0 {
                    ProgressMode::Bar(n as u64)
                } else if n < 0 {
                    let below: u64 = (-(n + 1)) as u64;
                    ProgressMode::Bar(u64::MAX - below)
                } else {
                    ProgressMode::Spinner
                }
            },
            None => ProgressMode::Spinner,
        };
        DownloadProgress { mode, downloaded: 0 }
    }

    /// Accounts for a chunk of `len` bytes that was written, and returns the
    /// position to display: the bytes written so far.
    pub fn record_chunk(&mut self, len: usize) -> (position: u64)
        requires
            old(self).downloaded + len <= u64::MAX,
        ensures
            final(self).downloaded == old(self).downloaded + len,
            final(self).mode == old(self).mode,
            position == final(self).downloaded,
    {
        self.downloaded = self.downloaded + len as u64;
        self.downloaded
    }
}

} // verus!
