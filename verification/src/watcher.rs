//! The incremental log-tail watcher's state machine.
//!
//! The watcher follows a growing log file: it remembers the byte length
//! it last saw and a running line counter, reads only what was appended
//! since the last poll, and starts over from the beginning when the file
//! shrinks (truncation or rotation).  Opening and reading the file is
//! the caller's business; the state machine decides where to read from
//! and numbers the lines.

use vstd::prelude::*;

verus! {

/// What one poll should do: on a cold start only record the current
/// length, otherwise read from the given byte offset to the end.
pub enum PollAction {
    Record,
    Read { from: u64 },
}

/// The watcher's memory of one tracked file.
pub struct LogTailState {
    /// File length after the previous poll.
    pub last_file_size: u64,
    /// Lines handed out so far; the next line gets the next index.
    pub last_line_index: u64,
    /// Whether no poll has completed since (re)initialization.
    pub cold_start: bool,
}

impl LogTailState {
    /// A fresh watcher: nothing seen, first poll is a cold start.
    pub fn new() -> (r: Self)
        ensures
            r.last_file_size == 0,
            r.last_line_index == 0,
            r.cold_start,
    {
        LogTailState { last_file_size: 0, last_line_index: 0, cold_start: true }
    }

    /// Whether the next poll is still a cold start.
    pub fn is_cold(&self) -> (r: bool)
        ensures
            r == self.cold_start,
    {
        self.cold_start
    }

    /// A successful poll ends the cold start.
    pub fn mark_warm(&mut self)
        ensures
            !final(self).cold_start,
            final(self).last_file_size == old(self).last_file_size,
            final(self).last_line_index == old(self).last_line_index,
    {
        self.cold_start = false;
    }

    /// Begins one poll against the file's current length.  A cold start
    /// only records the length and replays nothing.  A file shorter than
    /// last seen means truncation or rotation: both counters reset to
    /// zero and reading starts over from the beginning.  Otherwise
    /// reading resumes at the last seen offset.
    pub fn begin_poll(&mut self, current_size: u64) -> (r: PollAction)
        ensures
            old(self).cold_start ==> {
                &&& r is Record
                &&& final(self).last_file_size == current_size
                &&& final(self).last_line_index == old(self).last_line_index
                &&& final(self).cold_start
            },
            (!old(self).cold_start && current_size < old(self).last_file_size) ==> {
                &&& r matches PollAction::Read { from } && from == 0
                &&& final(self).last_file_size == 0
                &&& final(self).last_line_index == 0
                &&& !final(self).cold_start
            },
            (!old(self).cold_start && current_size >= old(self).last_file_size) ==> {
                &&& r matches PollAction::Read { from } && from == old(self).last_file_size
                &&& *final(self) == *old(self)
            },
    {
        if self.cold_start {
            self.last_file_size = current_size;
            return PollAction::Record;
        }
        if current_size < self.last_file_size {
            self.last_file_size = 0;
            self.last_line_index = 0;
        }
        PollAction::Read { from: self.last_file_size }
    }

    /// Numbers the lines read since the last offset, continuing the
    /// running line counter.
    pub fn assign_indices(&mut self, lines: &Vec<String>) -> (r: Vec<(u64, String)>)
        requires
            old(self).last_line_index + lines@.len() <= u64::MAX,
        ensures
            r@.len() == lines@.len(),
            forall|i: int|
                0 <= i < r@.len() ==> (#[trigger] r@[i]).0 == old(self).last_line_index + 1 + i
                    && r@[i].1@ == lines@[i]@,
            final(self).last_line_index == old(self).last_line_index + lines@.len(),
            final(self).last_file_size == old(self).last_file_size,
            final(self).cold_start == old(self).cold_start,
    {
        let mut out: Vec<(u64, String)> = Vec::new();
        let mut i: usize = 0;
        while i < lines.len()
            invariant
                i <= lines@.len(),
                self.last_line_index == old(self).last_line_index + i,
                self.last_file_size == old(self).last_file_size,
                self.cold_start == old(self).cold_start,
                old(self).last_line_index + lines@.len() <= u64::MAX,
                out@.len() == i,
                forall|k: int|
                    0 <= k < i ==> (#[trigger] out@[k]).0 == old(self).last_line_index + 1 + k
                        && out@[k].1@ == lines@[k]@,
            decreases lines@.len() - i,
        {
            self.last_line_index = self.last_line_index + 1;
            out.push((self.last_line_index, lines[i].clone()));
            i = i + 1;
        }
        out
    }

    /// Ends one read poll: the file has been read up to its current
    /// length.
    pub fn finish_poll(&mut self, current_size: u64)
        ensures
            final(self).last_file_size == current_size,
            final(self).last_line_index == old(self).last_line_index,
            final(self).cold_start == old(self).cold_start,
    {
        self.last_file_size = current_size;
    }
}

} // verus!
