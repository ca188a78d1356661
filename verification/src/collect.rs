use vstd::prelude::*;

use crate::text::str_eq;

verus! {

/// What the user typed at the prompt of the recording session (the line without its
/// surrounding blanks).
#[derive(Debug, Clone, Copy, PartialEq, Eq, Structural)]
pub enum SessionCommand {
    /// `q`: stop without saving.
    Quit,
    /// `b`: go back to the previous note and record it again.
    Back,
    /// `r`: record the current note again.
    Rerecord,
    /// Anything else: keep what was recorded for the current note and go on.
    Confirm,
}

/// What the recording session does after a command.
#[derive(Debug, Clone, Copy, PartialEq, Eq, Structural)]
pub enum SessionAction {
    /// Stop without saving.
    Quit,
    /// Went back: forget the frames of note `clear`, which is now the note being recorded.
    MovedBack { clear: usize },
    /// Already at the first note: nothing changes.
    AlreadyAtFirst,
    /// Forget the frames of note `clear` and record it again.
    Rerecord { clear: usize },
    /// No frame arrived for the current note: ask again.
    NoAudio,
    /// `frames` new frames arrived: the next note is now being recorded.
    Confirmed { frames: usize },
}

/// The prompt loop of the tool that records training data: one note after the other, from
/// the first to the last.
#[derive(Debug, Clone, Copy, PartialEq, Eq, Structural)]
pub struct RecordingSession {
    /// The note being recorded.
    pub idx: usize,
    /// How many notes there are to record.
    pub n_notes: usize,
}

/// Reads a command from the text typed at the prompt.
pub fn parse_command(input: &str) -> (c: SessionCommand)
    ensures
        c == (if input@ == "q"@ {
            SessionCommand::Quit
        } else if input@ == "b"@ {
            SessionCommand::Back
        } else if input@ == "r"@ {
            SessionCommand::Rerecord
        } else {
            SessionCommand::Confirm
        }),
{
    if str_eq(input, "q") {
        SessionCommand::Quit
    } else if str_eq(input, "b") {
        SessionCommand::Back
    } else if str_eq(input, "r") {
        SessionCommand::Rerecord
    } else {
        SessionCommand::Confirm
    }
}

impl RecordingSession {
    /// A session about to record the first of `n_notes` notes.
    pub fn new(n_notes: usize) -> (s: RecordingSession)
        ensures
            s.idx == 0,
            s.n_notes == n_notes,
    {
        RecordingSession { idx: 0, n_notes }
    }

    /// Whether every note has been recorded.
    pub fn is_done(&self) -> (b: bool)
        ensures
            b == (self.idx >= self.n_notes),
    {
        self.idx >= self.n_notes
    }

    /// Handles one command, given how many frames the current note had when the prompt was
    /// shown and how many it has now (only a confirmation looks at them, and the count of a
    /// note then has not shrunk).
    pub fn step(&mut self, cmd: SessionCommand, frames_before: usize, frames_now: usize) -> (a: SessionAction)
        requires
            old(self).idx < old(self).n_notes,
            cmd == SessionCommand::Confirm ==> frames_before <= frames_now,
        ensures
            final(self).n_notes == old(self).n_notes,
            final(self).idx <= final(self).n_notes,
            match cmd {
                SessionCommand::Quit => a == SessionAction::Quit && final(self).idx == old(self).idx,
                SessionCommand::Back => if old(self).idx > 0 {
                    final(self).idx == old(self).idx - 1 && a == SessionAction::MovedBack {
                        clear: final(self).idx,
                    }
                } else {
                    final(self).idx == old(self).idx && a == SessionAction::AlreadyAtFirst
                },
                SessionCommand::Rerecord => final(self).idx == old(self).idx && a == SessionAction::Rerecord {
                    clear: old(self).idx,
                },
                SessionCommand::Confirm => if frames_now == frames_before {
                    final(self).idx == old(self).idx && a == SessionAction::NoAudio
                } else {
                    final(self).idx == old(self).idx + 1 && a == SessionAction::Confirmed {
                        frames: (frames_now - frames_before) as usize,
                    }
                },
            },
    {
        match cmd {
            SessionCommand::Quit => SessionAction::Quit,
            SessionCommand::Back => {
                if self.idx > 0 {
                    self.idx = self.idx - 1;
                    SessionAction::MovedBack { clear: self.idx }
                } else {
                    SessionAction::AlreadyAtFirst
                }
            },
            SessionCommand::Rerecord => SessionAction::Rerecord { clear: self.idx },
            SessionCommand::Confirm => {
                let new_frames = frames_now - frames_before;
                if new_frames == 0 {
                    SessionAction::NoAudio
                } else {
                    self.idx = self.idx + 1;
                    SessionAction::Confirmed { frames: new_frames }
                }
            },
        }
    }
}

} // verus!
