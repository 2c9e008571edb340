use vstd::prelude::*;

use crate::log::{bounded_push, clock_timestamp, is_clock_text, push_bounded, LogEntry, LogLevel};
use crate::prompt::{job_type_of, GenerateRequest, MuseMode, PromptPanel};
use crate::text::same_text;

verus! {

/// The console of the studio keeps this many lines.
pub const MAX_LOG_LINES: usize = 200;

/// The studio's editor: its console, its generator panel, and whether a
/// generated character and motion have arrived.
pub struct EditorState {
    pub logs: Vec<LogEntry>,
    pub prompt_panel: PromptPanel,
    pub loaded_character: bool,
    pub loaded_motion: bool,
}

/// `after` is the console `before` with one more line of `level` saying `msg`,
/// the oldest line dropped if there are more than [`MAX_LOG_LINES`]; the new
/// line carries an `HH:MM:SS` timestamp.
pub open spec fn logged(before: Seq<LogEntry>, after: Seq<LogEntry>, level: LogLevel, msg: Seq<char>) -> bool {
    let e = after.last();
    &&& after.len() > 0
    &&& after == bounded_push(before, e, MAX_LOG_LINES as nat)
    &&& e.level == level
    &&& e.message@ == msg
    &&& is_clock_text(e.timestamp@)
}

/// The stages a generation job reports.
#[derive(Clone, Copy, Debug, PartialEq, Eq, Structural)]
pub enum JobStatus {
    Queued,
    Running,
    Completed,
    Failed,
}

/// The stage a job status text names; other texts name none.
pub open spec fn job_status_of(s: Seq<char>) -> Option<JobStatus> {
    if s == "queued"@ {
        Some(JobStatus::Queued)
    } else if s == "running"@ {
        Some(JobStatus::Running)
    } else if s == "completed"@ {
        Some(JobStatus::Completed)
    } else if s == "failed"@ {
        Some(JobStatus::Failed)
    } else {
        None
    }
}

/// Reads the status field of a job update from the server.
pub fn parse_job_status(status: &str) -> (r: Option<JobStatus>)
    ensures
        r == job_status_of(status@),
{
    if same_text(status, "queued") {
        Some(JobStatus::Queued)
    } else if same_text(status, "running") {
        Some(JobStatus::Running)
    } else if same_text(status, "completed") {
        Some(JobStatus::Completed)
    } else if same_text(status, "failed") {
        Some(JobStatus::Failed)
    } else {
        None
    }
}

impl EditorState {
    pub fn new() -> (s: Self)
        ensures
            s.logs@.len() == 1,
            s.logs@[0].level == LogLevel::Info,
            s.logs@[0].message@ == "Muse initialized"@,
            is_clock_text(s.logs@[0].timestamp@),
            s.prompt_panel.visible,
            s.prompt_panel.mode == MuseMode::TextToCharacter,
            s.prompt_panel.prompt@.len() == 0,
            s.prompt_panel.style_prompt@.len() == 0,
            s.prompt_panel.seed is None,
            !s.prompt_panel.generate_clicked,
            !s.loaded_character,
            !s.loaded_motion,
    {
        let first = LogEntry {
            timestamp: clock_timestamp(),
            level: LogLevel::Info,
            message: String::from_str("Muse initialized"),
        };
        let mut logs: Vec<LogEntry> = Vec::new();
        logs.push(first);
        EditorState {
            logs,
            prompt_panel: PromptPanel::new(),
            loaded_character: false,
            loaded_motion: false,
        }
    }

    /// Appends a console line stamped `timestamp`, keeping at most
    /// [`MAX_LOG_LINES`] lines.
    pub fn push_log_at(&mut self, level: LogLevel, msg: &str, timestamp: String)
        requires
            old(self).logs@.len() < usize::MAX,
        ensures
            final(self).logs@.len() > 0,
            final(self).logs@ == bounded_push(old(self).logs@, final(self).logs@.last(), MAX_LOG_LINES as nat),
            final(self).logs@.last().level == level,
            final(self).logs@.last().message@ == msg@,
            final(self).logs@.last().timestamp == timestamp,
            final(self).prompt_panel == old(self).prompt_panel,
            final(self).loaded_character == old(self).loaded_character,
            final(self).loaded_motion == old(self).loaded_motion,
    {
        let entry = LogEntry { timestamp, level, message: String::from_str(msg) };
        let ghost e = entry;
        push_bounded(&mut self.logs, entry, MAX_LOG_LINES);
        proof {
            assert(self.logs@.last() == e);
        }
    }

    /// Appends a console line stamped with the current time.
    pub fn push_log(&mut self, level: LogLevel, msg: &str)
        requires
            old(self).logs@.len() < usize::MAX,
        ensures
            logged(old(self).logs@, final(self).logs@, level, msg@),
            final(self).prompt_panel == old(self).prompt_panel,
            final(self).loaded_character == old(self).loaded_character,
            final(self).loaded_motion == old(self).loaded_motion,
    {
        let timestamp = clock_timestamp();
        self.push_log_at(level, msg, timestamp);
    }

    /// When the generator panel asked for a generation: consumes the request,
    /// logs that it is sent, and returns what to send.
    pub fn take_generate_request(&mut self) -> (r: Option<GenerateRequest>)
        requires
            old(self).logs@.len() < usize::MAX,
        ensures
            !final(self).prompt_panel.generate_clicked,
            final(self).prompt_panel.mode == old(self).prompt_panel.mode,
            final(self).prompt_panel.prompt == old(self).prompt_panel.prompt,
            final(self).prompt_panel.style_prompt == old(self).prompt_panel.style_prompt,
            final(self).prompt_panel.seed == old(self).prompt_panel.seed,
            final(self).prompt_panel.visible == old(self).prompt_panel.visible,
            final(self).loaded_character == old(self).loaded_character,
            final(self).loaded_motion == old(self).loaded_motion,
            match r {
                Some(req) => {
                    let p = old(self).prompt_panel;
                    &&& p.generate_clicked
                    &&& req.job_type@ == job_type_of(p.mode)
                    &&& req.prompt@ == p.prompt@
                    &&& req.seed == p.seed
                    &&& (match req.style_prompt {
                        Some(s) => p.mode == MuseMode::StyleTransfer && s@ == p.style_prompt@,
                        None => p.mode != MuseMode::StyleTransfer,
                    })
                    &&& logged(
                        old(self).logs@,
                        final(self).logs@,
                        LogLevel::Info,
                        "Sent generate request: "@ + job_type_of(p.mode),
                    )
                },
                None => !old(self).prompt_panel.generate_clicked && final(self).logs@
                    == old(self).logs@,
            },
    {
        if self.prompt_panel.take_generate() {
            let req = self.prompt_panel.generate_request();
            let mut msg = String::from_str("Sent generate request: ");
            msg.append(req.job_type);
            self.push_log(LogLevel::Info, msg.as_str());
            Some(req)
        } else {
            None
        }
    }

    /// A generated character arrived.
    pub fn character_loaded(&mut self)
        requires
            old(self).logs@.len() < usize::MAX,
        ensures
            final(self).loaded_character,
            final(self).loaded_motion == old(self).loaded_motion,
            final(self).prompt_panel == old(self).prompt_panel,
            logged(old(self).logs@, final(self).logs@, LogLevel::Success, "Character loaded"@),
    {
        self.loaded_character = true;
        self.push_log(LogLevel::Success, "Character loaded");
    }

    /// A generated motion arrived.
    pub fn motion_loaded(&mut self)
        requires
            old(self).logs@.len() < usize::MAX,
        ensures
            final(self).loaded_motion,
            final(self).loaded_character == old(self).loaded_character,
            final(self).prompt_panel == old(self).prompt_panel,
            logged(old(self).logs@, final(self).logs@, LogLevel::Success, "Motion loaded"@),
    {
        self.loaded_motion = true;
        self.push_log(LogLevel::Success, "Motion loaded");
    }
}

} // verus!
