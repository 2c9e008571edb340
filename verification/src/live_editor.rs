use vstd::prelude::*;

use crate::json::{one_member_object, one_member_object_text};
use crate::log::{bounded_push, clock_timestamp, is_clock_text, push_bounded, LogEntry, LogLevel};
use crate::text::{same_text, trim_text, trimmed};

verus! {

/// The console of the equation editor keeps this many lines.
pub const MAX_LOG_LINES: usize = 100;

/// The tabs of the right-hand panel.
#[derive(Clone, Copy, Debug, PartialEq, Eq, Structural)]
pub enum RightTab {
    Logs,
    Performance,
    Uniforms,
}

/// A starting equation: its name, its text and a tag.
#[derive(Clone, Copy)]
pub struct Template {
    pub name: &'static str,
    pub equation: &'static str,
    pub tag: &'static str,
}

/// How sending an equation to the relay went.
pub enum SendOutcome {
    /// The relay took it.
    Sent,
    /// The channel refused it; the text says why.
    Failed(String),
    /// There is no connection to a relay.
    Disconnected,
}

/// The snippets the chip buttons append to the equation.
pub fn equation_chips() -> (r: Vec<&'static str>)
    ensures
        r@.len() == 7,
        r@[0]@ == "length(p)"@,
        r@[1]@ == "sqrt(x**2+z**2)"@,
        r@[2]@ == "sin(x)*cos(y)"@,
        r@[3]@ == "max(a,b)"@,
        r@[4]@ == "min(a,b)"@,
        r@[5]@ == "abs(p)"@,
        r@[6]@ == "state.x"@,
{
    vec!["length(p)", "sqrt(x**2+z**2)", "sin(x)*cos(y)", "max(a,b)", "min(a,b)", "abs(p)", "state.x"]
}

/// The equation editor: the equation being written, its console, the
/// templates, the open tab, the shader uniforms shown, and the last error.
pub struct EditorState {
    pub equation: String,
    pub logs: Vec<LogEntry>,
    pub templates: Vec<Template>,
    pub active_tab: RightTab,
    pub uniforms: Vec<(String, String)>,
    pub error_msg: Option<String>,
}

/// `after` is the console `before` with one more line of `level` saying `msg`,
/// the oldest line dropped if there are more than [`MAX_LOG_LINES`]; the new
/// line carries an `HH:MM:SS` timestamp.
pub open spec fn logged(before: Seq<LogEntry>, after: Seq<LogEntry>, level: LogLevel, msg: Seq<char>) -> bool {
    let e = after.last();
    &&& after.len() > 0
    &&& after == bounded_push(before, e, MAX_LOG_LINES as nat)
    &&& e.level == level
    &&& e.message@ == msg
    &&& is_clock_text(e.timestamp@)
}

/// The console line that reports a send.
pub open spec fn outcome_log(outcome: SendOutcome) -> (LogLevel, Seq<char>) {
    match outcome {
        SendOutcome::Sent => (LogLevel::Success, "structure broadcasted"@),
        SendOutcome::Failed(e) => (LogLevel::Error, "uplink failed: "@ + e@),
        SendOutcome::Disconnected => (LogLevel::Warn, "relay disconnected"@),
    }
}

impl EditorState {
    pub fn new() -> (s: Self)
        ensures
            s.equation@ == "sqrt(x**2 + y**2 + z**2) - 10.0"@,
            s.logs@.len() == 1,
            s.logs@[0].level == LogLevel::Info,
            s.logs@[0].message@ == "Rationalist terminal initialized"@,
            is_clock_text(s.logs@[0].timestamp@),
            s.active_tab == RightTab::Logs,
            s.uniforms@.len() == 0,
            s.error_msg is None,
            s.templates@.len() == 6,
            s.templates@[0].name@ == "Torus knot"@,
            s.templates@[0].equation@ == "sin(3*phi) * (2+cos(2*phi))"@,
            s.templates@[0].tag@ == "geometry"@,
            s.templates@[1].name@ == "Sphere hole"@,
            s.templates@[1].equation@
                == "Max(sqrt(x**2 + y**2 + z**2) - 10.0, -(sqrt(x**2 + y**2) - 4.0))"@,
            s.templates@[1].tag@ == "geometry"@,
            s.templates@[2].name@ == "Gyroid"@,
            s.templates@[2].equation@ == "sin(x)*cos(y) + sin(y)*cos(z) + sin(z)*cos(x)"@,
            s.templates@[2].tag@ == "advanced"@,
            s.templates@[3].name@ == "Orbital Tracking"@,
            s.templates@[3].equation@
                == "sqrt((x - state.x)**2 + (y - state.y)**2 + (z - state.z)**2) - 5.0"@,
            s.templates@[3].tag@ == "physics"@,
            s.templates@[4].name@ == "Mandelbulb"@,
            s.templates@[4].equation@ == "pow(length(p), 8.0) - 1.0"@,
            s.templates@[4].tag@ == "advanced"@,
            s.templates@[5].name@ == "Infinite Cylinder"@,
            s.templates@[5].equation@ == "sqrt(x**2 + y**2) - 5.0"@,
            s.templates@[5].tag@ == "geometry"@,
    {
        let first = LogEntry {
            timestamp: clock_timestamp(),
            level: LogLevel::Info,
            message: String::from_str("Rationalist terminal initialized"),
        };
        let mut logs: Vec<LogEntry> = Vec::new();
        logs.push(first);
        EditorState {
            equation: String::from_str("sqrt(x**2 + y**2 + z**2) - 10.0"),
            logs,
            active_tab: RightTab::Logs,
            uniforms: Vec::new(),
            error_msg: None,
            templates: vec![
                Template {
                    name: "Torus knot",
                    equation: "sin(3*phi) * (2+cos(2*phi))",
                    tag: "geometry",
                },
                Template {
                    name: "Sphere hole",
                    equation: "Max(sqrt(x**2 + y**2 + z**2) - 10.0, -(sqrt(x**2 + y**2) - 4.0))",
                    tag: "geometry",
                },
                Template {
                    name: "Gyroid",
                    equation: "sin(x)*cos(y) + sin(y)*cos(z) + sin(z)*cos(x)",
                    tag: "advanced",
                },
                Template {
                    name: "Orbital Tracking",
                    equation: "sqrt((x - state.x)**2 + (y - state.y)**2 + (z - state.z)**2) - 5.0",
                    tag: "physics",
                },
                Template {
                    name: "Mandelbulb",
                    equation: "pow(length(p), 8.0) - 1.0",
                    tag: "advanced",
                },
                Template {
                    name: "Infinite Cylinder",
                    equation: "sqrt(x**2 + y**2) - 5.0",
                    tag: "geometry",
                },
            ],
        }
    }

    /// Appends a console line stamped `timestamp`, keeping at most
    /// [`MAX_LOG_LINES`] lines.
    pub fn push_log_at(&mut self, level: LogLevel, msg: &str, timestamp: String)
        requires
            old(self).logs@.len() < usize::MAX,
        ensures
            final(self).logs@.len() > 0,
            final(self).logs@ == bounded_push(old(self).logs@, final(self).logs@.last(), MAX_LOG_LINES as nat),
            final(self).logs@.last().level == level,
            final(self).logs@.last().message@ == msg@,
            final(self).logs@.last().timestamp == timestamp,
            final(self).equation == old(self).equation,
            final(self).templates == old(self).templates,
            final(self).active_tab == old(self).active_tab,
            final(self).uniforms == old(self).uniforms,
            final(self).error_msg == old(self).error_msg,
    {
        let entry = LogEntry { timestamp, level, message: String::from_str(msg) };
        let ghost e = entry;
        push_bounded(&mut self.logs, entry, MAX_LOG_LINES);
        proof {
            assert(self.logs@.last() == e);
        }
    }

    /// Appends a console line stamped with the current time.
    pub fn push_log(&mut self, level: LogLevel, msg: &str)
        requires
            old(self).logs@.len() < usize::MAX,
        ensures
            logged(old(self).logs@, final(self).logs@, level, msg@),
            final(self).equation == old(self).equation,
            final(self).templates == old(self).templates,
            final(self).active_tab == old(self).active_tab,
            final(self).uniforms == old(self).uniforms,
            final(self).error_msg == old(self).error_msg,
    {
        let timestamp = clock_timestamp();
        self.push_log_at(level, msg, timestamp);
    }

    /// Replaces the equation by that of template `index`.
    pub fn select_template(&mut self, index: usize)
        requires
            index < old(self).templates@.len(),
        ensures
            final(self).equation@ == old(self).templates@[index as int].equation@,
            final(self).logs == old(self).logs,
            final(self).templates == old(self).templates,
            final(self).active_tab == old(self).active_tab,
            final(self).uniforms == old(self).uniforms,
            final(self).error_msg == old(self).error_msg,
    {
        self.equation = String::from_str(self.templates[index].equation);
    }

    /// Whether the equation is exactly that of template `index`.
    pub fn template_is_active(&self, index: usize) -> (b: bool)
        requires
            index < self.templates@.len(),
        ensures
            b == (self.equation@ == self.templates@[index as int].equation@),
    {
        same_text(self.equation.as_str(), self.templates[index].equation)
    }

    /// Appends a snippet to the equation.
    pub fn append_chip(&mut self, chip: &str)
        ensures
            final(self).equation@ == old(self).equation@ + chip@,
            final(self).logs == old(self).logs,
            final(self).templates == old(self).templates,
            final(self).active_tab == old(self).active_tab,
            final(self).uniforms == old(self).uniforms,
            final(self).error_msg == old(self).error_msg,
    {
        self.equation.append(chip);
    }

    /// Opens a tab of the right-hand panel.
    pub fn select_tab(&mut self, tab: RightTab)
        ensures
            final(self).active_tab == tab,
            final(self).equation == old(self).equation,
            final(self).logs == old(self).logs,
            final(self).templates == old(self).templates,
            final(self).uniforms == old(self).uniforms,
            final(self).error_msg == old(self).error_msg,
    {
        self.active_tab = tab;
    }

    /// The equation as it is sent for compiling: without white space at
    /// either end.
    pub fn compile_equation(&self) -> (r: String)
        ensures
            r@ == trimmed(self.equation@),
    {
        trim_text(self.equation.as_str())
    }

    /// The message that carries the equation to the renderer: a JSON object
    /// with the one member `equation`, the trimmed equation as a string.
    pub fn relay_payload(&self) -> (r: String)
        ensures
            r@ == one_member_object_text("equation"@, trimmed(self.equation@)),
    {
        let eq = self.compile_equation();
        one_member_object("equation", eq.as_str())
    }

    /// Logs how sending the equation went.
    pub fn record_send(&mut self, outcome: SendOutcome)
        requires
            old(self).logs@.len() < usize::MAX,
        ensures
            logged(old(self).logs@, final(self).logs@, outcome_log(outcome).0, outcome_log(outcome).1),
            final(self).equation == old(self).equation,
            final(self).templates == old(self).templates,
            final(self).active_tab == old(self).active_tab,
            final(self).uniforms == old(self).uniforms,
            final(self).error_msg == old(self).error_msg,
    {
        match outcome {
            SendOutcome::Sent => self.push_log(LogLevel::Success, "structure broadcasted"),
            SendOutcome::Failed(e) => {
                let mut msg = String::from_str("uplink failed: ");
                msg.append(e.as_str());
                self.push_log(LogLevel::Error, msg.as_str());
            },
            SendOutcome::Disconnected => self.push_log(LogLevel::Warn, "relay disconnected"),
        }
    }
}

} // verus!
