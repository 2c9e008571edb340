use vstd::prelude::*;

verus! {

/// Severity of a console line.
#[derive(Clone, Copy, Debug, PartialEq, Eq, Structural)]
pub enum LogLevel {
    Success,
    Info,
    Warn,
    Error,
}

/// One console line: when it was written, how severe it is, and what it says.
pub struct LogEntry {
    pub timestamp: String,
    pub level: LogLevel,
    pub message: String,
}

/// A time of day as `HH:MM:SS`: eight characters, two digits each for the
/// hour, minute and second, joined by colons.
pub open spec fn is_clock_text(s: Seq<char>) -> bool {
    &&& s.len() == 8
    &&& s[2] == ':' && s[5] == ':'
    &&& forall|i: int| 0 <= i < 8 && i != 2 && i != 5 ==> crate::prompt::is_digit(#[trigger] s[i])
}

/// The local wall-clock time as `HH:MM:SS`, through
/// `chrono::Local::now().format("%H:%M:%S").to_string()`.
/// The contract claims the shape that chrono's `%H`, `%M` and `%S` give:
/// three fields of two zero-padded digits each, joined by colons. Which time
/// it shows depends on the clock and the time zone, and is left unsaid.
/// chrono panics where the environment is broken, whatever the caller does:
/// a system clock set before 1970, or an unreadable local time-zone file; no
/// precondition can rule that out.
#[verifier::external_body]
pub(crate) fn clock_timestamp() -> (r: String)
    ensures
        is_clock_text(r@),
{
    chrono::Local::now().format("%H:%M:%S").to_string()
}

/// The console after appending one line to `logs` and, if that makes more
/// than `cap` lines, dropping the oldest.
pub open spec fn bounded_push<T>(logs: Seq<T>, entry: T, cap: nat) -> Seq<T> {
    let all = logs.push(entry);
    if all.len() > cap {
        all.drop_first()
    } else {
        all
    }
}

/// Appends `entry` and drops the oldest line when there are more than `cap`.
pub fn push_bounded(logs: &mut Vec<LogEntry>, entry: LogEntry, cap: usize)
    requires
        old(logs)@.len() < usize::MAX,
    ensures
        final(logs)@ == bounded_push(old(logs)@, entry, cap as nat),
{
    logs.push(entry);
    if logs.len() > cap {
        logs.remove(0);
    }
    proof {
        let all = old(logs)@.push(entry);
        if all.len() > cap {
            assert(final(logs)@ =~= all.drop_first());
        }
    }
}

/// A console that keeps at most `cap` lines keeps at most `cap` lines after
/// any append, keeps the newest line last, and keeps the lines that were
/// already there in their order.
pub proof fn lemma_bounded_push<T>(logs: Seq<T>, entry: T, cap: nat)
    requires
        logs.len() <= cap,
        cap > 0,
    ensures
        bounded_push(logs, entry, cap).len() <= cap,
        bounded_push(logs, entry, cap).last() == entry,
        bounded_push(logs, entry, cap).len() == if logs.len() < cap {
            logs.len() + 1
        } else {
            cap
        },
        bounded_push(logs, entry, cap).drop_last() == if logs.len() < cap {
            logs
        } else {
            logs.drop_first()
        },
{
    let all = logs.push(entry);
    if all.len() > cap {
        assert(all.drop_first().drop_last() =~= logs.drop_first());
    } else {
        assert(all.drop_last() =~= logs);
    }
}

} // verus!
