//! The clipboard monitor's decisions: whether it runs, when updates are ignored because
//! QuickPaste itself wrote the clipboard, and which new clipboard texts become history
//! entries.  Listening to the system clipboard is the application's part.

use crate::text::{contains, spec_to_lowercase, has_infix, str_equals, to_lowercase, trim, trim_ws};
use vstd::prelude::*;

verus! {

/// The clipboard monitor: whether it is listening.
pub struct ClipboardMonitor {
    running: bool,
}

impl ClipboardMonitor {
    /// Whether the monitor is listening.
    pub closed spec fn is_running(self) -> bool {
        self.running
    }

    /// A monitor that does not listen yet.
    pub fn new() -> (r: Self)
        ensures
            !r.is_running(),
    {
        ClipboardMonitor { running: false }
    }

    /// Whether the monitor is listening.
    pub fn running(&self) -> (r: bool)
        ensures
            r == self.is_running(),
    {
        self.running
    }

    /// Starts the monitor; `true` when it was not running, so that the listener must be
    /// set up now, `false` when it already runs (nothing to do).
    pub fn start(&mut self) -> (r: bool)
        ensures
            final(self).is_running(),
            r == !old(self).is_running(),
    {
        if self.running {
            return false;
        }
        self.running = true;
        true
    }

    /// Stops the monitor; `true` when it was running, so that the listener must be torn
    /// down now.
    pub fn stop(&mut self) -> (r: bool)
        ensures
            !final(self).is_running(),
            r == old(self).is_running(),
    {
        let was = self.running;
        self.running = false;
        was
    }
}

/// The window after QuickPaste writes the clipboard during which clipboard updates are
/// not taken into the history.
pub struct Suppression {
    until_ms: u64,
}

impl Suppression {
    /// The end of the window (ms since the Unix epoch).
    pub closed spec fn until(self) -> u64 {
        self.until_ms
    }

    /// No window.
    pub fn new() -> (r: Self)
        ensures
            r.until() == 0,
    {
        Suppression { until_ms: 0 }
    }

    /// Ignores updates from `now_ms` for `duration_ms` (`suppress_updates_for`); the end
    /// saturates at the largest time.
    pub fn suppress_updates_for(&mut self, now_ms: u64, duration_ms: u64)
        ensures
            final(self).until() == if now_ms + duration_ms > u64::MAX {
                u64::MAX as int
            } else {
                now_ms + duration_ms
            },
    {
        self.until_ms = now_ms.saturating_add(duration_ms);
    }

    /// Whether updates are ignored at `now_ms`.
    pub fn updates_suppressed(&self, now_ms: u64) -> (r: bool)
        ensures
            r == (now_ms < self.until()),
    {
        now_ms < self.until_ms
    }
}

/// Names of password managers (lower case); copies made in them are never recorded.
pub open spec fn password_manager_names() -> Seq<Seq<char>> {
    seq!["1password"@, "bitwarden"@, "keepass"@, "dashlane"@, "enpass"@, "keeper"@]
}

/// A process is a password manager when its lower-cased name contains one of the names.
pub open spec fn password_manager(proc_name: Seq<char>) -> bool {
    exists|i: int|
        0 <= i < password_manager_names().len() && #[trigger] has_infix(
            spec_to_lowercase(proc_name),
            password_manager_names()[i],
        )
}

/// Whether a process is a password manager (see `password_manager`).
pub fn is_password_manager(proc_name: &str) -> (r: bool)
    ensures
        r == password_manager(proc_name@),
{
    let lower = to_lowercase(proc_name);
    let l = lower.as_str();
    let r = contains(l, "1password") || contains(l, "bitwarden") || contains(l, "keepass")
        || contains(l, "dashlane") || contains(l, "enpass") || contains(l, "keeper");
    proof {
        let names = password_manager_names();
        if r {
            if has_infix(l@, "1password"@) {
                assert(has_infix(spec_to_lowercase(proc_name@), names[0]));
            } else if has_infix(l@, "bitwarden"@) {
                assert(has_infix(spec_to_lowercase(proc_name@), names[1]));
            } else if has_infix(l@, "keepass"@) {
                assert(has_infix(spec_to_lowercase(proc_name@), names[2]));
            } else if has_infix(l@, "dashlane"@) {
                assert(has_infix(spec_to_lowercase(proc_name@), names[3]));
            } else if has_infix(l@, "enpass"@) {
                assert(has_infix(spec_to_lowercase(proc_name@), names[4]));
            } else {
                assert(has_infix(spec_to_lowercase(proc_name@), names[5]));
            }
        } else {
            assert forall|i: int| 0 <= i < names.len() implies !has_infix(
                spec_to_lowercase(proc_name@),
                #[trigger] names[i],
            ) by {
                if i == 0 {
                } else if i == 1 {
                } else if i == 2 {
                } else if i == 3 {
                } else if i == 4 {
                } else {
                }
            }
        }
    }
    r
}

/// A new entry of the clipboard history: the text and the application it was copied in.
pub struct ClipboardPayload {
    pub text: String,
    pub source_app: String,
}

/// Whether a clipboard text becomes a history entry: it is not blank, it differs from the
/// last text recorded, and it was not copied in a password manager.
pub open spec fn recorded(current: Seq<char>, last: Seq<char>, proc_name: Seq<char>) -> bool {
    trim_ws(current).len() > 0 && current != last && !password_manager(proc_name)
}

/// Takes a new clipboard text: when it is recorded (see `recorded`) it becomes the last
/// text and the entry to announce.
pub fn accept_clipboard_text(last: &mut String, current: String, proc_name: String) -> (r: Option<
    ClipboardPayload,
>)
    ensures
        recorded(current@, old(last)@, proc_name@) ==> (r matches Some(p) && p.text@ == current@
            && p.source_app@ == proc_name@ && final(last)@ == current@),
        !recorded(current@, old(last)@, proc_name@) ==> r is None && final(last)@ == old(last)@,
{
    let trimmed = trim(current.as_str());
    if trimmed.as_str().is_empty() {
        return None;
    }
    if str_equals(current.as_str(), last.as_str()) {
        return None;
    }
    if is_password_manager(proc_name.as_str()) {
        return None;
    }
    *last = current.clone();
    Some(ClipboardPayload { text: current, source_app: proc_name })
}

} // verus!
