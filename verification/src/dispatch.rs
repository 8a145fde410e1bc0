//! Event dispatch: given the watch element an event resolved to and the
//! event's file name, apply the element's file-name filter, render its
//! command template, and route the result to immediate execution or to
//! stabilization tracking.

use crate::file_check::FileCheck;
use crate::file_check::FileCheckView;
use crate::stability::spec_route;
use crate::stability::StabilityTracker;
use crate::sat_mul_i64;
use crate::text::join_path;
use crate::text::replace_all;
use crate::text::spec_join_path;
use crate::text::spec_replace;
use crate::watch_element::WatchElement;
use crate::watch_element::WatchElementView;
use crate::watch_manager::spec_search;
use crate::watch_manager::WatchManager;
use vstd::prelude::*;

verus! {

/// Whether a shell treats `c` as plain text, so that escaping leaves it
/// alone: letters, digits, and `- _ = / , . +`.
pub open spec fn is_shell_safe_char(c: char) -> bool {
    (('a' as u32) <= (c as u32) && (c as u32) <= ('z' as u32)) || (('A' as u32) <= (c as u32) && (
    c as u32) <= ('Z' as u32)) || (('0' as u32) <= (c as u32) && (c as u32) <= ('9' as u32)) || c
        == '-' || c == '_' || c == '=' || c == '/' || c == ',' || c == '.' || c == '+'
}

/// One character as it stands inside a single-quoted shell word: a quote or
/// an exclamation mark closes the quotes, stands escaped, and reopens them.
pub open spec fn spec_escape_char(c: char) -> Seq<char> {
    if c == '\'' || c == '!' {
        seq!['\'', '\\', c, '\'']
    } else {
        seq![c]
    }
}

/// The body of a single-quoted shell word holding `s`.
pub open spec fn spec_escape_body(s: Seq<char>) -> Seq<char>
    decreases s.len(),
{
    if s.len() == 0 {
        Seq::empty()
    } else {
        spec_escape_char(s[0]) + spec_escape_body(s.drop_first())
    }
}

/// The shell-safe escaped form of `s`: `s` itself when it is non-empty and
/// made only of safe characters, else `s` wrapped in single quotes with each
/// quote and exclamation mark escaped.
pub open spec fn spec_shell_escape(s: Seq<char>) -> Seq<char> {
    if s.len() > 0 && (forall|i: int| 0 <= i < s.len() ==> is_shell_safe_char(s[i])) {
        s
    } else {
        seq!['\''] + spec_escape_body(s) + seq!['\'']
    }
}

/// Relies on shell_escape::unix::escape: a non-empty string of whitelisted
/// characters (letters, digits, `- _ = / , . +`) is returned unchanged; any
/// other string is wrapped in single quotes, each quote and exclamation mark
/// written as `'\<c>'`.
#[verifier::external_body]
fn shell_escape_str(s: &str) -> (r: String)
    ensures
        r@ == spec_shell_escape(s@),
{
    shell_escape::unix::escape(std::borrow::Cow::Borrowed(s)).into_owned()
}

/// Whether glob pattern `p` matches the whole of `t`: `?` matches exactly
/// one character, `*` any sequence of characters (including none), any other
/// character only itself; there are no escape characters.
pub open spec fn glob_matches(p: Seq<char>, t: Seq<char>) -> bool
    decreases p.len(), t.len(),
{
    if p.len() == 0 {
        t.len() == 0
    } else if p[0] == '*' {
        glob_matches(p.drop_first(), t) || (t.len() > 0 && glob_matches(p, t.drop_first()))
    } else {
        t.len() > 0 && (p[0] == '?' || p[0] == t[0]) && glob_matches(
            p.drop_first(),
            t.drop_first(),
        )
    }
}

/// Relies on wildmatch::WildMatch (`new`, then `matches`): returns true only
/// when the pattern matches the entirety of the text, `?` matching exactly
/// one character and `*` arbitrarily many (including none), with no escape
/// characters defined.
#[verifier::external_body]
fn wild_match(pattern: &str, text: &str) -> (r: bool)
    ensures
        r == glob_matches(pattern@, text@),
{
    wildmatch::WildMatch::new(pattern).matches(text)
}

/// Whether an event's escaped file name passes an element's filter: an empty
/// pattern admits every file.
pub open spec fn spec_passes_filter(file_match: Seq<char>, escaped_file: Seq<char>) -> bool {
    file_match.len() == 0 || glob_matches(file_match, escaped_file)
}

/// Whether the escaped file name passes the element's filter, per
/// `spec_passes_filter`.
pub fn passes_filter(file_match: &str, escaped_file: &str) -> (r: bool)
    ensures
        r == spec_passes_filter(file_match@, escaped_file@),
{
    file_match.is_empty() || wild_match(file_match, escaped_file)
}

/// A command template with `$@` replaced by the escaped base path, then `$#`
/// by the escaped file name, then `$$` by a literal `$`. The passes run in
/// this order, so a later pass rescans what an earlier one substituted.
pub open spec fn spec_render(
    template: Seq<char>,
    escaped_path: Seq<char>,
    escaped_file: Seq<char>,
) -> Seq<char> {
    spec_replace(
        spec_replace(spec_replace(template, seq!['$', '@'], escaped_path), seq!['$', '#'], escaped_file),
        seq!['$', '$'],
        seq!['$'],
    )
}

/// Renders a command template, per `spec_render`.
pub fn render_command(template: &str, escaped_path: &str, escaped_file: &str) -> (r: String)
    ensures
        r@ == spec_render(template@, escaped_path@, escaped_file@),
{
    proof {
        reveal_strlit("$@");
        reveal_strlit("$#");
        reveal_strlit("$$");
        reveal_strlit("$");
        assert("$@"@ =~= seq!['$', '@']);
        assert("$#"@ =~= seq!['$', '#']);
        assert("$$"@ =~= seq!['$', '$']);
        assert("$"@ =~= seq!['$']);
    }
    let with_path = replace_all(template, "$@", escaped_path);
    let with_file = replace_all(with_path.as_str(), "$#", escaped_file);
    replace_all(with_file.as_str(), "$$", "$")
}

/// Where one event goes.
pub enum DispatchOutcome {
    /// The file name does not pass the element's filter; nothing runs.
    Discarded,
    /// The rendered command is to run immediately.
    Execute(FileCheck),
    /// The file is to be tracked until its size stabilizes, then run.
    Defer(FileCheck),
}

/// The mathematical content of a `DispatchOutcome`.
pub enum DispatchOutcomeView {
    /// The file name does not pass the element's filter; nothing runs.
    Discarded,
    /// The rendered command is to run immediately.
    Execute(FileCheckView),
    /// The file is to be tracked until its size stabilizes, then run.
    Defer(FileCheckView),
}

impl View for DispatchOutcome {
    type V = DispatchOutcomeView;

    open spec fn view(&self) -> DispatchOutcomeView {
        match self {
            DispatchOutcome::Discarded => DispatchOutcomeView::Discarded,
            DispatchOutcome::Execute(fc) => DispatchOutcomeView::Execute(fc@),
            DispatchOutcome::Defer(fc) => DispatchOutcomeView::Defer(fc@),
        }
    }
}

/// What dispatching an event against `e` yields. The base path and the file
/// name are escaped first; a file name that fails the filter discards the
/// event; otherwise the command template is rendered with the escaped parts,
/// the pending check's path is the escaped base path joined with the escaped
/// file name, and a zero stabilization interval means immediate execution.
/// The interval becomes milliseconds, saturating at the `i64` range.
pub open spec fn spec_dispatch(e: WatchElementView, file_name: Seq<char>) -> DispatchOutcomeView {
    let escaped_path = spec_shell_escape(e.path);
    let escaped_file = spec_shell_escape(file_name);
    if !spec_passes_filter(e.file_match, escaped_file) {
        DispatchOutcomeView::Discarded
    } else {
        let interval_ms = sat_mul_i64(e.check_interval, 1000);
        let check = FileCheckView {
            path: spec_join_path(escaped_path, escaped_file),
            cmd: spec_render(e.command, escaped_path, escaped_file),
            size: 0u64,
            next_check: interval_ms,
            check_interval: interval_ms,
        };
        if e.check_interval == 0 {
            DispatchOutcomeView::Execute(check)
        } else {
            DispatchOutcomeView::Defer(check)
        }
    }
}

/// Dispatches one event, per `spec_dispatch`: `element` is what the event's
/// watch handle resolved to and `file_name` the file the event names (an
/// event without one is treated as naming the empty string).
pub fn dispatch_event(element: &WatchElement, file_name: &str) -> (r: DispatchOutcome)
    ensures
        r@ == spec_dispatch(element@, file_name@),
{
    let escaped_path = shell_escape_str(element.path.as_str());
    let escaped_file = shell_escape_str(file_name);
    if !passes_filter(element.file_match.as_str(), escaped_file.as_str()) {
        return DispatchOutcome::Discarded;
    }
    let full_path = join_path(escaped_path.as_str(), escaped_file.as_str());
    let converted_cmd = render_command(
        element.command.as_str(),
        escaped_path.as_str(),
        escaped_file.as_str(),
    );
    let interval_ms = crate::i64_sat_mul(element.check_interval, 1000);
    let check = FileCheck::new(full_path.as_str(), interval_ms, converted_cmd.as_str());
    if element.check_interval == 0 {
        DispatchOutcome::Execute(check)
    } else {
        DispatchOutcome::Defer(check)
    }
}

/// Processes one raw event: the handle is resolved against the manager's
/// active set, and what dispatching yields is routed into the tracker. An
/// event whose handle resolves to nothing (for instance one from a watch
/// removed moments earlier) changes nothing.
pub fn process_event(
    manager: &WatchManager,
    tracker: &mut StabilityTracker,
    descriptor: u64,
    file_name: &str,
)
    ensures
        final(tracker)@ == (match spec_search(manager@, descriptor) {
            None => old(tracker)@,
            Some(e) => spec_route(old(tracker)@, spec_dispatch(e, file_name@)),
        }),
{
    match manager.search_element(descriptor) {
        None => {},
        Some(element) => {
            let outcome = dispatch_event(element, file_name);
            tracker.route(outcome);
        },
    }
}

} // verus!
