//! Self-update: the status shown to the user, the decisions of the update
//! worker, and the command lines handed to the installer's `Update.exe`.
//!
//! Running `Update.exe` and the worker's channels are the application's
//! part.

use vstd::prelude::*;
use crate::settings::split_lf;
use crate::text::{is_white_space, lower_seq, owned, push_char, push_str, trim};

verus! {

/// Why an update check was requested.
#[derive(Clone, Copy, Debug, PartialEq, Eq, Structural)]
pub enum UpdateTrigger {
    Startup,
    Periodic,
    Manual,
}

/// The state of the self-updater.
#[derive(Clone, Copy, Debug, PartialEq, Eq, Structural)]
pub enum UpdaterStatus {
    Disabled,
    Unsupported,
    Idle,
    Checking,
    UpdateAvailable,
    Installing,
    UpToDate,
    InstalledPendingRestart,
    Error,
}

/// The text a status is shown with.
pub open spec fn status_label(s: UpdaterStatus) -> Seq<char> {
    match s {
        UpdaterStatus::Disabled => "Disabled"@,
        UpdaterStatus::Unsupported => "Unsupported"@,
        UpdaterStatus::Idle => "Idle"@,
        UpdaterStatus::Checking => "Checking"@,
        UpdaterStatus::UpdateAvailable => "Update Available"@,
        UpdaterStatus::Installing => "Installing"@,
        UpdaterStatus::UpToDate => "Up To Date"@,
        UpdaterStatus::InstalledPendingRestart => "Installed (Restart Pending)"@,
        UpdaterStatus::Error => "Error"@,
    }
}

impl UpdaterStatus {
    /// The text the status is shown with.
    pub fn label(self) -> (r: &'static str)
        ensures
            r@ == status_label(self),
    {
        match self {
            UpdaterStatus::Disabled => "Disabled",
            UpdaterStatus::Unsupported => "Unsupported",
            UpdaterStatus::Idle => "Idle",
            UpdaterStatus::Checking => "Checking",
            UpdaterStatus::UpdateAvailable => "Update Available",
            UpdaterStatus::Installing => "Installing",
            UpdaterStatus::UpToDate => "Up To Date",
            UpdaterStatus::InstalledPendingRestart => "Installed (Restart Pending)",
            UpdaterStatus::Error => "Error",
        }
    }
}

/// What the update worker reports.
#[derive(Clone, Copy, Debug, PartialEq, Eq, Structural)]
pub enum UpdaterEvent {
    Status(UpdaterStatus),
    InstallReady,
}

/// Whether a status means an update operation is under way, so that no new
/// check is requested.
pub open spec fn in_progress(s: UpdaterStatus) -> bool {
    s == UpdaterStatus::Checking || s == UpdaterStatus::UpdateAvailable || s
        == UpdaterStatus::Installing || s == UpdaterStatus::InstalledPendingRestart
}

/// Whether a status means an update operation is under way.
pub fn updater_status_in_progress(status: UpdaterStatus) -> (r: bool)
    ensures
        r == in_progress(status),
{
    match status {
        UpdaterStatus::Checking | UpdaterStatus::UpdateAvailable | UpdaterStatus::Installing
        | UpdaterStatus::InstalledPendingRestart => true,
        _ => false,
    }
}

/// The status of an updater that was not started: disabled by the
/// configuration, or unsupported where there is no installer.
pub fn inactive_status(enabled: bool) -> (r: UpdaterStatus)
    ensures
        r == if enabled {
            UpdaterStatus::Unsupported
        } else {
            UpdaterStatus::Disabled
        },
{
    if enabled {
        UpdaterStatus::Unsupported
    } else {
        UpdaterStatus::Disabled
    }
}

/// How the self-updater starts: disabled by the configuration; without
/// an installation (no `Update.exe` found) unsupported; otherwise idle,
/// checking every `check_interval` seconds, and able to start
/// `aura.exe` again with the process's own arguments.
pub open spec fn setup_of(
    enabled: bool,
    update_exe: Option<Seq<char>>,
    check_interval: u64,
) -> (UpdaterStatus, Option<u64>) {
    if !enabled {
        (UpdaterStatus::Disabled, None)
    } else {
        match update_exe {
            None => (UpdaterStatus::Unsupported, None),
            Some(_) => (UpdaterStatus::Idle, Some(check_interval)),
        }
    }
}

/// The start of the self-updater: its status, its check interval in
/// seconds, and what restarting into an update needs.
pub fn initialize(
    config: &crate::config::UpdaterConfig,
    update_exe: Option<String>,
    relaunch_args: Vec<String>,
) -> (r: (UpdaterStatus, Option<u64>, Option<RestartContext>))
    ensures
        (r.0, r.1) == setup_of(
            config.enabled,
            match update_exe {
                Some(u) => Some(u@),
                None => None,
            },
            config.check_interval,
        ),
        r.2 is Some <==> r.0 == UpdaterStatus::Idle,
        r.2 matches Some(c) ==> (c.app_exe_name@ == "aura.exe"@ && c.relaunch_args.deep_view()
            == relaunch_args.deep_view() && (update_exe matches Some(u) && c.update_exe@ == u@)),
{
    if !config.enabled {
        return (UpdaterStatus::Disabled, None, None);
    }
    match update_exe {
        None => (UpdaterStatus::Unsupported, None, None),
        Some(u) => {
            let name = crate::installer::binary_filename_with_extension();
            (
                UpdaterStatus::Idle,
                Some(config.check_interval),
                Some(RestartContext { update_exe: u, app_exe_name: name, relaunch_args }),
            )
        },
    }
}

/// What the update worker learned last.
#[derive(Clone, Copy, Debug, PartialEq, Eq, Structural)]
pub enum WorkerInput {
    /// A check was requested.
    Triggered,
    /// The check found no update.
    UpToDate,
    /// The check found an update.
    UpdateFound,
    /// The check failed.
    CheckFailed,
    /// The update was installed.
    Installed,
    /// The installation failed.
    InstallFailed,
}

/// What the update worker does next.
#[derive(Clone, Copy, Debug, PartialEq, Eq, Structural)]
pub enum WorkerAction {
    /// Run `Update.exe --checkForUpdate`.
    Check,
    /// Run `Update.exe --update`.
    Install,
    /// Wait for the next request.
    Wait,
}

/// The events a step of the worker reports, in order, and what it does next.
pub open spec fn worker_plan(input: WorkerInput) -> (Seq<UpdaterEvent>, WorkerAction) {
    match input {
        WorkerInput::Triggered => (
            seq![UpdaterEvent::Status(UpdaterStatus::Checking)],
            WorkerAction::Check,
        ),
        WorkerInput::UpToDate => (seq![UpdaterEvent::Status(UpdaterStatus::UpToDate)], WorkerAction::Wait),
        WorkerInput::UpdateFound => (
            seq![
                UpdaterEvent::Status(UpdaterStatus::UpdateAvailable),
                UpdaterEvent::Status(UpdaterStatus::Installing),
            ],
            WorkerAction::Install,
        ),
        WorkerInput::CheckFailed => (seq![UpdaterEvent::Status(UpdaterStatus::Error)], WorkerAction::Wait),
        WorkerInput::Installed => (
            seq![
                UpdaterEvent::Status(UpdaterStatus::InstalledPendingRestart),
                UpdaterEvent::InstallReady,
            ],
            WorkerAction::Wait,
        ),
        WorkerInput::InstallFailed => (seq![UpdaterEvent::Status(UpdaterStatus::Error)], WorkerAction::Wait),
    }
}

/// One step of the update worker: the events to report, in order, and
/// what to do next.
pub fn worker_step(input: WorkerInput) -> (r: (Vec<UpdaterEvent>, WorkerAction))
    ensures
        r.0@ == worker_plan(input).0,
        r.1 == worker_plan(input).1,
{
    let r = match input {
        WorkerInput::Triggered => (
            vec![UpdaterEvent::Status(UpdaterStatus::Checking)],
            WorkerAction::Check,
        ),
        WorkerInput::UpToDate => (vec![UpdaterEvent::Status(UpdaterStatus::UpToDate)], WorkerAction::Wait),
        WorkerInput::UpdateFound => (
            vec![
                UpdaterEvent::Status(UpdaterStatus::UpdateAvailable),
                UpdaterEvent::Status(UpdaterStatus::Installing),
            ],
            WorkerAction::Install,
        ),
        WorkerInput::CheckFailed => (vec![UpdaterEvent::Status(UpdaterStatus::Error)], WorkerAction::Wait),
        WorkerInput::Installed => (
            vec![
                UpdaterEvent::Status(UpdaterStatus::InstalledPendingRestart),
                UpdaterEvent::InstallReady,
            ],
            WorkerAction::Wait,
        ),
        WorkerInput::InstallFailed => (vec![UpdaterEvent::Status(UpdaterStatus::Error)], WorkerAction::Wait),
    };
    assert(r.0@ =~= worker_plan(input).0);
    r
}

// ---------------------------------------------------------------------------
// Command lines

/// `n` backslashes.
pub open spec fn backslashes(n: nat) -> Seq<char> {
    Seq::new(n, |i: int| '\\')
}

/// The quoted body of an argument, with `pending` backslashes not yet
/// written: backslashes are doubled before a quote (which is escaped) and
/// at the end (before the closing quote), and kept as they are elsewhere.
pub open spec fn quoted_body(s: Seq<char>, pending: nat) -> Seq<char>
    decreases s.len(),
{
    if s.len() == 0 {
        backslashes(2 * pending)
    } else if s[0] == '\\' {
        quoted_body(s.drop_first(), pending + 1)
    } else if s[0] == '"' {
        backslashes(2 * pending + 1) + seq!['"'] + quoted_body(s.drop_first(), 0)
    } else {
        backslashes(pending) + seq![s[0]] + quoted_body(s.drop_first(), 0)
    }
}

/// Whether an argument needs quoting: it holds white space or a quote.
pub open spec fn needs_quotes(s: Seq<char>) -> bool {
    exists|i: int| 0 <= i < s.len() && (is_white_space(#[trigger] s[i]) || s[i] == '"')
}

/// An argument as the Windows command-line parser reads it back.
pub open spec fn quoted_arg(s: Seq<char>) -> Seq<char> {
    if s.len() == 0 {
        "\"\""@
    } else if !needs_quotes(s) {
        s
    } else {
        seq!['"'] + quoted_body(s, 0) + seq!['"']
    }
}

fn push_backslashes(out: &mut String, n: usize)
    ensures
        final(out)@ == old(out)@ + backslashes(n as nat),
{
    let mut i: usize = 0;
    while i < n
        invariant
            i <= n,
            out@ == old(out)@ + backslashes(i as nat),
        decreases n - i,
    {
        push_char(out, '\\');
        i += 1;
        assert(out@ =~= old(out)@ + backslashes(i as nat));
    }
}

/// Quotes one argument for a Windows command line.
pub fn quote_windows_arg(arg: &str) -> (r: String)
    ensures
        r@ == quoted_arg(arg@),
{
    proof {
        reveal_strlit("\"\"");
    }
    let v = crate::text::chars_of(arg);
    if v.len() == 0 {
        return owned("\"\"");
    }
    let mut special = false;
    let mut j: usize = 0;
    while j < v.len()
        invariant
            j <= v.len(),
            v@ == arg@,
            special == exists|i: int| 0 <= i < j && (is_white_space(#[trigger] v@[i]) || v@[i] == '"'),
        decreases v.len() - j,
    {
        if crate::text::is_whitespace(v[j]) || v[j] == '"' {
            special = true;
        }
        j += 1;
    }
    if !special {
        return owned(arg);
    }
    let mut out = String::new();
    push_char(&mut out, '"');
    let mut pending: usize = 0;
    let mut i: usize = 0;
    assert(v@.subrange(0, v.len() as int) =~= v@);
    while i < v.len()
        invariant
            i <= v.len(),
            pending <= i,
            v@ == arg@,
            seq!['"'] + quoted_body(v@, 0) == out@ + quoted_body(
                v@.subrange(i as int, v.len() as int),
                pending as nat,
            ),
        decreases v.len() - i,
    {
        let c = v[i];
        let ghost rest = v@.subrange(i as int, v.len() as int);
        assert(rest[0] == c);
        assert(rest.drop_first() =~= v@.subrange(i + 1, v.len() as int));
        if c == '\\' {
            pending += 1;
        } else if c == '"' {
            let ghost before = out@;
            push_backslashes(&mut out, pending);
            push_backslashes(&mut out, pending);
            push_char(&mut out, '\\');
            push_char(&mut out, '"');
            assert(backslashes(pending as nat) + backslashes(pending as nat) + seq!['\\'] =~= backslashes(
                2 * pending as nat + 1,
            ));
            assert(out@ =~= before + (backslashes(2 * pending as nat + 1) + seq!['"']));
            pending = 0;
        } else {
            let ghost before = out@;
            push_backslashes(&mut out, pending);
            push_char(&mut out, c);
            assert(out@ =~= before + (backslashes(pending as nat) + seq![c]));
            pending = 0;
        }
        i += 1;
    }
    let ghost before = out@;
    push_backslashes(&mut out, pending);
    push_backslashes(&mut out, pending);
    push_char(&mut out, '"');
    assert(backslashes(pending as nat) + backslashes(pending as nat) =~= backslashes(2 * pending as nat));
    assert(v@.subrange(v.len() as int, v.len() as int) =~= Seq::<char>::empty());
    assert(out@ =~= seq!['"'] + quoted_body(v@, 0) + seq!['"']);
    out
}

/// How the Windows C runtime reads one command-line argument from `s`,
/// with `quoted` telling whether a quote is open and `pending` backslashes
/// already read: a run of backslashes before a quote gives half of them, and
/// the quote is literal when the run was odd, else it opens or closes
/// quoting; backslashes elsewhere are literal; white space outside quotes
/// ends the argument.
pub open spec fn read_windows_arg(s: Seq<char>, quoted: bool, pending: nat) -> Seq<char>
    decreases s.len(),
{
    if s.len() == 0 {
        backslashes(pending)
    } else if s[0] == '\\' {
        read_windows_arg(s.drop_first(), quoted, pending + 1)
    } else if s[0] == '"' {
        if pending % 2 == 0 {
            backslashes(pending / 2) + read_windows_arg(s.drop_first(), !quoted, 0)
        } else {
            backslashes(pending / 2) + seq!['"'] + read_windows_arg(s.drop_first(), quoted, 0)
        }
    } else if is_white_space(s[0]) && !quoted {
        backslashes(pending)
    } else {
        backslashes(pending) + seq![s[0]] + read_windows_arg(s.drop_first(), quoted, 0)
    }
}

proof fn lemma_read_backslashes(n: nat, rest: Seq<char>, quoted: bool, pending: nat)
    ensures
        read_windows_arg(backslashes(n) + rest, quoted, pending) == read_windows_arg(
            rest,
            quoted,
            pending + n,
        ),
    decreases n,
{
    if n > 0 {
        let s = backslashes(n) + rest;
        assert(s[0] == '\\');
        assert(s.drop_first() =~= backslashes((n - 1) as nat) + rest);
        lemma_read_backslashes((n - 1) as nat, rest, quoted, pending + 1);
    } else {
        assert(backslashes(0) + rest =~= rest);
    }
}

proof fn lemma_backslashes_add(a: nat, b: nat)
    ensures
        backslashes(a) + backslashes(b) == backslashes(a + b),
{
    assert(backslashes(a) + backslashes(b) =~= backslashes(a + b));
}

/// An argument that needs no quoting reads back as itself.
proof fn lemma_read_plain(s: Seq<char>, pending: nat)
    requires
        !needs_quotes(s),
    ensures
        read_windows_arg(s, false, pending) == backslashes(pending) + s,
    decreases s.len(),
{
    if s.len() == 0 {
        assert(backslashes(pending) + s =~= backslashes(pending));
    } else {
        let r = s.drop_first();
        assert(!needs_quotes(r)) by {
            if needs_quotes(r) {
                let i = choose|i: int| 0 <= i < r.len() && (is_white_space(#[trigger] r[i]) || r[i] == '"');
                assert(s[i + 1] == r[i]);
            }
        }
        assert(!(is_white_space(s[0]) || s[0] == '"'));
        if s[0] == '\\' {
            lemma_read_plain(r, pending + 1);
            lemma_backslashes_add(pending, 1);
            assert(backslashes(1) =~= seq!['\\']);
            assert(s =~= seq!['\\'] + r);
            assert(backslashes(pending + 1) + r =~= backslashes(pending) + s);
        } else {
            lemma_read_plain(r, 0);
            assert(backslashes(0) + r =~= r);
            assert(backslashes(pending) + seq![s[0]] + r =~= backslashes(pending) + s);
        }
    }
}

/// The quoted body, closed by a quote and read inside quotes, gives back
/// the pending backslashes and the argument.
proof fn lemma_read_body(s: Seq<char>, k: nat)
    ensures
        read_windows_arg(quoted_body(s, k) + seq!['"'], true, 0) == backslashes(k) + s,
    decreases s.len(),
{
    if s.len() == 0 {
        lemma_read_backslashes(2 * k, seq!['"'], true, 0);
        let q = seq!['"'];
        assert(q[0] == '"');
        assert(q.drop_first() =~= Seq::<char>::empty());
        assert((2 * k) % 2 == 0);
        assert((2 * k) / 2 == k);
        assert(read_windows_arg(Seq::<char>::empty(), false, 0) =~= Seq::<char>::empty());
        assert(backslashes(k) + Seq::<char>::empty() =~= backslashes(k) + s);
    } else {
        let r = s.drop_first();
        assert(s =~= seq![s[0]] + r);
        if s[0] == '\\' {
            lemma_read_body(r, k + 1);
            lemma_backslashes_add(k, 1);
            assert(backslashes(1) =~= seq!['\\']);
            assert(backslashes(k + 1) + r =~= backslashes(k) + s);
        } else if s[0] == '"' {
            let tail = quoted_body(r, 0) + seq!['"'];
            let text = backslashes(2 * k + 1) + (seq!['"'] + tail);
            assert(quoted_body(s, k) + seq!['"'] =~= text);
            lemma_read_backslashes(2 * k + 1, seq!['"'] + tail, true, 0);
            let t2 = seq!['"'] + tail;
            assert(t2[0] == '"');
            assert(t2.drop_first() =~= tail);
            assert((2 * k + 1) % 2 == 1);
            assert((2 * k + 1) / 2 == k);
            lemma_read_body(r, 0);
            assert(backslashes(0) + r =~= r);
            assert(backslashes(k) + seq!['"'] + r =~= backslashes(k) + s);
        } else {
            let tail = quoted_body(r, 0) + seq!['"'];
            let text = backslashes(k) + (seq![s[0]] + tail);
            assert(quoted_body(s, k) + seq!['"'] =~= text);
            lemma_read_backslashes(k, seq![s[0]] + tail, true, 0);
            let t2 = seq![s[0]] + tail;
            assert(t2[0] == s[0]);
            assert(t2.drop_first() =~= tail);
            lemma_read_body(r, 0);
            assert(backslashes(0) + r =~= r);
            assert(backslashes(k) + seq![s[0]] + r =~= backslashes(k) + s);
        }
    }
}

/// An argument quoted by [`quote_windows_arg`] is read back by the Windows
/// C runtime as the same argument.
pub proof fn lemma_quoted_arg_reads_back(arg: Seq<char>)
    ensures
        read_windows_arg(quoted_arg(arg), false, 0) == arg,
{
    if arg.len() == 0 {
        reveal_strlit("\"\"");
        let q = quoted_arg(arg);
        assert(q =~= seq!['"', '"']);
        assert(q.drop_first() =~= seq!['"']);
        assert(seq!['"'].drop_first() =~= Seq::<char>::empty());
        assert(backslashes(0) =~= Seq::<char>::empty());
        let q1 = seq!['"'];
        assert(q1[0] == '"');
        assert(read_windows_arg(q1.drop_first(), false, 0) == backslashes(0));
        assert(read_windows_arg(q1, true, 0) == backslashes(0) + read_windows_arg(q1.drop_first(), false, 0));
        assert(q[0] == '"');
        assert(read_windows_arg(q, false, 0) == backslashes(0) + read_windows_arg(q1, true, 0));
        assert(read_windows_arg(q, false, 0) =~= arg);
    } else if !needs_quotes(arg) {
        lemma_read_plain(arg, 0);
        assert(backslashes(0) + arg =~= arg);
    } else {
        let body = quoted_body(arg, 0) + seq!['"'];
        let q = seq!['"'] + body;
        assert(quoted_arg(arg) =~= q);
        assert(q[0] == '"');
        assert(q.drop_first() =~= body);
        lemma_read_body(arg, 0);
        assert(backslashes(0) + arg =~= arg);
        assert(backslashes(0) + read_windows_arg(body, true, 0) =~= arg);
    }
}

/// Arguments quoted and joined by single spaces.
pub open spec fn quoted_args(args: Seq<Seq<char>>) -> Seq<char>
    decreases args.len(),
{
    if args.len() == 0 {
        Seq::empty()
    } else if args.len() == 1 {
        quoted_arg(args[0])
    } else {
        quoted_args(args.drop_last()) + " "@ + quoted_arg(args.last())
    }
}

/// Quotes arguments for a Windows command line, separated by spaces.
pub fn quote_windows_args(args: &Vec<String>) -> (r: String)
    ensures
        r@ == quoted_args(args.deep_view()),
{
    proof {
        reveal_strlit(" ");
    }
    let mut out = String::new();
    let mut i: usize = 0;
    assert(args.deep_view().subrange(0, 0) =~= Seq::<Seq<char>>::empty());
    while i < args.len()
        invariant
            i <= args.len(),
            out@ == quoted_args(args.deep_view().subrange(0, i as int)),
        decreases args.len() - i,
    {
        let ghost pre = args.deep_view().subrange(0, i as int);
        let ghost cur = args.deep_view().subrange(0, i + 1);
        assert(cur.drop_last() =~= pre);
        assert(cur.last() == args[i as int]@);
        let q = quote_windows_arg(args[i].as_str());
        if i > 0 {
            push_char(&mut out, ' ');
            proof {
                reveal_strlit(" ");
            }
            assert(" "@ =~= seq![' ']);
        } else {
            assert(cur[0] == args[0]@);
        }
        push_str(&mut out, q.as_str());
        i += 1;
    }
    assert(args.deep_view().subrange(0, args.len() as int) =~= args.deep_view());
    out
}

/// What is needed to start the updated application again.
pub struct RestartContext {
    pub update_exe: String,
    pub app_exe_name: String,
    pub relaunch_args: Vec<String>,
}

/// The argument lists tried in turn with `Update.exe` to start the
/// application again, passing it `args` (already quoted) when there are
/// any, in each option spelling of the Squirrel versions in use.
pub open spec fn restart_variants(exe: Seq<char>, args: Seq<char>) -> Seq<Seq<Seq<char>>> {
    let start = "--processStart"@;
    let joined = start + "="@ + exe;
    let pass = "--process-start-args"@;
    if args.len() == 0 {
        seq![seq![start, exe], seq![joined]]
    } else {
        seq![
            seq![start, exe, pass, args],
            seq![start, exe, pass + "="@ + args],
            seq![joined, pass, args],
            seq![joined, pass + "="@ + args],
        ]
    }
}

impl RestartContext {
    /// The argument lists tried with `Update.exe` to start the application
    /// again with the arguments it was started with.
    pub fn restart_arguments(&self) -> (r: Vec<Vec<String>>)
        ensures
            r.deep_view() == restart_variants(
                self.app_exe_name@,
                quoted_args(self.relaunch_args.deep_view()),
            ),
    {
        proof {
            reveal_strlit("--processStart");
            reveal_strlit("--process-start-args");
            reveal_strlit("=");
        }
        let args = quote_windows_args(&self.relaunch_args);
        let exe = self.app_exe_name.clone();
        let mut joined = owned("--processStart");
        push_str(&mut joined, "=");
        push_str(&mut joined, exe.as_str());
        if args.unicode_len() == 0 {
            let r = vec![vec![owned("--processStart"), exe.clone()], vec![joined]];
            assert(r.deep_view() =~~= restart_variants(exe@, args@));
            return r;
        }
        let mut pass_joined = owned("--process-start-args");
        push_str(&mut pass_joined, "=");
        push_str(&mut pass_joined, args.as_str());
        let r = vec![
            vec![owned("--processStart"), exe.clone(), owned("--process-start-args"), args.clone()],
            vec![owned("--processStart"), exe.clone(), pass_joined.clone()],
            vec![joined.clone(), owned("--process-start-args"), args.clone()],
            vec![joined.clone(), pass_joined.clone()],
        ];
        assert(r.deep_view() =~~= restart_variants(exe@, args@));
        r
    }
}


// ---------------------------------------------------------------------------
// The output of an update check

/// Whether `t` is enclosed in braces.
pub open spec fn braced(t: Seq<char>) -> bool {
    t.len() > 0 && t[0] == '{' && t.last() == '}'
}

/// The last line (segment between line feeds) whose trimmed form is
/// enclosed in braces, trimmed.
pub open spec fn last_braced_line(segs: Seq<Seq<char>>) -> Option<Seq<char>>
    decreases segs.len(),
{
    if segs.len() == 0 {
        None
    } else if braced(trim(segs.last())) {
        Some(trim(segs.last()))
    } else {
        last_braced_line(segs.drop_last())
    }
}

/// The index of the first `c` in `s`.
pub open spec fn first_index(s: Seq<char>, c: char) -> Option<int> {
    if exists|i: int| 0 <= i < s.len() && s[i] == c {
        Some(choose|i: int| 0 <= i < s.len() && s[i] == c && forall|j: int| 0 <= j < i ==> s[j] != c)
    } else {
        None
    }
}

/// The index of the last `c` in `s`.
pub open spec fn last_index(s: Seq<char>, c: char) -> Option<int> {
    if exists|i: int| 0 <= i < s.len() && s[i] == c {
        Some(choose|i: int| 0 <= i < s.len() && s[i] == c && forall|j: int| i < j < s.len() ==> s[j] != c)
    } else {
        None
    }
}

/// The JSON payload of the output of `Update.exe --checkForUpdate`: the
/// whole output when it is one braced object, else the last braced line,
/// else the span from the first `{` to the last `}`.
pub open spec fn check_payload(s: Seq<char>) -> Option<Seq<char>> {
    if braced(trim(s)) {
        Some(trim(s))
    } else {
        match last_braced_line(split_lf(s)) {
            Some(l) => Some(l),
            None => match (first_index(s, '{'), last_index(s, '}')) {
                (Some(a), Some(b)) => if b <= a {
                    None
                } else {
                    Some(trim(s.subrange(a, b + 1)))
                },
                _ => None,
            },
        }
    }
}

fn is_braced(t: &str) -> (r: bool)
    ensures
        r == braced(t@),
{
    let n = t.unicode_len();
    n > 0 && t.get_char(0) == '{' && t.get_char(n - 1) == '}'
}

/// Finds the JSON payload in the output of an update check.
pub fn extract_check_payload(stdout: &str) -> (r: Option<String>)
    ensures
        match r {
            Some(p) => check_payload(stdout@) == Some(p@),
            None => check_payload(stdout@) is None,
        },
{
    let whole = crate::text::trimmed(stdout);
    if is_braced(whole.as_str()) {
        return Some(whole);
    }
    let v = crate::text::chars_of(stdout);
    let n = v.len();
    let mut best: Option<String> = None;
    let mut start: usize = 0;
    let mut i: usize = 0;
    let ghost mut done: Seq<Seq<char>> = Seq::empty();
    assert(v@.subrange(0, 0) =~= Seq::<char>::empty());
    assert(split_lf(Seq::<char>::empty()) =~= seq![Seq::<char>::empty()]);
    assert(done.push(v@.subrange(0, 0)) =~= seq![Seq::<char>::empty()]);
    while i < n
        invariant
            i <= n,
            n == v@.len(),
            v@ == stdout@,
            start <= i,
            split_lf(v@.subrange(0, i as int)) == done.push(v@.subrange(start as int, i as int)),
            match best {
                Some(b) => last_braced_line(done) == Some(b@),
                None => last_braced_line(done) is None,
            },
        decreases n - i,
    {
        let ghost pre = v@.subrange(0, i as int);
        assert(v@.subrange(0, i + 1) =~= pre.push(v@[i as int]));
        assert(v@.subrange(0, i + 1).drop_last() =~= pre);
        if v[i] == '\n' {
            let seg = crate::text::string_of_range(&v, start, i);
            let t = crate::text::trimmed(seg.as_str());
            proof {
                assert(done.push(seg@).drop_last() =~= done);
            }
            if is_braced(t.as_str()) {
                best = Some(t);
            }
            proof {
                done = done.push(seg@);
            }
            start = i + 1;
            assert(v@.subrange(start as int, i + 1) =~= Seq::<char>::empty());
        } else {
            let ghost cur = v@.subrange(start as int, i as int);
            assert(v@.subrange(start as int, i + 1) =~= cur.push(v@[i as int]));
            let ghost segs = done.push(cur);
            assert(segs.update(segs.len() - 1, segs.last().push(v@[i as int])) =~= done.push(
                v@.subrange(start as int, i + 1),
            ));
        }
        i += 1;
    }
    assert(v@.subrange(0, n as int) =~= v@);
    let last = crate::text::string_of_range(&v, start, n);
    let lt = crate::text::trimmed(last.as_str());
    proof {
        assert(done.push(last@).drop_last() =~= done);
    }
    if is_braced(lt.as_str()) {
        return Some(lt);
    }
    if let Some(b) = best {
        return Some(b);
    }
    let mut first: Option<usize> = None;
    let mut k: usize = 0;
    while k < n
        invariant
            k <= n,
            n == v@.len(),
            v@ == stdout@,
            first is None ==> forall|j: int| 0 <= j < k ==> v@[j] != '{',
            first matches Some(a) ==> a < n && v@[a as int] == '{' && forall|j: int| 0 <= j < a ==> v@[j] != '{',
        decreases n - k,
    {
        if first.is_none() && v[k] == '{' {
            first = Some(k);
        }
        k += 1;
    }
    let mut lastb: Option<usize> = None;
    let mut m: usize = n;
    while m > 0
        invariant
            m <= n,
            n == v@.len(),
            v@ == stdout@,
            lastb is None ==> forall|j: int| m <= j < n ==> v@[j] != '}',
            lastb matches Some(b) ==> b < n && v@[b as int] == '}' && forall|j: int| b < j < n ==> v@[j] != '}',
        decreases m,
    {
        m -= 1;
        if lastb.is_none() && v[m] == '}' {
            lastb = Some(m);
        }
    }
    proof {
        if first is None {
            assert(!(exists|i: int| 0 <= i < v@.len() && v@[i] == '{'));
        } else {
            let a = first.unwrap() as int;
            assert(first_index(v@, '{') == Some(a)) by {
                let c = choose|i: int| 0 <= i < v@.len() && v@[i] == '{' && forall|j: int| 0 <= j < i ==> v@[j] != '{';
                assert(c == a) by {
                    if c < a {
                        assert(v@[c] != '{');
                    } else if a < c {
                        assert(v@[a] != '{');
                    }
                }
            }
        }
        if lastb is None {
            assert(!(exists|i: int| 0 <= i < v@.len() && v@[i] == '}'));
        } else {
            let b = lastb.unwrap() as int;
            assert(last_index(v@, '}') == Some(b)) by {
                let c = choose|i: int| 0 <= i < v@.len() && v@[i] == '}' && forall|j: int| i < j < v@.len() ==> v@[j] != '}';
                assert(c == b) by {
                    if c < b {
                        assert(v@[b] != '}');
                    } else if b < c {
                        assert(v@[c] != '}');
                    }
                }
            }
        }
    }
    match (first, lastb) {
        (Some(a), Some(b)) => if b <= a {
            None
        } else {
            let span = crate::text::string_of_range(&v, a, b + 1);
            Some(crate::text::trimmed(span.as_str()))
        },
        _ => None,
    }
}

/// Whether `needle` occurs in `hay`.
pub open spec fn contains_text(hay: Seq<char>, needle: Seq<char>) -> bool {
    exists|i: int| 0 <= i && i + needle.len() <= hay.len() && #[trigger] hay.subrange(i, i + needle.len())
        == needle
}

fn find_text(hay: &Vec<char>, needle: &str) -> (r: bool)
    ensures
        r == contains_text(hay@, needle@),
{
    let nd = crate::text::chars_of(needle);
    let m = nd.len();
    if m > hay.len() {
        return false;
    }
    let mut i: usize = 0;
    while i <= hay.len() - m
        invariant
            m == needle@.len(),
            nd@ == needle@,
            m <= hay.len(),
            i <= hay.len() - m + 1,
            forall|j: int| 0 <= j < i ==> #[trigger] hay@.subrange(j, j + m) != needle@,
        decreases hay.len() - i,
    {
        let mut k: usize = 0;
        while k < m && hay[i + k] == nd[k]
            invariant
                k <= m,
                i + m <= hay.len(),
                nd@ == needle@,
                m == nd@.len(),
                forall|j: int| 0 <= j < k ==> hay@[i + j] == nd@[j],
            decreases m - k,
        {
            k += 1;
        }
        if k == m {
            assert(hay@.subrange(i as int, i + m) =~= needle@);
            return true;
        }
        assert(hay@.subrange(i as int, i + m)[k as int] != needle@[k as int]);
        i += 1;
    }
    proof {
        if contains_text(hay@, needle@) {
            let j = choose|j: int| 0 <= j && j + needle@.len() <= hay@.len() && #[trigger] hay@.subrange(j, j + needle@.len()) == needle@;
            assert(j < i);
        }
    }
    false
}

/// What the output of an update check says.
pub enum CheckOutput {
    /// A JSON payload to read.
    Payload(String),
    /// The output says there is no update.
    NoUpdates,
    /// The output cannot be read; the trimmed output.
    Unreadable(String),
}

/// What the output of an update check says: its JSON payload if it has
/// one, else no update when it mentions "no updates" or "up to date" in
/// any letter case, else nothing readable.
pub open spec fn check_output(s: Seq<char>) -> (Option<Seq<char>>, bool) {
    match check_payload(s) {
        Some(p) => (Some(p), false),
        None => (None, contains_text(lower_seq(s), "no updates"@) || contains_text(
            lower_seq(s),
            "up to date"@,
        )),
    }
}

/// Reads the output of `Update.exe --checkForUpdate`.
pub fn read_check_output(text: &str) -> (r: CheckOutput)
    ensures
        match r {
            CheckOutput::Payload(p) => check_output(text@).0 == Some(p@),
            CheckOutput::NoUpdates => check_output(text@).0 is None && check_output(text@).1,
            CheckOutput::Unreadable(t) => check_output(text@).0 is None && !check_output(text@).1
                && t@ == trim(text@),
        },
{
    match extract_check_payload(text) {
        Some(p) => CheckOutput::Payload(p),
        None => {
            let lowered = crate::text::chars_of(crate::text::ascii_lowercase(text).as_str());
            if find_text(&lowered, "no updates") || find_text(&lowered, "up to date") {
                CheckOutput::NoUpdates
            } else {
                CheckOutput::Unreadable(crate::text::trimmed(text))
            }
        },
    }
}

} // verus!
