use vstd::prelude::*;
pub use crate::crypto::rand_bytes;
use crate::text::{
    chars_of, string_of, views, lines, lines_of, words, words_of, output_text, output_chars,
    starts_with, starts_with_chars, contains, contains_chars, append_chars, owned,
};

verus! {

/// The setuid helper that runs privileged commands.
pub const TS_HELPER: &'static str = "/usr/local/bin/ts_helper";

/// A program to run with its arguments.
#[derive(Debug)]
pub struct ShellCommand {
    pub program: String,
    pub args: Vec<String>,
}

/// The texts of a vector of strings.
pub open spec fn string_views(v: Seq<String>) -> Seq<Seq<char>> {
    v.map_values(|s: String| s@)
}

/// The texts of a slice of string slices.
pub open spec fn str_views(v: Seq<&str>) -> Seq<Seq<char>> {
    v.map_values(|s: &str| s@)
}

impl View for ShellCommand {
    type V = (Seq<char>, Seq<Seq<char>>);

    open spec fn view(&self) -> (Seq<char>, Seq<Seq<char>>) {
        (self.program@, string_views(self.args@))
    }
}

/// Owned copies of the argument texts.
pub fn owned_args(args: &[&str]) -> (r: Vec<String>)
    ensures
        string_views(r@) == str_views(args@),
{
    let mut r: Vec<String> = Vec::new();
    let n = args.len();
    for i in 0..n
        invariant
            n == args@.len(),
            string_views(r@) == str_views(args@).take(i as int),
    {
        let ghost before = string_views(r@);
        r.push(owned(args[i]));
        assert(string_views(r@) =~= before.push(args@[i as int]@));
        assert(str_views(args@).take(i + 1) =~= str_views(args@).take(i as int).push(args@[i as int]@));
    }
    assert(str_views(args@).take(n as int) =~= str_views(args@));
    r
}

/// `cmd args..` run as the current user.
pub fn sh(cmd: &str, args: &[&str]) -> (c: ShellCommand)
    ensures
        c@ == (cmd@, str_views(args@)),
{
    ShellCommand { program: owned(cmd), args: owned_args(args) }
}

/// `cmd args..` run as root through the helper: the helper is the program and the
/// command is its first argument.
pub fn root(cmd: &str, args: &[&str]) -> (c: ShellCommand)
    ensures
        c@ == (TS_HELPER@, seq![cmd@] + str_views(args@)),
{
    let mut full: Vec<String> = Vec::new();
    full.push(owned(cmd));
    let rest = owned_args(args);
    let ghost first = string_views(full@);
    let mut rest = rest;
    let ghost tail = string_views(rest@);
    full.append(&mut rest);
    assert(string_views(full@) =~= first + tail);
    ShellCommand { program: owned(TS_HELPER), args: full }
}

/// The home directory: `$HOME` when set and non-empty, else the one in the user
/// database when non-empty, else `/tmp`.
pub open spec fn home_dir(env_home: Option<Seq<char>>, passwd_home: Option<Seq<char>>) -> Seq<char> {
    match env_home {
        Some(h) if h.len() > 0 => h,
        _ => match passwd_home {
            Some(p) if p.len() > 0 => p,
            _ => "/tmp"@,
        },
    }
}

/// Where TorShield keeps its files: `<home>/.config/opsec`.
pub open spec fn opsec_dir_text(env_home: Option<Seq<char>>, passwd_home: Option<Seq<char>>) -> Seq<char> {
    home_dir(env_home, passwd_home) + "/.config/opsec"@
}

pub open spec fn opt_view(o: Option<&str>) -> Option<Seq<char>> {
    match o {
        Some(s) => Some(s@),
        None => None,
    }
}

/// TorShield's directory, from `$HOME` and the user database's home directory.
pub fn opsec_dir(env_home: Option<&str>, passwd_home: Option<&str>) -> (r: String)
    ensures
        r@ == opsec_dir_text(opt_view(env_home), opt_view(passwd_home)),
{
    let mut home = match env_home {
        Some(h) if !h.is_empty() => owned(h),
        _ => match passwd_home {
            Some(p) if !p.is_empty() => owned(p),
            _ => owned("/tmp"),
        },
    };
    home.append("/.config/opsec");
    home
}

/// The menu bar icon for the given state, inside TorShield's directory.
pub fn icon_path(dir: &str, active: bool) -> (r: String)
    ensures
        r@ == dir@ + "/"@ + (if active { "icon_on.png"@ } else { "icon_off.png"@ }),
{
    let mut r = owned(dir);
    r.append("/");
    if active {
        r.append("icon_on.png");
    } else {
        r.append("icon_off.png");
    }
    r
}

/// The file whose presence means protections are on (and must be torn down after a crash).
pub fn lock_path(dir: &str) -> (r: String)
    ensures
        r@ == dir@ + "/active.lock"@,
{
    let mut r = owned(dir);
    r.append("/active.lock");
    r
}

} // verus!

verus! {

/// The lines that do not start with `*` (disabled services are listed with a `*`).
pub open spec fn enabled_services(ls: Seq<Seq<char>>) -> Seq<Seq<char>>
    decreases ls.len(),
{
    if ls.len() == 0 {
        Seq::empty()
    } else if starts_with(ls.last(), "*"@) {
        enabled_services(ls.drop_last())
    } else {
        enabled_services(ls.drop_last()).push(ls.last())
    }
}

/// All lines but the first (`skip(1)`).
pub open spec fn after_first(ls: Seq<Seq<char>>) -> Seq<Seq<char>> {
    if ls.len() == 0 {
        ls
    } else {
        ls.drop_first()
    }
}

/// The output of a command as text: empty when the command did not run or its
/// output is not UTF-8.
pub open spec fn text_or_empty(out: Option<Seq<u8>>) -> Seq<char> {
    match out {
        Some(b) => match output_text(b) {
            Some(t) => t,
            None => Seq::empty(),
        },
        None => Seq::empty(),
    }
}

pub open spec fn bytes_view(o: Option<&[u8]>) -> Option<Seq<u8>> {
    match o {
        Some(b) => Some(b@),
        None => None,
    }
}

/// The network services named by `networksetup -listallnetworkservices`: every line
/// after the heading except disabled (`*`) ones.
pub open spec fn network_services_of(out: Option<Seq<u8>>) -> Seq<Seq<char>> {
    enabled_services(after_first(lines(text_or_empty(out))))
}

fn text_or_empty_chars(out: Option<&[u8]>) -> (r: Vec<char>)
    ensures
        r@ == text_or_empty(bytes_view(out)),
{
    match out {
        Some(b) => match output_chars(b) {
            Some(v) => v,
            None => Vec::new(),
        },
        None => Vec::new(),
    }
}

/// The enabled network services, from the output of
/// `networksetup -listallnetworkservices` (`None` when it could not run).
pub fn get_network_services(out: Option<&[u8]>) -> (r: Vec<String>)
    ensures
        string_views(r@) == network_services_of(bytes_view(out)),
{
    let text = text_or_empty_chars(out);
    let ls = lines_of(&text);
    let star = chars_of("*");
    let mut r: Vec<String> = Vec::new();
    let n = ls.len();
    let ghost all = views(ls@);
    let ghost rest = after_first(all);
    let mut i: usize = 1;
    assert(rest.take(0) =~= Seq::<Seq<char>>::empty());
    while i < n
        invariant
            n == ls@.len(),
            1 <= i,
            i <= n || i == 1,
            all == views(ls@),
            all == lines(text@),
            text@ == text_or_empty(bytes_view(out)),
            rest == after_first(all),
            star@ == "*"@,
            string_views(r@) == enabled_services(rest.take(i - 1)),
        decreases n - i,
    {
        let ghost pre = rest.take(i - 1);
        assert(rest.take(i as int).drop_last() =~= pre);
        assert(rest.take(i as int).last() == all[i as int]);
        assert(ls@[i as int]@ == all[i as int]);
        if !starts_with_chars(&ls[i], &star) {
            let ghost before = string_views(r@);
            r.push(string_of(&ls[i]));
            assert(string_views(r@) =~= before.push(all[i as int]));
        }
        i += 1;
    }
    if n > 0 {
        assert(rest.take(n - 1) =~= rest);
    } else {
        assert(rest.take(0) =~= rest);
    }
    r
}

/// The first line containing `pat`.
pub open spec fn first_with(ls: Seq<Seq<char>>, pat: Seq<char>) -> Option<Seq<char>>
    decreases ls.len(),
{
    if ls.len() == 0 {
        None
    } else if contains(ls[0], pat) {
        Some(ls[0])
    } else {
        first_with(ls.drop_first(), pat)
    }
}

/// The interface of the default route: the last word of the first line of
/// `route get default` that contains `interface:`, else `en0`.
pub open spec fn primary_interface_of(out: Option<Seq<u8>>) -> Seq<char> {
    interface_from(
        match out {
            Some(b) => match output_text(b) {
                Some(t) => first_with(lines(t), "interface:"@),
                None => None,
            },
            None => None,
        },
    )
}

/// The last word of the line found, else `en0`.
pub open spec fn interface_from(found: Option<Seq<char>>) -> Seq<char> {
    match found {
        Some(l) => if words(l).len() > 0 {
            words(l).last()
        } else {
            "en0"@
        },
        None => "en0"@,
    }
}

/// The primary network interface, from the output of `route get default`
/// (`None` when it could not run).
pub fn primary_interface(out: Option<&[u8]>) -> (r: String)
    ensures
        r@ == primary_interface_of(bytes_view(out)),
{
    let text = match out {
        Some(b) => output_chars(b),
        None => None,
    };
    let text = match text {
        Some(t) => t,
        None => {
            return owned("en0");
        },
    };
    let ls = lines_of(&text);
    let pat = chars_of("interface:");
    let n = ls.len();
    let ghost all = views(ls@);
    assert(all.skip(0) =~= all);
    for i in 0..n
        invariant
            n == ls@.len(),
            all == views(ls@),
            all == lines(text@),
            pat@ == "interface:"@,
            primary_interface_of(bytes_view(out)) == interface_from(first_with(all, pat@)),
            first_with(all, pat@) == first_with(all.skip(i as int), pat@),
    {
        assert(all.skip(i as int)[0] == ls@[i as int]@);
        assert(all.skip(i as int).drop_first() =~= all.skip(i + 1));
        if contains_chars(&ls[i], &pat) {
            let ws = words_of(&ls[i]);
            if ws.len() > 0 {
                assert(views(ws@).last() == ws@[ws.len() - 1]@);
                return string_of(&ws[ws.len() - 1]);
            } else {
                return owned("en0");
            }
        }
    }
    assert(all.skip(n as int) =~= Seq::<Seq<char>>::empty());
    owned("en0")
}

/// The helper is trusted only as a regular file (not a symlink) owned by root with the
/// setuid bit; `meta` is `(is regular file, owner uid, mode)` from `lstat`, or `None`.
pub fn helper_ok(meta: Option<(bool, u32, u32)>) -> (r: bool)
    ensures
        r == (meta matches Some(m) && m.0 && m.1 == 0 && m.2 & 0o4000u32 != 0),
{
    match meta {
        Some((is_file, uid, mode)) => is_file && uid == 0 && (mode & 0o4000u32) != 0,
        None => false,
    }
}

/// `s` with each `'` written as `'\''`, for use inside single quotes in a shell.
pub open spec fn shell_quote_escaped(s: Seq<char>) -> Seq<char>
    decreases s.len(),
{
    if s.len() == 0 {
        Seq::empty()
    } else if s.last() == '\'' {
        shell_quote_escaped(s.drop_last()) + seq!['\'', '\\', '\'', '\'']
    } else {
        shell_quote_escaped(s.drop_last()).push(s.last())
    }
}

pub fn escape_single_quotes(s: &str) -> (r: Vec<char>)
    ensures
        r@ == shell_quote_escaped(s@),
{
    let v = chars_of(s);
    let mut r: Vec<char> = Vec::new();
    let n = v.len();
    for i in 0..n
        invariant
            n == v@.len(),
            v@ == s@,
            r@ == shell_quote_escaped(v@.take(i as int)),
    {
        assert(v@.take(i + 1).drop_last() =~= v@.take(i as int));
        assert(v@.take(i + 1).last() == v@[i as int]);
        if v[i] == '\'' {
            r.push('\'');
            r.push('\\');
            r.push('\'');
            r.push('\'');
        } else {
            r.push(v[i]);
        }
        assert(r@ =~= shell_quote_escaped(v@.take(i + 1)));
    }
    assert(v@.take(n as int) =~= v@);
    r
}

/// The AppleScript that installs a freshly built helper as setuid root.
pub open spec fn helper_install_script_text(tmp: Seq<char>) -> Seq<char> {
    "do shell script \"cp '"@ + shell_quote_escaped(tmp)
        + "' '/usr/local/bin/ts_helper' && chown root:wheel '/usr/local/bin/ts_helper' && chmod 4755 '/usr/local/bin/ts_helper'\" with administrator privileges"@
}

/// `osascript -e <script>` that copies the helper built at `tmp_path` into place,
/// owned by root and setuid, after asking for an administrator password.
pub fn helper_install_command(tmp_path: &str) -> (c: ShellCommand)
    ensures
        c@ == ("osascript"@, seq!["-e"@, helper_install_script_text(tmp_path@)]),
{
    let mut script = chars_of("do shell script \"cp '");
    append_chars(&mut script, &escape_single_quotes(tmp_path));
    append_chars(
        &mut script,
        &chars_of(
            "' '/usr/local/bin/ts_helper' && chown root:wheel '/usr/local/bin/ts_helper' && chmod 4755 '/usr/local/bin/ts_helper'\" with administrator privileges",
        ),
    );
    let mut args: Vec<String> = Vec::new();
    args.push(owned("-e"));
    args.push(string_of(&script));
    assert(string_views(args@) =~= seq!["-e"@, helper_install_script_text(tmp_path@)]);
    ShellCommand { program: owned("osascript"), args }
}

} // verus!

verus! {

/// One step of outside work that the library decides and the application performs.
#[derive(Debug)]
pub enum Action {
    Run(ShellCommand),
    RunWithInput(ShellCommand, String),
    Spawn(ShellCommand),
    CreateDir(String),
    SetMode(String, u32),
    RemoveFile(String),
    RemoveDirAll(String),
    WriteFile(String, String),
    AppendFile(String, String),
    SleepMillis(u64),
}

/// What an action does, as values.
pub enum ActionView {
    Run(Seq<char>, Seq<Seq<char>>),
    RunWithInput(Seq<char>, Seq<Seq<char>>, Seq<char>),
    Spawn(Seq<char>, Seq<Seq<char>>),
    CreateDir(Seq<char>),
    SetMode(Seq<char>, u32),
    RemoveFile(Seq<char>),
    RemoveDirAll(Seq<char>),
    WriteFile(Seq<char>, Seq<char>),
    AppendFile(Seq<char>, Seq<char>),
    SleepMillis(u64),
}

impl View for Action {
    type V = ActionView;

    open spec fn view(&self) -> ActionView {
        match self {
            Action::Run(c) => ActionView::Run(c.program@, string_views(c.args@)),
            Action::RunWithInput(c, input) => ActionView::RunWithInput(c.program@, string_views(c.args@), input@),
            Action::Spawn(c) => ActionView::Spawn(c.program@, string_views(c.args@)),
            Action::CreateDir(p) => ActionView::CreateDir(p@),
            Action::SetMode(p, m) => ActionView::SetMode(p@, *m),
            Action::RemoveFile(p) => ActionView::RemoveFile(p@),
            Action::RemoveDirAll(p) => ActionView::RemoveDirAll(p@),
            Action::WriteFile(p, c) => ActionView::WriteFile(p@, c@),
            Action::AppendFile(p, c) => ActionView::AppendFile(p@, c@),
            Action::SleepMillis(ms) => ActionView::SleepMillis(*ms),
        }
    }
}

/// The actions of a plan, as values.
pub open spec fn action_views(v: Seq<Action>) -> Seq<ActionView> {
    v.map_values(|a: Action| a@)
}

/// Running `prog args..`.
pub open spec fn run(prog: Seq<char>, args: Seq<Seq<char>>) -> ActionView {
    ActionView::Run(prog, args)
}

/// Running `cmd args..` as root through the helper.
pub open spec fn run_root(cmd: Seq<char>, args: Seq<Seq<char>>) -> ActionView {
    ActionView::Run(TS_HELPER@, seq![cmd] + args)
}

/// Appends an action to a plan.
pub fn push_action(plan: &mut Vec<Action>, a: Action)
    ensures
        action_views(final(plan)@) == action_views(old(plan)@).push(a@),
{
    plan.push(a);
    assert(action_views(final(plan)@) =~= action_views(old(plan)@).push(a@));
}

/// Appends `prog args..` to a plan.
pub fn push_run(plan: &mut Vec<Action>, prog: &str, args: &[&str])
    ensures
        action_views(final(plan)@) == action_views(old(plan)@).push(run(prog@, str_views(args@))),
{
    push_action(plan, Action::Run(sh(prog, args)));
}

/// Appends `cmd args..` run as root to a plan.
pub fn push_root(plan: &mut Vec<Action>, cmd: &str, args: &[&str])
    ensures
        action_views(final(plan)@) == action_views(old(plan)@).push(run_root(cmd@, str_views(args@))),
{
    push_action(plan, Action::Run(root(cmd, args)));
}

} // verus!

verus! {

/// Creating TorShield's directory readable by its owner only (it holds `torrc`, the
/// cookie and backups).
pub fn ensure_opsec_dir(dir: &str) -> (r: Vec<Action>)
    ensures
        action_views(r@) == seq![ActionView::CreateDir(dir@), ActionView::SetMode(dir@, 0o700)],
{
    let mut plan: Vec<Action> = Vec::new();
    push_action(&mut plan, Action::CreateDir(owned(dir)));
    push_action(&mut plan, Action::SetMode(owned(dir), 0o700));
    assert(action_views(plan@) =~= seq![ActionView::CreateDir(dir@), ActionView::SetMode(dir@, 0o700)]);
    plan
}

/// Purging logs: erase the unified log, remove crash reports, empty Tor's log.
pub open spec fn clear_logs_plan(home: Seq<char>, dir: Seq<char>) -> Seq<ActionView> {
    seq![
        run("log"@, seq!["erase"@, "--all"@]),
        ActionView::RemoveDirAll(home + "/Library/Logs/CrashReporter"@),
        ActionView::WriteFile(dir + "/tor.log"@, Seq::empty()),
    ]
}

/// The log purge for the home directory `home` (`$HOME`, empty when unset) and
/// TorShield's directory.
pub fn clear_logs(home: &str, dir: &str) -> (r: Vec<Action>)
    ensures
        action_views(r@) == clear_logs_plan(home@, dir@),
{
    let mut plan: Vec<Action> = Vec::new();
    let a = [ "erase", "--all" ];
    push_run(&mut plan, "log", &a);
    assert(str_views(a@) =~= seq!["erase"@, "--all"@]);
    let mut crash = owned(home);
    crash.append("/Library/Logs/CrashReporter");
    push_action(&mut plan, Action::RemoveDirAll(crash));
    let mut log = owned(dir);
    log.append("/tor.log");
    push_action(&mut plan, Action::WriteFile(log, String::new()));
    assert(action_views(plan@) =~= clear_logs_plan(home@, dir@));
    plan
}

} // verus!

verus! {

/// Which source the helper is built from.
#[derive(Clone, Copy, Debug, PartialEq, Eq, Structural)]
pub enum HelperSource {
    /// The copy in the application bundle, identical to the one built in.
    Bundled,
    /// The copy built into TorShield (the bundle's is missing or differs).
    Embedded,
}

/// The bundle's copy is used only when it is byte for byte the built-in one.
pub fn helper_source(bundled: Option<&str>, embedded: &str) -> (r: HelperSource)
    ensures
        r == (if bundled matches Some(b) && b@ == embedded@ {
            HelperSource::Bundled
        } else {
            HelperSource::Embedded
        }),
{
    match bundled {
        Some(b) => if crate::text::eq_chars(&chars_of(b), &chars_of(embedded)) {
            HelperSource::Bundled
        } else {
            HelperSource::Embedded
        },
        None => HelperSource::Embedded,
    }
}

/// The built helper is installed only when the compiler succeeded and what it produced
/// is a regular file (not a link planted in its place).
pub fn helper_install_ready(compiled: bool, output_is_regular_file: bool) -> (r: bool)
    ensures
        r == (compiled && output_is_regular_file),
{
    compiled && output_is_regular_file
}

} // verus!

verus! {

/// How a POSIX shell reads a word from `t` on: inside single quotes (`quoted`) every
/// character stands for itself up to the closing `'`; outside them a backslash takes the
/// next character as it is and `'` opens a quote.
pub open spec fn shell_read(t: Seq<char>, quoted: bool) -> Seq<char>
    decreases t.len(),
{
    if t.len() == 0 {
        Seq::empty()
    } else if quoted {
        if t[0] == '\'' {
            shell_read(t.drop_first(), false)
        } else {
            seq![t[0]] + shell_read(t.drop_first(), true)
        }
    } else if t[0] == '\\' && t.len() >= 2 {
        seq![t[1]] + shell_read(t.skip(2), false)
    } else if t[0] == '\'' {
        shell_read(t.drop_first(), true)
    } else {
        seq![t[0]] + shell_read(t.drop_first(), false)
    }
}

proof fn lemma_shell_read_escaped(s: Seq<char>, rest: Seq<char>)
    ensures
        shell_read(shell_quote_escaped(s) + rest, true) == s + shell_read(rest, true),
    decreases s.len(),
{
    if s.len() == 0 {
        assert(shell_quote_escaped(s) + rest =~= rest);
        assert(s + shell_read(rest, true) =~= shell_read(rest, true));
    } else {
        let x = s.last();
        let piece: Seq<char> = if x == '\'' { seq!['\'', '\\', '\'', '\''] } else { seq![x] };
        assert(shell_quote_escaped(s) =~= shell_quote_escaped(s.drop_last()) + piece);
        assert(shell_quote_escaped(s) + rest =~= shell_quote_escaped(s.drop_last()) + (piece + rest));
        lemma_shell_read_escaped(s.drop_last(), piece + rest);
        let t = piece + rest;
        if x == '\'' {
            assert(t.drop_first() =~= seq!['\\', '\'', '\''] + rest);
            let u = seq!['\\', '\'', '\''] + rest;
            assert(u.skip(2) =~= seq!['\''] + rest);
            let w = seq!['\''] + rest;
            assert(w.drop_first() =~= rest);
            assert(shell_read(w, false) == shell_read(rest, true));
            assert(shell_read(u, false) == seq!['\''] + shell_read(rest, true));
            assert(shell_read(t, true) == seq!['\''] + shell_read(rest, true));
        } else {
            assert(t.drop_first() =~= rest);
            assert(shell_read(t, true) == seq![x] + shell_read(rest, true));
        }
        assert(s =~= s.drop_last() + seq![x]);
        assert(s.drop_last() + (seq![x] + shell_read(rest, true)) =~= s + shell_read(rest, true));
    }
}

/// Quoting a path for the shell keeps it: after the opening `'`, the shell reads the
/// escaped text and the closing `'` back as exactly the original characters, quotes
/// included.
pub proof fn lemma_shell_quote_round_trip(s: Seq<char>)
    ensures
        shell_read(shell_quote_escaped(s) + seq!['\''], true) == s,
{
    lemma_shell_read_escaped(s, seq!['\'']);
    let q = seq!['\''];
    assert(q.drop_first() =~= Seq::<char>::empty());
    assert(shell_read(q, true) == shell_read(Seq::<char>::empty(), false));
    assert(s + Seq::<char>::empty() =~= s);
}

} // verus!

verus! {

proof fn lemma_enabled_services_contains(ls: Seq<Seq<char>>, x: Seq<char>)
    ensures
        enabled_services(ls).contains(x) <==> (ls.contains(x) && !starts_with(x, "*"@)),
    decreases ls.len(),
{
    if ls.len() > 0 {
        let d = ls.drop_last();
        lemma_enabled_services_contains(d, x);
        let e = enabled_services(d);
        if ls.contains(x) && !starts_with(x, "*"@) {
            let k = choose|k: int| 0 <= k < ls.len() && ls[k] == x;
            if k < ls.len() - 1 {
                assert(d[k] == x);
                let j = choose|j: int| 0 <= j < e.len() && e[j] == x;
                if !starts_with(ls.last(), "*"@) {
                    assert(e.push(ls.last())[j] == x);
                }
            } else {
                assert(e.push(ls.last())[e.len() as int] == x);
            }
        }
        if enabled_services(ls).contains(x) {
            let j = choose|j: int| 0 <= j < enabled_services(ls).len() && enabled_services(ls)[j] == x;
            if starts_with(ls.last(), "*"@) || j < e.len() {
                if !starts_with(ls.last(), "*"@) {
                    assert(e.push(ls.last())[j] == e[j]);
                }
                assert(e.contains(x));
                let k = choose|k: int| 0 <= k < d.len() && d[k] == x;
                assert(ls[k] == x);
            } else {
                assert(x == ls.last());
                assert(ls[ls.len() - 1] == x);
            }
        }
    }
}

/// The services found are exactly the lines of `networksetup -listallnetworkservices`
/// after its heading line that are not marked disabled with a leading `*`.
pub proof fn lemma_network_services_listed(out: Option<Seq<u8>>, x: Seq<char>)
    ensures
        network_services_of(out).contains(x) <==> ((exists|i: int|
            1 <= i < lines(text_or_empty(out)).len() && #[trigger] lines(text_or_empty(out))[i] == x) && !starts_with(
            x,
            "*"@,
        )),
{
    let ls = lines(text_or_empty(out));
    let rest = after_first(ls);
    lemma_enabled_services_contains(rest, x);
    if rest.contains(x) {
        let k = choose|k: int| 0 <= k < rest.len() && rest[k] == x;
        assert(ls[k + 1] == x);
    }
    if exists|i: int| 1 <= i < ls.len() && #[trigger] ls[i] == x {
        let i = choose|i: int| 1 <= i < ls.len() && #[trigger] ls[i] == x;
        assert(rest[i - 1] == x);
    }
}

} // verus!

verus! {

proof fn lemma_nonempty_parts_filled(ps: Seq<Seq<char>>)
    ensures
        forall|i: int| 0 <= i < crate::text::nonempty(ps).len() ==> (#[trigger] crate::text::nonempty(ps)[i]).len() > 0,
    decreases ps.len(),
{
    if ps.len() > 0 {
        lemma_nonempty_parts_filled(ps.drop_last());
        let r = crate::text::nonempty(ps.drop_last());
        let q = crate::text::nonempty(ps);
        assert forall|i: int| 0 <= i < q.len() implies (#[trigger] q[i]).len() > 0 by {
            if i < r.len() {
                assert(q[i] == r[i]);
            }
        }
    }
}

/// The primary interface is always a single word: never empty, with no whitespace in
/// it (`en0` when the default route names none).
pub proof fn lemma_primary_interface_one_word(out: Option<Seq<u8>>)
    ensures
        primary_interface_of(out).len() > 0,
        forall|k: int| 0 <= k < primary_interface_of(out).len() ==> !crate::text::is_ws(#[trigger] primary_interface_of(out)[k]),
{
    reveal_strlit("en0");
    let found = match out {
        Some(b) => match output_text(b) {
            Some(t) => first_with(lines(t), "interface:"@),
            None => None,
        },
        None => None,
    };
    assert(primary_interface_of(out) == interface_from(found));
    if found is Some && words(found->0).len() > 0 {
        let l = found->0;
        crate::firefox::lemma_split_ws_parts_plain(l);
        crate::firefox::lemma_nonempty_parts_plain(crate::text::split_ws(l));
        lemma_nonempty_parts_filled(crate::text::split_ws(l));
        let w = words(l);
        assert(w.last() == w[w.len() - 1]);
        assert(w[w.len() - 1].len() > 0);
    } else {
        let e = "en0"@;
        assert(e.len() == 3);
        assert forall|k: int| 0 <= k < e.len() implies !crate::text::is_ws(#[trigger] e[k]) by {
            assert(0 <= k < 3);
        }
    }
}

} // verus!
