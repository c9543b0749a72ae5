//! How the `gws` engine and the shell probes are invoked, locally or on the remote
//! host, and how their results are judged.

use vstd::prelude::*;
use vstd::string::*;
use crate::config;
use crate::config::expand_home;
use crate::text;
use crate::text::{decimal_string, join_strings, lines_of, trim_chars, trim_string};

verus! {

/// A process to start: the program, its arguments, and environment variables set on
/// top of the inherited environment.
pub struct Invocation {
    pub program: String,
    pub args: Vec<String>,
    pub env: Vec<(String, String)>,
}

/// The view of an environment list.
pub open spec fn env_view(e: Seq<(String, String)>) -> Seq<(Seq<char>, Seq<char>)> {
    e.map_values(|p: (String, String)| (p.0@, p.1@))
}

impl View for Invocation {
    type V = (Seq<char>, Seq<Seq<char>>, Seq<(Seq<char>, Seq<char>)>);

    open spec fn view(&self) -> Self::V {
        (self.program@, text::views(self.args@), env_view(self.env@))
    }
}

/// The connect timeout, in seconds, of every probe on the remote host.
pub open spec fn probe_timeout() -> nat {
    8
}

/// The connect timeout of probes (see [`probe_timeout`]).
pub const PROBE_TIMEOUT: u32 = 8;

/// The command that runs `shell_cmd` in the active mode: through `ssh` in batch mode
/// with a connect timeout on the remote host, or through `sh -c` here.
pub open spec fn probe_invocation(remote: Option<String>, shell_cmd: Seq<char>, connect_timeout: nat) -> (
    Seq<char>,
    Seq<Seq<char>>,
    Seq<(Seq<char>, Seq<char>)>,
) {
    match remote {
        Some(h) => (
            "ssh"@,
            seq!["-o"@, "BatchMode=yes"@, "-o"@, "ConnectTimeout="@ + text::decimal(connect_timeout), h@, shell_cmd],
            seq![],
        ),
        None => ("sh"@, seq!["-c"@, shell_cmd], seq![]),
    }
}

/// The process that runs a probe (see [`probe_invocation`]).
pub fn probe_command(remote: &Option<String>, shell_cmd: &str, connect_timeout: u32) -> (inv: Invocation)
    ensures
        inv@ == probe_invocation(*remote, shell_cmd@, connect_timeout as nat),
{
    match remote {
        Some(h) => {
            let mut timeout = String::from_str("ConnectTimeout=");
            let n = decimal_string(connect_timeout);
            timeout.append(n.as_str());
            let mut args: Vec<String> = Vec::new();
            args.push(String::from_str("-o"));
            args.push(String::from_str("BatchMode=yes"));
            args.push(String::from_str("-o"));
            args.push(timeout);
            args.push(h.clone());
            args.push(String::from_str(shell_cmd));
            let env: Vec<(String, String)> = Vec::new();
            let inv = Invocation { program: String::from_str("ssh"), args, env };
            assert(env_view(env@) == Seq::<(Seq<char>, Seq<char>)>::empty());
            assert(text::views(inv.args@) =~= probe_invocation(*remote, shell_cmd@, connect_timeout as nat).1);
            inv
        },
        None => {
            let mut args: Vec<String> = Vec::new();
            args.push(String::from_str("-c"));
            args.push(String::from_str(shell_cmd));
            let env: Vec<(String, String)> = Vec::new();
            assert(env_view(env@) == Seq::<(Seq<char>, Seq<char>)>::empty());
            assert(text::views(args@) =~= seq!["-c"@, shell_cmd@]);
            Invocation { program: String::from_str("sh"), args, env }
        },
    }
}

/// What a probe gives: on success its standard output, trimmed; on failure its
/// standard error, trimmed. `run` is `Err` with the reason when the process could not
/// be started, else whether it exited successfully and its two output streams.
pub fn probe_outcome(run: Result<(bool, String, String), String>) -> (r: Result<String, String>)
    ensures
        match run {
            Err(e) => r matches Err(m) && m@ == e@,
            Ok((true, out, _)) => r matches Ok(o) && o@ == text::trim(out@),
            Ok((false, _, err)) => r matches Err(m) && m@ == text::trim(err@),
        },
{
    match run {
        Err(e) => Err(e),
        Ok((success, out, err)) => {
            if success {
                Ok(trim_string(out.as_str()))
            } else {
                Err(trim_string(err.as_str()))
            }
        },
    }
}

/// The shell command that lists the account names: the subdirectories of the
/// per-account configuration base, one name per line.
pub fn list_accounts_command(config_base: &str) -> (c: String)
    ensures
        c@ == "ls -1d "@ + config_base@ + "/*/ 2>/dev/null | sed 's#/*$##;s#.*/##'"@,
{
    let mut c = String::from_str("ls -1d ");
    c.append(config_base);
    c.append("/*/ 2>/dev/null | sed 's#/*$##;s#.*/##'");
    c
}

/// The probe that lists the accounts in the active mode: [`list_accounts_command`] run
/// with the usual probe timeout. It is the only process that listing the accounts runs.
pub fn list_accounts_probe(remote: &Option<String>, config_base: &str) -> (inv: Invocation)
    ensures
        inv@ == probe_invocation(
            *remote,
            "ls -1d "@ + config_base@ + "/*/ 2>/dev/null | sed 's#/*$##;s#.*/##'"@,
            probe_timeout(),
        ),
{
    let cmd = list_accounts_command(config_base);
    probe_command(remote, cmd.as_str(), PROBE_TIMEOUT)
}

/// The configured accounts, from the result of the listing probe: its lines when it
/// succeeded with something other than white space, else none.
pub open spec fn accounts_spec(listing: Result<String, String>) -> Seq<Seq<char>> {
    match listing {
        Ok(list) => if text::trim(list@).len() > 0 { text::lines(list@) } else { seq![] },
        Err(_) => seq![],
    }
}

/// The configured accounts, from the result of running [`list_accounts_command`].
pub fn list_accounts(listing: &Result<String, String>) -> (accounts: Vec<String>)
    ensures
        text::views(accounts@) == accounts_spec(*listing),
{
    match listing {
        Ok(list) => {
            let t = trim_chars(list.as_str());
            if t.len() > 0 {
                let v = text::chars_of(list.as_str());
                lines_of(v.as_slice())
            } else {
                let none: Vec<String> = Vec::new();
                assert(text::views(none@) == Seq::<Seq<char>>::empty());
                none
            }
        },
        Err(_) => {
            let none: Vec<String> = Vec::new();
            assert(text::views(none@) == Seq::<Seq<char>>::empty());
            none
        },
    }
}

/// The configuration directory of `account` under `base`.
pub open spec fn account_dir(base: Seq<char>, account: Seq<char>) -> Seq<char> {
    base + "/"@ + account
}

/// How `gws <args>` runs for `account`. On the remote host, through `ssh` in batch
/// mode, with the account's credential file, its own configuration directory and the
/// file keyring backend set for that one command; here, through `sh -c` with the
/// account's own configuration directory (its `$HOME` expanded) in the environment.
pub open spec fn gws_invocation(
    remote: Option<String>,
    creds_dir: Seq<char>,
    config_base: Seq<char>,
    home: Option<Seq<char>>,
    account: Seq<char>,
    args: Seq<Seq<char>>,
) -> (Seq<char>, Seq<Seq<char>>, Seq<(Seq<char>, Seq<char>)>) {
    let joined = text::join(args, " "@);
    match remote {
        Some(h) => (
            "ssh"@,
            seq![
                "-o"@,
                "BatchMode=yes"@,
                h@,
                "GOOGLE_WORKSPACE_CLI_CREDENTIALS_FILE="@ + account_dir(creds_dir, account) + ".json"@
                    + " GOOGLE_WORKSPACE_CLI_CONFIG_DIR="@ + account_dir(config_base, account)
                    + " GOOGLE_WORKSPACE_CLI_KEYRING_BACKEND=file gws "@ + joined,
            ],
            seq![],
        ),
        None => (
            "sh"@,
            seq!["-c"@, "gws "@ + joined],
            seq![
                (
                    "GOOGLE_WORKSPACE_CLI_CONFIG_DIR"@,
                    config::expand_home_spec(account_dir(config_base, account), home),
                ),
            ],
        ),
    }
}

/// The process that runs `gws <args>` for `account` (see [`gws_invocation`]).
pub fn gws_command(
    remote: &Option<String>,
    creds_dir: &str,
    config_base: &str,
    home: Option<String>,
    account: &str,
    args: &Vec<String>,
) -> (inv: Invocation)
    ensures
        inv@ == gws_invocation(*remote, creds_dir@, config_base@, config::opt_view(home), account@, text::views(args@)),
{
    let joined = join_strings(args, " ");
    match remote {
        Some(h) => {
            let mut cmd = String::from_str("GOOGLE_WORKSPACE_CLI_CREDENTIALS_FILE=");
            cmd.append(creds_dir);
            cmd.append("/");
            cmd.append(account);
            cmd.append(".json");
            cmd.append(" GOOGLE_WORKSPACE_CLI_CONFIG_DIR=");
            cmd.append(config_base);
            cmd.append("/");
            cmd.append(account);
            cmd.append(" GOOGLE_WORKSPACE_CLI_KEYRING_BACKEND=file gws ");
            cmd.append(joined.as_str());
            assert(cmd@ =~= "GOOGLE_WORKSPACE_CLI_CREDENTIALS_FILE="@ + account_dir(creds_dir@, account@)
                + ".json"@ + " GOOGLE_WORKSPACE_CLI_CONFIG_DIR="@ + account_dir(config_base@, account@)
                + " GOOGLE_WORKSPACE_CLI_KEYRING_BACKEND=file gws "@ + joined@);
            let mut a: Vec<String> = Vec::new();
            a.push(String::from_str("-o"));
            a.push(String::from_str("BatchMode=yes"));
            a.push(h.clone());
            a.push(cmd);
            let env: Vec<(String, String)> = Vec::new();
            assert(env_view(env@) == Seq::<(Seq<char>, Seq<char>)>::empty());
            let inv = Invocation { program: String::from_str("ssh"), args: a, env };
            assert(text::views(inv.args@) =~= gws_invocation(*remote, creds_dir@, config_base@, config::opt_view(home), account@, text::views(args@)).1);
            inv
        },
        None => {
            let mut cmd = String::from_str("gws ");
            cmd.append(joined.as_str());
            let mut dir = String::from_str(config_base);
            dir.append("/");
            dir.append(account);
            let dir = expand_home(dir.as_str(), home);
            let mut a: Vec<String> = Vec::new();
            a.push(String::from_str("-c"));
            a.push(cmd);
            let mut env: Vec<(String, String)> = Vec::new();
            env.push((String::from_str("GOOGLE_WORKSPACE_CLI_CONFIG_DIR"), dir));
            let inv = Invocation { program: String::from_str("sh"), args: a, env };
            assert(text::views(inv.args@) =~= gws_invocation(*remote, creds_dir@, config_base@, config::opt_view(home), account@, text::views(args@)).1);
            assert(env_view(inv.env@) =~= gws_invocation(*remote, creds_dir@, config_base@, config::opt_view(home), account@, text::views(args@)).2);
            inv
        },
    }
}

/// Per-account isolation: two different accounts never share a configuration
/// directory, whatever the base and `$HOME`.
pub proof fn lemma_account_dirs_distinct(
    base: Seq<char>,
    home: Option<Seq<char>>,
    a1: Seq<char>,
    a2: Seq<char>,
)
    requires
        a1 != a2,
    ensures
        config::expand_home_spec(account_dir(base, a1), home) != config::expand_home_spec(
            account_dir(base, a2),
            home,
        ),
        account_dir(base, a1) != account_dir(base, a2),
{
    reveal_strlit("$HOME");
    reveal_strlit("/");
    let d1 = account_dir(base, a1);
    let d2 = account_dir(base, a2);
    let p = "$HOME"@;
    // The prefix test sees the base only: where the base is shorter than `$HOME`, the
    // `/` after it already differs from `$HOME` at that place.
    let expand = base.len() >= 5 && base.subrange(0, 5) == p && home is Some;
    if base.len() >= 5 {
        assert(d1.subrange(0, 5) == base.subrange(0, 5));
        assert(d2.subrange(0, 5) == base.subrange(0, 5));
    } else {
        assert(d1[base.len() as int] == '/');
        assert(d2[base.len() as int] == '/');
        if config::starts_with(d1, p) {
            assert(d1.subrange(0, 5)[base.len() as int] == d1[base.len() as int]);
        }
        if config::starts_with(d2, p) {
            assert(d2.subrange(0, 5)[base.len() as int] == d2[base.len() as int]);
        }
    }
    let front = if expand { home->0 + base.subrange(5, base.len() as int) } else { base };
    if expand {
        assert(d1.subrange(5, d1.len() as int) == base.subrange(5, base.len() as int) + "/"@ + a1);
        assert(d2.subrange(5, d2.len() as int) == base.subrange(5, base.len() as int) + "/"@ + a2);
    }
    let r1 = config::expand_home_spec(d1, home);
    let r2 = config::expand_home_spec(d2, home);
    assert(r1 == front + "/"@ + a1);
    assert(r2 == front + "/"@ + a2);
    if r1 == r2 {
        assert(r1.subrange(front.len() as int + 1, r1.len() as int) == a1);
        assert(r2.subrange(front.len() as int + 1, r2.len() as int) == a2);
    }
    if d1 == d2 {
        assert(d1.subrange(base.len() as int + 1, d1.len() as int) == a1);
        assert(d2.subrange(base.len() as int + 1, d2.len() as int) == a2);
    }
}

/// `t` begins with a JSON error envelope: after white space, `{`; after white space,
/// `"error"`; after white space, `:`.
pub open spec fn is_error_envelope(t: Seq<char>) -> bool {
    let a = text::trim_start(t);
    &&& a.len() > 0
    &&& a[0] == '{'
    &&& config::starts_with(text::trim_start(a.drop_first()), "\"error\""@)
    &&& {
        let b = text::trim_start(a.drop_first());
        let c = text::trim_start(b.subrange("\"error\""@.len() as int, b.len() as int));
        c.len() > 0 && c[0] == ':'
    }
}

/// Whether a regex search of `text` for `pattern` finds a match anywhere: `None` when
/// the pattern does not compile.
pub uninterp spec fn regex_is_match(pattern: Seq<char>, text: Seq<char>) -> Option<bool>;

/// `regex::Regex::new(pattern)` and then `is_match(text)`; `None` when the pattern does
/// not compile. Besides naming the result, for the error-envelope pattern it states
/// what the regex syntax makes of a match (`^` the start of the text, `\s` the Unicode
/// white space): the text is an error envelope (see [`is_error_envelope`]). Whether
/// the pattern compiles is left to the name.
#[verifier::external_body]
fn find_match(pattern: &str, text: &str) -> (r: Option<bool>)
    ensures
        r == regex_is_match(pattern@, text@),
        pattern@ == error_envelope_pattern() ==> (r matches Some(b) ==> b == is_error_envelope(text@)),
{
    match regex::Regex::new(pattern) {
        Ok(re) => Some(re.is_match(text)),
        Err(_) => None,
    }
}

/// The pattern of a JSON error envelope at the start of `gws` output: optional white
/// space, `{`, optional white space, `"error"`, optional white space, `:`.
pub open spec fn error_envelope_pattern() -> Seq<char> {
    "^\\s*\\{\\s*\"error\"\\s*:"@
}

/// The exit code of a `gws` run: its own code, or 1 when it has none (killed by a
/// signal), except that a run that exits 0 while printing an error envelope counts as
/// a failure with code 2.
pub open spec fn exit_code_spec(status: Option<i32>, envelope: bool) -> i32 {
    match status {
        None => 1,
        Some(c) => if c == 0 && envelope { 2 } else { c },
    }
}

/// The exit code for a `gws` run with exit status `status` (`None`: no code) and
/// whether its output began with an error envelope.
pub fn exit_code_for(status: Option<i32>, envelope: bool) -> (code: i32)
    ensures
        code == exit_code_spec(status, envelope),
{
    match status {
        None => 1,
        Some(c) => if c == 0 && envelope { 2 } else { c },
    }
}

/// The exit code for a `gws` run with exit status `status` and standard output
/// `stdout`: an exit 0 whose output is an error envelope (such as an authentication
/// error) is not taken as success.
pub fn gws_exit_code(status: Option<i32>, stdout: &str) -> (code: i32)
    ensures
        code == exit_code_spec(status, regex_is_match(error_envelope_pattern(), stdout@) == Some(true)),
        regex_is_match(error_envelope_pattern(), stdout@) is Some ==> code == exit_code_spec(
            status,
            is_error_envelope(stdout@),
        ),
{
    let found = find_match("^\\s*\\{\\s*\"error\"\\s*:", stdout);
    let envelope = match found {
        Some(b) => b,
        None => false,
    };
    exit_code_for(status, envelope)
}

/// In remote mode `gws` runs with the credential file of the given directory and
/// account: the command begins by naming `<creds_dir>/<account>.json`, and two
/// different credential directories never give the same command.
pub proof fn lemma_remote_credentials(
    h: String,
    creds1: Seq<char>,
    creds2: Seq<char>,
    config_base: Seq<char>,
    home: Option<Seq<char>>,
    account: Seq<char>,
    args: Seq<Seq<char>>,
)
    ensures
        ({
            let c1 = gws_invocation(Some(h), creds1, config_base, home, account, args).1[3];
            let c2 = gws_invocation(Some(h), creds2, config_base, home, account, args).1[3];
            &&& config::starts_with(
                c1,
                "GOOGLE_WORKSPACE_CLI_CREDENTIALS_FILE="@ + creds1 + "/"@ + account + ".json"@,
            )
            &&& (creds1 != creds2 ==> c1 != c2)
        }),
{
    let c1 = gws_invocation(Some(h), creds1, config_base, home, account, args).1[3];
    let c2 = gws_invocation(Some(h), creds2, config_base, home, account, args).1[3];
    let x = "GOOGLE_WORKSPACE_CLI_CREDENTIALS_FILE="@;
    let tail = ".json"@ + " GOOGLE_WORKSPACE_CLI_CONFIG_DIR="@ + account_dir(config_base, account)
        + " GOOGLE_WORKSPACE_CLI_KEYRING_BACKEND=file gws "@ + text::join(args, " "@);
    let p1 = x + creds1 + "/"@ + account + ".json"@;
    assert(c1 =~= x + creds1 + ("/"@ + account + tail));
    assert(c2 =~= x + creds2 + ("/"@ + account + tail));
    assert(c1.subrange(0, p1.len() as int) =~= p1);
    if creds1 != creds2 && c1 == c2 {
        assert(creds1.len() == creds2.len());
        assert(c1.subrange(x.len() as int, x.len() + creds1.len() as int) =~= creds1);
        assert(c2.subrange(x.len() as int, x.len() + creds2.len() as int) =~= creds2);
    }
}

/// A `gws` run counts as a success (code 0) exactly when it exited 0 without an error
/// envelope; a run without a code fails with 1; any other code is kept as it is.
pub proof fn lemma_exit_codes(status: Option<i32>, envelope: bool)
    ensures
        (exit_code_spec(status, envelope) == 0) == (status == Some(0i32) && !envelope),
        status is None ==> exit_code_spec(status, envelope) == 1,
        forall|c: i32| status == Some(c) && c != 0 ==> exit_code_spec(status, envelope) == c,
        status == Some(0i32) && envelope ==> exit_code_spec(status, envelope) == 2,
{
}

/// Locally, `gws` runs through `sh -c` as `gws` followed by the arguments, with the
/// account's configuration directory in the environment, which ends with `/<account>`.
pub proof fn lemma_local_run(
    creds_dir: Seq<char>,
    config_base: Seq<char>,
    home: Option<Seq<char>>,
    account: Seq<char>,
    args: Seq<Seq<char>>,
)
    ensures
        ({
            let inv = gws_invocation(None, creds_dir, config_base, home, account, args);
            &&& inv.0 == "sh"@
            &&& inv.1.len() == 2
            &&& inv.1[1] == "gws "@ + text::join(args, " "@)
            &&& inv.2.len() == 1
            &&& config::ends_with(inv.2[0].1, "/"@ + account)
        }),
{
    let d = account_dir(config_base, account);
    let r = config::expand_home_spec(d, home);
    let tail = "/"@ + account;
    assert(d =~= config_base + tail);
    assert(d.subrange(d.len() - tail.len(), d.len() as int) =~= tail);
    if config::starts_with(d, "$HOME"@) && home is Some {
        reveal_strlit("$HOME");
        reveal_strlit("/");
        // the expanded part keeps the end of `d`
        let rest = d.subrange(5, d.len() as int);
        assert(r == home->0 + rest);
        if config_base.len() >= 5 {
            assert(rest =~= config_base.subrange(5, config_base.len() as int) + tail);
            assert(r.subrange(r.len() - tail.len(), r.len() as int) =~= tail);
        } else {
            assert(d[config_base.len() as int] == '/');
            assert(d.subrange(0, 5)[config_base.len() as int] == d[config_base.len() as int]);
        }
    }
}

} // verus!
