//! What the commands tell the user: onboarding steps, the doctor's diagnosis, the
//! welcome screen, the account list, and the notices around drafts, sign-in and links.
//! Each function returns the lines to print (each printed with a line break after
//! it) and, where the command ends there, its exit code.

use vstd::prelude::*;
use vstd::string::*;
use crate::commands;
use crate::config;
use crate::gws;
use crate::links;
use crate::gws::Invocation;
use crate::policy;
use crate::policy::{gwx_scopes, review_required};
use crate::text;
use crate::text::{extend_strings, join_strings, str_eq};

verus! {

/// The lines a command prints, on standard output and on standard error, and the
/// code it exits with.
pub struct Outcome {
    pub code: i32,
    pub out: Vec<String>,
    pub err: Vec<String>,
}

impl View for Outcome {
    type V = (i32, Seq<Seq<char>>, Seq<Seq<char>>);

    open spec fn view(&self) -> Self::V {
        (self.code, text::views(self.out@), text::views(self.err@))
    }
}

/// The onboarding steps for the active mode: locally, `gwx auth <name>`; in remote
/// mode, the `gws auth login` command to run on the host for each account.
pub open spec fn onboarding_spec(remote: bool, config_base: Seq<char>) -> Seq<Seq<char>> {
    if remote {
        seq![
            "You're in remote mode (GWX_HOST is set). Authorize each account ON the host:"@,
            "    GOOGLE_WORKSPACE_CLI_KEYRING_BACKEND=file \\"@,
            "    GOOGLE_WORKSPACE_CLI_CONFIG_DIR="@ + config_base + "/<name> \\"@,
            "      gws auth login --scopes "@ + text::join(policy::scope_list(), ","@),
            "\nThen re-check:  gwx doctor"@,
        ]
    } else {
        seq![
            "Add your first account (opens Google sign-in; read + compose only, never send):"@,
            "    gwx auth <name>          e.g.  gwx auth personal"@,
            "\nThen:  gwx mail --as personal list"@,
        ]
    }
}

/// The onboarding steps (see [`onboarding_spec`]), printed on standard output.
pub fn onboarding(remote: bool, config_base: &str) -> (lines: Vec<String>)
    ensures
        text::views(lines@) == onboarding_spec(remote, config_base@),
{
    let mut lines: Vec<String> = Vec::new();
    if remote {
        lines.push(
            String::from_str(
                "You're in remote mode (GWX_HOST is set). Authorize each account ON the host:",
            ),
        );
        lines.push(String::from_str("    GOOGLE_WORKSPACE_CLI_KEYRING_BACKEND=file \\"));
        let mut dir = String::from_str("    GOOGLE_WORKSPACE_CLI_CONFIG_DIR=");
        dir.append(config_base);
        dir.append("/<name> \\");
        lines.push(dir);
        let mut login = String::from_str("      gws auth login --scopes ");
        let scopes = gwx_scopes();
        login.append(scopes.as_str());
        lines.push(login);
        lines.push(String::from_str("\nThen re-check:  gwx doctor"));
    } else {
        lines.push(
            String::from_str(
                "Add your first account (opens Google sign-in; read + compose only, never send):",
            ),
        );
        lines.push(String::from_str("    gwx auth <name>          e.g.  gwx auth personal"));
        lines.push(String::from_str("\nThen:  gwx mail --as personal list"));
    }
    assert(text::views(lines@) =~= onboarding_spec(remote, config_base@));
    lines
}

/// The heading of `gwx doctor`.
pub fn doctor_title() -> (t: String)
    ensures
        t@ == "gwx doctor\n"@,
{
    String::from_str("gwx doctor\n")
}

/// The probe by which `gwx doctor` looks for `gws` in the active mode: it prints the
/// path of `gws`, or `__MISSING__`; it runs with the usual probe timeout.
pub fn doctor_probe_command(remote: &Option<String>) -> (inv: Invocation)
    ensures
        inv@ == gws::probe_invocation(
            *remote,
            "command -v gws || echo __MISSING__"@,
            gws::probe_timeout(),
        ),
{
    gws::probe_command(remote, "command -v gws || echo __MISSING__", gws::PROBE_TIMEOUT)
}

/// Where `gws` should be: on the host in remote mode, else on this machine.
pub open spec fn place(remote: bool) -> Seq<char> {
    if remote {
        "the host"@
    } else {
        "this machine"@
    }
}

/// What `gwx doctor` says of the search for `gws`, and whether it stops there (with
/// its exit code). A path found: reported. Not found: install advice; locally that
/// ends the diagnosis with code 1. The probe failed: in remote mode the host is
/// reported unreachable; locally the check could not run on this machine; code 1
/// either way. A host is named only in remote mode.
pub open spec fn doctor_gws_spec(remote: Option<String>, probe: Result<String, String>) -> (
    Seq<Seq<char>>,
    Option<i32>,
) {
    match probe {
        Ok(p) => if p@ != "__MISSING__"@ && p@.len() > 0 {
            (seq!["✅ gws found on "@ + place(remote is Some) + ": "@ + p@], None)
        } else {
            (
                seq![
                    "❌ gws is not installed on "@ + place(remote is Some) + "."@,
                    "   Install it:  npm install -g @googleworkspace/cli   (or a release binary)"@,
                ],
                if remote is None { Some(1i32) } else { None },
            )
        },
        Err(e) => (
            match remote {
                Some(h) => seq![
                    "❌ can't reach host '"@ + h@ + "': "@ + e@,
                    "   Check GWX_HOST / ~/.ssh/config / your private network."@,
                ],
                None => seq!["❌ couldn't check for gws on this machine: "@ + e@],
            },
            Some(1i32),
        ),
    }
}

fn place_string(remote: bool) -> (p: String)
    ensures
        p@ == place(remote),
{
    if remote {
        String::from_str("the host")
    } else {
        String::from_str("this machine")
    }
}

/// The search for `gws` in `gwx doctor` (see [`doctor_gws_spec`]), printed on
/// standard output, from the result of running [`doctor_probe_command`].
pub fn doctor_gws(remote: &Option<String>, probe: &Result<String, String>) -> (r: (Vec<String>, Option<i32>))
    ensures
        (text::views(r.0@), r.1) == doctor_gws_spec(*remote, *probe),
{
    let mut lines: Vec<String> = Vec::new();
    let place = place_string(remote.is_some());
    match probe {
        Ok(p) => {
            if !str_eq(p.as_str(), "__MISSING__") && !p.as_str().is_empty() {
                let mut l = String::from_str("✅ gws found on ");
                l.append(place.as_str());
                l.append(": ");
                l.append(p.as_str());
                lines.push(l);
                assert(text::views(lines@) =~= doctor_gws_spec(*remote, *probe).0);
                (lines, None)
            } else {
                let mut l = String::from_str("❌ gws is not installed on ");
                l.append(place.as_str());
                l.append(".");
                lines.push(l);
                lines.push(
                    String::from_str(
                        "   Install it:  npm install -g @googleworkspace/cli   (or a release binary)",
                    ),
                );
                assert(text::views(lines@) =~= doctor_gws_spec(*remote, *probe).0);
                if remote.is_none() {
                    (lines, Some(1))
                } else {
                    (lines, None)
                }
            }
        },
        Err(e) => {
            match remote {
                Some(h) => {
                    let mut l = String::from_str("❌ can't reach host '");
                    l.append(h.as_str());
                    l.append("': ");
                    l.append(e.as_str());
                    lines.push(l);
                    lines.push(
                        String::from_str("   Check GWX_HOST / ~/.ssh/config / your private network."),
                    );
                },
                None => {
                    let mut l = String::from_str("❌ couldn't check for gws on this machine: ");
                    l.append(e.as_str());
                    lines.push(l);
                },
            }
            assert(text::views(lines@) =~= doctor_gws_spec(*remote, *probe).0);
            (lines, Some(1))
        },
    }
}

/// What `gwx doctor` says of the accounts: the list and a first command to try, or,
/// with none, the onboarding steps.
pub open spec fn doctor_accounts_spec(accounts: Seq<Seq<char>>, remote: bool, config_base: Seq<char>) -> Seq<
    Seq<char>,
> {
    if accounts.len() > 0 {
        seq![
            "✅ Accounts: "@ + text::join(accounts, ", "@),
            "\nReady 🎉  Try:  gwx mail --as "@ + accounts[0] + " list 5"@,
        ]
    } else {
        seq!["⚠️  No accounts set up yet.\n"@] + onboarding_spec(remote, config_base)
    }
}

/// The account part of `gwx doctor` (see [`doctor_accounts_spec`]), printed on
/// standard output; the diagnosis then ends with code 0.
pub fn doctor_accounts(accounts: &Vec<String>, remote: bool, config_base: &str) -> (r: Outcome)
    ensures
        r@ == (0i32, doctor_accounts_spec(text::views(accounts@), remote, config_base@), Seq::<Seq<char>>::empty()),
{
    let mut lines: Vec<String> = Vec::new();
    if accounts.len() > 0 {
        let mut l = String::from_str("✅ Accounts: ");
        let all = join_strings(accounts, ", ");
        l.append(all.as_str());
        lines.push(l);
        let mut t = String::from_str("\nReady 🎉  Try:  gwx mail --as ");
        t.append(accounts[0].as_str());
        t.append(" list 5");
        lines.push(t);
        assert(text::views(lines@) =~= doctor_accounts_spec(text::views(accounts@), remote, config_base@));
    } else {
        lines.push(String::from_str("⚠️  No accounts set up yet.\n"));
        let steps = onboarding(remote, config_base);
        extend_strings(&mut lines, &steps);
    }
    let err: Vec<String> = Vec::new();
    let r = Outcome { code: 0, out: lines, err };
    assert(r@.2 =~= Seq::<Seq<char>>::empty());
    r
}

/// What bare `gwx` shows: with accounts, the list and commands to try for the first
/// one, code 0; with none, what `gwx` is and the onboarding steps, code 1.
pub open spec fn welcome_spec(accounts: Seq<Seq<char>>, remote: bool, config_base: Seq<char>) -> (
    i32,
    Seq<Seq<char>>,
    Seq<Seq<char>>,
) {
    if accounts.len() > 0 {
        (
            0i32,
            seq![
                "gwx — you're set up ✅"@,
                "Accounts: "@ + text::join(accounts, ", "@),
                "\nTry:"@,
                "  gwx mail  --as "@ + accounts[0] + " list 5"@,
                "  gwx drive --as "@ + accounts[0] + " ls"@,
                "  gwx doc   --as "@ + accounts[0] + " get <fileId>"@,
                "\nFull help: gwx --help    ·    Diagnostics: gwx doctor"@,
            ],
            seq![],
        )
    } else {
        (
            1i32,
            seq![
                "gwx — multi-account, policy-governed Google Workspace for AI agents.\n"@,
                "Not set up yet.\n"@,
            ] + onboarding_spec(remote, config_base) + seq![
                "\nDiagnostics: gwx doctor    ·    Full help: gwx --help"@,
            ],
            seq![],
        )
    }
}

/// The welcome of bare `gwx` (see [`welcome_spec`]).
pub fn welcome(accounts: &Vec<String>, remote: bool, config_base: &str) -> (r: Outcome)
    ensures
        r@ == welcome_spec(text::views(accounts@), remote, config_base@),
{
    let mut out: Vec<String> = Vec::new();
    let err: Vec<String> = Vec::new();
    assert(text::views(err@) == Seq::<Seq<char>>::empty());
    if accounts.len() > 0 {
        out.push(String::from_str("gwx — you're set up ✅"));
        let mut l = String::from_str("Accounts: ");
        let all = join_strings(accounts, ", ");
        l.append(all.as_str());
        out.push(l);
        out.push(String::from_str("\nTry:"));
        let first = accounts[0].as_str();
        let mut m = String::from_str("  gwx mail  --as ");
        m.append(first);
        m.append(" list 5");
        out.push(m);
        let mut d = String::from_str("  gwx drive --as ");
        d.append(first);
        d.append(" ls");
        out.push(d);
        let mut g = String::from_str("  gwx doc   --as ");
        g.append(first);
        g.append(" get <fileId>");
        out.push(g);
        out.push(String::from_str("\nFull help: gwx --help    ·    Diagnostics: gwx doctor"));
        let r = Outcome { code: 0, out, err };
        assert(r@.1 =~= welcome_spec(text::views(accounts@), remote, config_base@).1);
        r
    } else {
        out.push(
            String::from_str("gwx — multi-account, policy-governed Google Workspace for AI agents.\n"),
        );
        out.push(String::from_str("Not set up yet.\n"));
        let steps = onboarding(remote, config_base);
        extend_strings(&mut out, &steps);
        let ghost before = text::views(out@);
        out.push(String::from_str("\nDiagnostics: gwx doctor    ·    Full help: gwx --help"));
        assert(text::views(out@) == before.push("\nDiagnostics: gwx doctor    ·    Full help: gwx --help"@));
        let r = Outcome { code: 1, out, err };
        assert(r@.1 =~= welcome_spec(text::views(accounts@), remote, config_base@).1);
        r
    }
}

/// What `gwx accounts` prints: one account per line, or how to add the first one.
pub open spec fn accounts_listing_spec(accounts: Seq<Seq<char>>) -> Seq<Seq<char>> {
    if accounts.len() == 0 {
        seq!["No accounts yet. Add one:  gwx auth <name>"@]
    } else {
        accounts
    }
}

/// The output of `gwx accounts` (see [`accounts_listing_spec`]), on standard output;
/// it exits with 0.
pub fn accounts_listing(accounts: &Vec<String>) -> (r: Outcome)
    ensures
        r@ == (0i32, accounts_listing_spec(text::views(accounts@)), Seq::<Seq<char>>::empty()),
{
    let mut lines: Vec<String> = Vec::new();
    if accounts.len() == 0 {
        lines.push(String::from_str("No accounts yet. Add one:  gwx auth <name>"));
        assert(text::views(lines@) =~= accounts_listing_spec(text::views(accounts@)));
    } else {
        assert(text::views(lines@) == Seq::<Seq<char>>::empty());
        extend_strings(&mut lines, accounts);
        assert(text::views(lines@) =~= accounts_listing_spec(text::views(accounts@)));
    }
    let err: Vec<String> = Vec::new();
    let r = Outcome { code: 0, out: lines, err };
    assert(r@.2 =~= Seq::<Seq<char>>::empty());
    r
}

/// The notice on standard error before a draft is created on `account`.
pub fn draft_start_notice(account: &str) -> (n: String)
    ensures
        n@ == "📝 建立草稿於 "@ + account@ + "（不寄）…"@,
{
    let mut n = String::from_str("📝 建立草稿於 ");
    n.append(account);
    n.append("（不寄）…");
    n
}

/// The notice after creating a draft on `account` ended with `code`: nothing on
/// failure; on success, a mandatory-review notice for a review-gated identity, else a
/// note that the draft is saved and not sent.
pub open spec fn draft_done_spec(account: Seq<char>, code: i32) -> Option<Seq<char>> {
    if code != 0 {
        None
    } else if policy::is_review_gated(account) {
        Some(
            "🔴 REVIEW REQUIRED（"@ + account
                + " 為工作身分）：草稿已建於 Gmail 草稿匣,務必由 Jimmy 過目。未經 review = 任務未完成。"@,
        )
    } else {
        Some("✅ 草稿已建於 Gmail 草稿匣（未寄出）。"@)
    }
}

/// The notice on standard error after creating a draft (see [`draft_done_spec`]).
pub fn draft_done_notice(account: &str, code: i32) -> (n: Option<String>)
    ensures
        match n {
            Some(s) => draft_done_spec(account@, code) == Some(s@),
            None => draft_done_spec(account@, code) is None,
        },
{
    if code != 0 {
        None
    } else if review_required(account) {
        let mut s = String::from_str("🔴 REVIEW REQUIRED（");
        s.append(account);
        s.append(" 為工作身分）：草稿已建於 Gmail 草稿匣,務必由 Jimmy 過目。未經 review = 任務未完成。");
        Some(s)
    } else {
        Some(String::from_str("✅ 草稿已建於 Gmail 草稿匣（未寄出）。"))
    }
}

/// What `gwx mail send` answers: a refusal on standard error and code 2, whatever
/// the account. Sending is never autonomous, and the token lacks the scope for it.
pub fn send_refusal() -> (r: Outcome)
    ensures
        r@ == (2i32, Seq::<Seq<char>>::empty(), seq!["🚫 送信被 policy 擋下:gwx 不自主寄信(scope 亦不含 gmail.send)。"@]),
{
    let out: Vec<String> = Vec::new();
    let mut err: Vec<String> = Vec::new();
    err.push(String::from_str("🚫 送信被 policy 擋下:gwx 不自主寄信(scope 亦不含 gmail.send)。"));
    let r = Outcome { code: policy::send_refused_code(), out, err };
    assert(r@.1 =~= Seq::<Seq<char>>::empty());
    assert(r@.2 =~= seq!["🚫 送信被 policy 擋下:gwx 不自主寄信(scope 亦不含 gmail.send)。"@]);
    r
}

/// The notice on standard error when `gwx doc resolve` finds no link in its input.
pub fn no_links_notice() -> (n: String)
    ensures
        n@ == "(未在文字中找到 Google Doc/Sheet/Slide/Drive 連結)"@,
{
    String::from_str("(未在文字中找到 Google Doc/Sheet/Slide/Drive 連結)")
}

/// The heading printed before each link that `gwx doc resolve` exports.
pub fn link_heading(kind: &str, id: &str, url: &str) -> (h: String)
    ensures
        h@ == "── ["@ + kind@ + "] "@ + id@ + "  ("@ + url@ + ")"@,
{
    let mut h = String::from_str("── [");
    h.append(kind);
    h.append("] ");
    h.append(id);
    h.append("  (");
    h.append(url);
    h.append(")");
    h
}

/// The notice on standard error when `gws` could not be started.
pub fn gws_spawn_failed_notice(reason: &str) -> (n: String)
    ensures
        n@ == "failed to run gws: "@ + reason@,
{
    let mut n = String::from_str("failed to run gws: ");
    n.append(reason);
    n
}

/// The notice on standard error when `gws` exited 0 with an error envelope.
pub fn envelope_notice() -> (n: String)
    ensures
        n@ == "gwx: gws returned an error envelope with exit 0 — treating as failure."@,
{
    String::from_str("gwx: gws returned an error envelope with exit 0 — treating as failure.")
}

/// The notice on standard error when sign-in is asked for in remote mode; the
/// onboarding steps follow on standard output, and the command exits with 1.
pub fn auth_remote_notice() -> (n: String)
    ensures
        n@ == "Remote mode (GWX_HOST is set): authorize accounts on the host, then run `gwx doctor`."@,
{
    String::from_str(
        "Remote mode (GWX_HOST is set): authorize accounts on the host, then run `gwx doctor`.",
    )
}

/// The notice on standard error when this build has no sign-in client; the command
/// exits with 1.
pub fn auth_not_configured_notice() -> (n: String)
    ensures
        n@ == "gwx's built-in Google sign-in isn't configured in this build yet.\nSet GOOGLE_WORKSPACE_CLI_CLIENT_ID to your own OAuth client, or use a build that bundles gwx's client."@,
{
    String::from_str(
        "gwx's built-in Google sign-in isn't configured in this build yet.\nSet GOOGLE_WORKSPACE_CLI_CLIENT_ID to your own OAuth client, or use a build that bundles gwx's client.",
    )
}

/// The notice on standard error just before sign-in opens for `account`.
pub fn auth_opening_notice(account: &str) -> (n: String)
    ensures
        n@ == "Opening Google sign-in for '"@ + account@ + "' — read + compose only, never send.\n"@,
{
    let mut n = String::from_str("Opening Google sign-in for '");
    n.append(account);
    n.append("' — read + compose only, never send.\n");
    n
}

/// How sign-in for `account` ends, from `run`: `Err` with the reason when `gws` could
/// not be started, else whether it succeeded and its exit code. Success: code 0 and a
/// confirmation; failure: its code, or 1 without one; not started: code 1 and advice.
pub open spec fn auth_outcome_spec(account: Seq<char>, run: Result<(bool, Option<i32>), String>) -> (
    i32,
    Seq<Seq<char>>,
    Seq<Seq<char>>,
) {
    match run {
        Ok((true, _)) => (
            0i32,
            seq!["\n✅ '"@ + account + "' authorized.  Try:  gwx mail --as "@ + account + " list 5"@],
            seq![],
        ),
        Ok((false, c)) => (
            match c {
                Some(c) => c,
                None => 1i32,
            },
            seq![],
            seq![],
        ),
        Err(e) => (
            1i32,
            seq![],
            seq!["couldn't run gws (is it installed? `gwx doctor`): "@ + e@],
        ),
    }
}

/// How sign-in ends (see [`auth_outcome_spec`]).
pub fn auth_outcome(account: &str, run: Result<(bool, Option<i32>), String>) -> (r: Outcome)
    ensures
        r@ == auth_outcome_spec(account@, run),
{
    let mut out: Vec<String> = Vec::new();
    let mut err: Vec<String> = Vec::new();
    match run {
        Ok((success, c)) => {
            if success {
                let mut m = String::from_str("\n✅ '");
                m.append(account);
                m.append("' authorized.  Try:  gwx mail --as ");
                m.append(account);
                m.append(" list 5");
                out.push(m);
                let r = Outcome { code: 0, out, err };
                assert(r@ =~= auth_outcome_spec(account@, run));
                r
            } else {
                let code = match c {
                    Some(c) => c,
                    None => 1,
                };
                let r = Outcome { code, out, err };
                assert(r@ =~= auth_outcome_spec(account@, run));
                r
            }
        },
        Err(e) => {
            let mut m = String::from_str("couldn't run gws (is it installed? `gwx doctor`): ");
            m.append(e.as_str());
            err.push(m);
            let r = Outcome { code: 1, out, err };
            assert(r@ =~= auth_outcome_spec(account@, run));
            r
        },
    }
}

/// How a `gws` run ends, from `run`: `Err` with the reason when it could not be
/// started; else its exit status (`None`: no code) and its standard output, which the
/// caller has already passed through. Not started: code 1 and a notice. Otherwise the
/// code of [`gws::exit_code_spec`], with a notice when an exit 0 is overruled by an
/// error envelope. Code 0 comes exactly from a run that exited 0 without an envelope.
pub fn gws_outcome(run: Result<(Option<i32>, String), String>) -> (r: Outcome)
    ensures
        match run {
            Err(e) => r@ == (1i32, Seq::<Seq<char>>::empty(), seq!["failed to run gws: "@ + e@]),
            Ok((status, out)) => {
                let envelope = gws::regex_is_match(gws::error_envelope_pattern(), out@) == Some(true);
                &&& r@.0 == gws::exit_code_spec(status, envelope)
                &&& r@.1 == Seq::<Seq<char>>::empty()
                &&& r@.2 == if status == Some(0i32) && envelope {
                    seq!["gwx: gws returned an error envelope with exit 0 — treating as failure."@]
                } else {
                    Seq::<Seq<char>>::empty()
                }
            },
        },
        r.code == 0 <==> (run matches Ok((status, out)) && status == Some(0i32)
            && gws::regex_is_match(gws::error_envelope_pattern(), out@) != Some(true)),
        run matches Ok((status, out)) ==> (gws::regex_is_match(gws::error_envelope_pattern(), out@) is Some
            ==> r@.0 == gws::exit_code_spec(status, gws::is_error_envelope(out@))),
{
    let out_lines: Vec<String> = Vec::new();
    let mut err: Vec<String> = Vec::new();
    assert(text::views(out_lines@) =~= Seq::<Seq<char>>::empty());
    match run {
        Err(e) => {
            err.push(gws_spawn_failed_notice(e.as_str()));
            let r = Outcome { code: 1, out: out_lines, err };
            assert(r@.2 =~= seq!["failed to run gws: "@ + e@]);
            r
        },
        Ok((status, out)) => {
            let code = gws::gws_exit_code(status, out.as_str());
            let overruled = match status {
                Some(c) => c == 0 && code == 2,
                None => false,
            };
            if overruled {
                err.push(envelope_notice());
            }
            let r = Outcome { code, out: out_lines, err };
            assert(r@.2 =~= if status == Some(0i32) && gws::regex_is_match(gws::error_envelope_pattern(), out@) == Some(true) {
                seq!["gwx: gws returned an error envelope with exit 0 — treating as failure."@]
            } else {
                Seq::<Seq<char>>::empty()
            });
            r
        },
    }
}

/// Where sign-in stops before anything is launched: in remote mode, with a notice
/// (printed first) and then the onboarding steps for the host, code 1; without a client, with a notice,
/// code 1. `None` for the two plans that go on to launch sign-in.
pub fn auth_refusal(plan: policy::AuthPlan, config_base: &str) -> (r: Option<Outcome>)
    ensures
        match plan {
            policy::AuthPlan::RemoteMode => r matches Some(o) && o@ == (
                1i32,
                onboarding_spec(true, config_base@),
                seq!["Remote mode (GWX_HOST is set): authorize accounts on the host, then run `gwx doctor`."@],
            ),
            policy::AuthPlan::NotConfigured => r matches Some(o) && o@ == (
                1i32,
                Seq::<Seq<char>>::empty(),
                seq!["gwx's built-in Google sign-in isn't configured in this build yet.\nSet GOOGLE_WORKSPACE_CLI_CLIENT_ID to your own OAuth client, or use a build that bundles gwx's client."@],
            ),
            _ => r is None,
        },
{
    match plan {
        policy::AuthPlan::RemoteMode => {
            let mut err: Vec<String> = Vec::new();
            err.push(auth_remote_notice());
            let out = onboarding(true, config_base);
            let o = Outcome { code: 1, out, err };
            assert(o@.2 =~= seq!["Remote mode (GWX_HOST is set): authorize accounts on the host, then run `gwx doctor`."@]);
            Some(o)
        },
        policy::AuthPlan::NotConfigured => {
            let mut err: Vec<String> = Vec::new();
            err.push(auth_not_configured_notice());
            let out: Vec<String> = Vec::new();
            let o = Outcome { code: 1, out, err };
            assert(o@.1 =~= Seq::<Seq<char>>::empty());
            assert(o@.2 =~= seq!["gwx's built-in Google sign-in isn't configured in this build yet.\nSet GOOGLE_WORKSPACE_CLI_CLIENT_ID to your own OAuth client, or use a build that bundles gwx's client."@]);
            Some(o)
        },
        _ => None,
    }
}

/// What `gwx doc resolve` answers when its input cannot be read: a notice, code 1.
pub fn stdin_failure() -> (r: Outcome)
    ensures
        r@ == (1i32, Seq::<Seq<char>>::empty(), seq!["讀 stdin 失敗"@]),
{
    let out: Vec<String> = Vec::new();
    let mut err: Vec<String> = Vec::new();
    err.push(String::from_str("讀 stdin 失敗"));
    let r = Outcome { code: 1, out, err };
    assert(r@.1 =~= Seq::<Seq<char>>::empty());
    assert(r@.2 =~= seq!["讀 stdin 失敗"@]);
    r
}

/// The exit code of `gwx doc resolve`, from the codes of its exports in order: that of
/// the last export, or 0 when there was no link.
pub fn resolve_exit_code(codes: &Vec<i32>) -> (code: i32)
    ensures
        code == if codes@.len() == 0 { 0i32 } else { codes@.last() },
{
    if codes.len() == 0 {
        0
    } else {
        codes[codes.len() - 1]
    }
}

/// The heading printed before exporting a link.
pub open spec fn heading_spec(l: links::LinkView) -> Seq<char> {
    "── ["@ + l.0 + "] "@ + l.1 + "  ("@ + l.2 + ")"@
}

/// One export step of `gwx doc resolve`: the heading to print and the `gws` arguments.
pub open spec fn step_view(st: (String, Vec<String>)) -> (Seq<char>, Seq<Seq<char>>) {
    (st.0@, text::views(st.1@))
}

/// What `gwx doc resolve` does with the links found: a notice on standard error when
/// there is none; for each link, in order, its heading and the export of its file.
pub fn resolve_plan(found: &Vec<(String, String, String)>) -> (r: (Vec<String>, Vec<(String, Vec<String>)>))
    ensures
        text::views(r.0@) == if found@.len() == 0 {
            seq!["(未在文字中找到 Google Doc/Sheet/Slide/Drive 連結)"@]
        } else {
            Seq::<Seq<char>>::empty()
        },
        r.1@.len() == found@.len(),
        forall|i: int| 0 <= i < found@.len() ==> step_view(#[trigger] r.1@[i]) == (
            heading_spec(links::link_view(found@[i])),
            commands::export_args_spec(found@[i].1@),
        ),
{
    let mut notices: Vec<String> = Vec::new();
    if found.len() == 0 {
        notices.push(no_links_notice());
    }
    assert(text::views(notices@) =~= if found@.len() == 0 {
        seq!["(未在文字中找到 Google Doc/Sheet/Slide/Drive 連結)"@]
    } else {
        Seq::<Seq<char>>::empty()
    });
    let mut steps: Vec<(String, Vec<String>)> = Vec::new();
    for i in 0..found.len()
        invariant
            steps@.len() == i,
            forall|j: int| 0 <= j < i ==> step_view(#[trigger] steps@[j]) == (
                heading_spec(links::link_view(found@[j])),
                commands::export_args_spec(found@[j].1@),
            ),
    {
        let l = &found[i];
        let h = link_heading(l.0.as_str(), l.1.as_str(), l.2.as_str());
        let a = commands::doc_export_args(l.1.as_str());
        steps.push((h, a));
    }
    (notices, steps)
}

/// A draft notice comes only after a draft was created (code 0): for every account a
/// failed creation gets none, a created draft always gets one, and it is the review
/// notice exactly for work identities.
pub proof fn lemma_draft_notice_only_on_success(account: Seq<char>, code: i32)
    ensures
        code != 0 ==> draft_done_spec(account, code) is None,
        code == 0 ==> draft_done_spec(account, code) is Some,
        code == 0 && policy::is_review_gated(account) ==> config::starts_with(
            draft_done_spec(account, code)->0,
            "🔴 REVIEW REQUIRED（"@ + account,
        ),
        code == 0 && !policy::is_review_gated(account) ==> draft_done_spec(account, code)->0
            == "✅ 草稿已建於 Gmail 草稿匣（未寄出）。"@,
{
    if code == 0 && policy::is_review_gated(account) {
        let n = draft_done_spec(account, code)->0;
        let p = "🔴 REVIEW REQUIRED（"@ + account;
        assert(n.subrange(0, p.len() as int) =~= p);
    }
}

/// The welcome and the doctor name every configured account: with accounts, their
/// account line begins with its label and holds each account whole.
pub proof fn lemma_every_account_listed(accounts: Seq<Seq<char>>, remote: bool, config_base: Seq<char>)
    requires
        accounts.len() > 0,
    ensures
        config::starts_with(welcome_spec(accounts, remote, config_base).1[1], "Accounts: "@),
        forall|i: int| 0 <= i < accounts.len() ==> text::has_piece(
            #[trigger] accounts[i],
            welcome_spec(accounts, remote, config_base).1[1],
        ),
        config::starts_with(doctor_accounts_spec(accounts, remote, config_base)[0], "✅ Accounts: "@),
        forall|i: int| 0 <= i < accounts.len() ==> text::has_piece(
            #[trigger] accounts[i],
            doctor_accounts_spec(accounts, remote, config_base)[0],
        ),
{
    text::lemma_join_has_parts(accounts, ", "@);
    let j = text::join(accounts, ", "@);
    let w = welcome_spec(accounts, remote, config_base).1[1];
    let d = doctor_accounts_spec(accounts, remote, config_base)[0];
    let lw = "Accounts: "@;
    let ld = "✅ Accounts: "@;
    assert(w == lw + j);
    assert(d == ld + j);
    assert(w.subrange(0, lw.len() as int) =~= lw);
    assert(d.subrange(0, ld.len() as int) =~= ld);
    assert forall|i: int| 0 <= i < accounts.len() implies text::has_piece(#[trigger] accounts[i], w) by {
        assert(text::has_piece(accounts[i], j));
        let at = choose|at: int| text::piece_at(accounts[i], j, at);
        assert(w.subrange(lw.len() + at, lw.len() + at + accounts[i].len()) =~= j.subrange(at, at + accounts[i].len()));
        assert(text::piece_at(accounts[i], w, lw.len() + at));
    }
    assert forall|i: int| 0 <= i < accounts.len() implies text::has_piece(#[trigger] accounts[i], d) by {
        assert(text::has_piece(accounts[i], j));
        let at = choose|at: int| text::piece_at(accounts[i], j, at);
        assert(d.subrange(ld.len() + at, ld.len() + at + accounts[i].len()) =~= j.subrange(at, at + accounts[i].len()));
        assert(text::piece_at(accounts[i], d, ld.len() + at));
    }
}

} // verus!
