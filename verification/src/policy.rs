//! The guardrails: which identities are review-gated, which OAuth scopes an account is
//! authorized with (never `gmail.send`), how sign-in is set up, and the refusal to send.

use vstd::prelude::*;
use vstd::string::*;
use crate::config;
use crate::config::expand_home;
use crate::gws::{account_dir, env_view, Invocation};
use crate::text;
use crate::text::{chars_of, join_strings, str_eq};

verus! {

/// The identities listed by name as work identities.
pub open spec fn review_required_accounts() -> Seq<Seq<char>> {
    seq!["work"@]
}

/// The name prefix that marks a family of work identities (`leap*`).
pub open spec fn work_identity_prefix() -> Seq<char> {
    "leap"@
}

/// A work identity: listed by name, or named with the `leap` prefix. A draft on a
/// work identity needs human review.
pub open spec fn is_review_gated(account: Seq<char>) -> bool {
    review_required_accounts().contains(account) || config::starts_with(account, work_identity_prefix())
}

/// Whether a draft created on `account` must be reviewed by a human before the task
/// counts as done: `work`, and every `leap*` identity.
pub fn review_required(account: &str) -> (r: bool)
    ensures
        r == is_review_gated(account@),
{
    proof {
        reveal_strlit("leap");
    }
    let v = chars_of(account);
    let prefixed = v.len() >= 4 && v[0] == 'l' && v[1] == 'e' && v[2] == 'a' && v[3] == 'p';
    if prefixed {
        assert(v@.subrange(0, 4) == work_identity_prefix());
        return true;
    }
    assert(!config::starts_with(account@, work_identity_prefix())) by {
        if config::starts_with(account@, work_identity_prefix()) {
            assert(v@.subrange(0, 4)[0] == v@[0]);
            assert(v@.subrange(0, 4)[1] == v@[1]);
            assert(v@.subrange(0, 4)[2] == v@[2]);
            assert(v@.subrange(0, 4)[3] == v@[3]);
        }
    }
    let listed = vec!["work"];
    let mut i: usize = 0;
    while i < listed.len()
        invariant
            i <= listed@.len(),
            listed@.len() == review_required_accounts().len(),
            forall|j: int| 0 <= j < listed@.len() ==> listed@[j]@ == review_required_accounts()[j],
            forall|j: int| 0 <= j < i ==> review_required_accounts()[j] != account@,
        decreases listed.len() - i,
    {
        if str_eq(listed[i], account) {
            assert(review_required_accounts()[i as int] == account@);
            return true;
        }
        i = i + 1;
    }
    false
}

/// The OAuth scopes every account is authorized with: read mail, compose drafts,
/// read Drive.
pub open spec fn scope_list() -> Seq<Seq<char>> {
    seq![
        "https://www.googleapis.com/auth/gmail.readonly"@,
        "https://www.googleapis.com/auth/gmail.compose"@,
        "https://www.googleapis.com/auth/drive.readonly"@,
    ]
}

/// The scope that would allow sending mail.
pub open spec fn send_scope() -> Seq<char> {
    "https://www.googleapis.com/auth/gmail.send"@
}

/// The `--scopes` argument of sign-in: the scopes, comma-separated.
pub fn gwx_scopes() -> (s: String)
    ensures
        s@ == text::join(scope_list(), ","@),
{
    let mut parts: Vec<String> = Vec::new();
    parts.push(String::from_str("https://www.googleapis.com/auth/gmail.readonly"));
    parts.push(String::from_str("https://www.googleapis.com/auth/gmail.compose"));
    parts.push(String::from_str("https://www.googleapis.com/auth/drive.readonly"));
    assert(text::views(parts@) =~= scope_list());
    join_strings(&parts, ",")
}

/// Draft-only by scope: the token never carries the scope that sends mail, so a rule
/// bug cannot grant a capability the token lacks.
pub proof fn lemma_no_send_scope()
    ensures
        !scope_list().contains(send_scope()),
{
    reveal_strlit("https://www.googleapis.com/auth/gmail.readonly");
    reveal_strlit("https://www.googleapis.com/auth/gmail.compose");
    reveal_strlit("https://www.googleapis.com/auth/drive.readonly");
    reveal_strlit("https://www.googleapis.com/auth/gmail.send");
    assert(scope_list()[0] != send_scope()) by {
        assert(scope_list()[0][38] != send_scope()[38]);
    }
    assert(scope_list()[1] != send_scope()) by {
        assert(scope_list()[1][38] != send_scope()[38]);
    }
    assert(scope_list()[2] != send_scope()) by {
        assert(scope_list()[2][32] != send_scope()[32]);
    }
}

/// The OAuth client id of the shared `gwx` sign-in app; a client id is public.
pub fn gwx_client_id() -> (id: String)
    ensures
        id@ == "145940090997-52bcdtbkmeahde2juknvrss72hbup6fv.apps.googleusercontent.com"@,
{
    String::from_str("145940090997-52bcdtbkmeahde2juknvrss72hbup6fv.apps.googleusercontent.com")
}

/// The client id that marks a build without a bundled sign-in client.
pub open spec fn placeholder_client_id() -> Seq<char> {
    "REPLACE_WITH_GWX_OAUTH_CLIENT_ID"@
}

/// How an account gets authorized.
#[derive(Clone, Copy, Debug, PartialEq, Eq, Structural)]
pub enum AuthPlan {
    /// Remote mode: accounts are authorized on the host, not here.
    RemoteMode,
    /// The user's own OAuth client, inherited from the environment.
    OwnClient,
    /// The client bundled with `gwx`.
    BundledClient,
    /// No client at all: sign-in cannot start.
    NotConfigured,
}

/// The sign-in plan: refused in remote mode; the user's own client when
/// `GOOGLE_WORKSPACE_CLI_CLIENT_ID` is set; else the bundled client unless this build
/// carries only the placeholder id.
pub open spec fn auth_plan_spec(remote: bool, user_has_own_client: bool, client_id: Seq<char>) -> AuthPlan {
    if remote {
        AuthPlan::RemoteMode
    } else if user_has_own_client {
        AuthPlan::OwnClient
    } else if client_id != placeholder_client_id() {
        AuthPlan::BundledClient
    } else {
        AuthPlan::NotConfigured
    }
}

/// The sign-in plan (see [`auth_plan_spec`]).
pub fn auth_plan(remote: bool, user_has_own_client: bool, client_id: &str) -> (p: AuthPlan)
    ensures
        p == auth_plan_spec(remote, user_has_own_client, client_id@),
{
    if remote {
        AuthPlan::RemoteMode
    } else if user_has_own_client {
        AuthPlan::OwnClient
    } else if !str_eq(client_id, "REPLACE_WITH_GWX_OAUTH_CLIENT_ID") {
        AuthPlan::BundledClient
    } else {
        AuthPlan::NotConfigured
    }
}

/// The local configuration directory of `account`, its `$HOME` expanded.
pub fn account_config_dir(config_base: &str, account: &str, home: Option<String>) -> (d: String)
    ensures
        d@ == config::expand_home_spec(account_dir(config_base@, account@), config::opt_view(home)),
{
    let mut dir = String::from_str(config_base);
    dir.append("/");
    dir.append(account);
    expand_home(dir.as_str(), home)
}

/// The sign-in process: `gws auth login --scopes <scopes>` with the account's own
/// configuration directory, and, for the bundled client, its id and secret.
pub open spec fn auth_invocation(
    config_dir: Seq<char>,
    bundled: bool,
    client_id: Seq<char>,
    client_secret: Seq<char>,
) -> (Seq<char>, Seq<Seq<char>>, Seq<(Seq<char>, Seq<char>)>) {
    let base_env = seq![("GOOGLE_WORKSPACE_CLI_CONFIG_DIR"@, config_dir)];
    (
        "gws"@,
        seq!["auth"@, "login"@, "--scopes"@, text::join(scope_list(), ","@)],
        if bundled {
            base_env + seq![
                ("GOOGLE_WORKSPACE_CLI_CLIENT_ID"@, client_id),
                ("GOOGLE_WORKSPACE_CLI_CLIENT_SECRET"@, client_secret),
            ]
        } else {
            base_env
        },
    )
}

/// The sign-in process (see [`auth_invocation`]).
pub fn auth_command(config_dir: &str, bundled: bool, client_id: &str, client_secret: &str) -> (inv: Invocation)
    ensures
        inv@ == auth_invocation(config_dir@, bundled, client_id@, client_secret@),
{
    let mut args: Vec<String> = Vec::new();
    args.push(String::from_str("auth"));
    args.push(String::from_str("login"));
    args.push(String::from_str("--scopes"));
    args.push(gwx_scopes());
    let mut env: Vec<(String, String)> = Vec::new();
    env.push((String::from_str("GOOGLE_WORKSPACE_CLI_CONFIG_DIR"), String::from_str(config_dir)));
    if bundled {
        env.push((String::from_str("GOOGLE_WORKSPACE_CLI_CLIENT_ID"), String::from_str(client_id)));
        env.push(
            (String::from_str("GOOGLE_WORKSPACE_CLI_CLIENT_SECRET"), String::from_str(client_secret)),
        );
    }
    let inv = Invocation { program: String::from_str("gws"), args, env };
    assert(text::views(inv.args@) =~= auth_invocation(config_dir@, bundled, client_id@, client_secret@).1);
    assert(env_view(inv.env@) =~= auth_invocation(config_dir@, bundled, client_id@, client_secret@).2);
    inv
}

/// The exit code of `gwx mail send`: always refused, with code 2. `gwx` never sends.
pub fn send_refused_code() -> (code: i32)
    ensures
        code == 2,
{
    2
}

/// Sign-in asks for the same scopes whichever client is used: the `--scopes`
/// argument is the comma-joined three scopes (mail read, mail compose, Drive read)
/// for the bundled client and the user's own alike, and never the send scope.
pub proof fn lemma_auth_scopes_fixed(
    config_dir: Seq<char>,
    id1: Seq<char>,
    secret1: Seq<char>,
    id2: Seq<char>,
    secret2: Seq<char>,
)
    ensures
        auth_invocation(config_dir, true, id1, secret1).1 == auth_invocation(config_dir, false, id2, secret2).1,
        auth_invocation(config_dir, true, id1, secret1).1.len() == 4,
        auth_invocation(config_dir, true, id1, secret1).1[3] == "https://www.googleapis.com/auth/gmail.readonly"@
            + ","@ + "https://www.googleapis.com/auth/gmail.compose"@ + ","@
            + "https://www.googleapis.com/auth/drive.readonly"@,
        auth_invocation(config_dir, false, id2, secret2).1[3] == "https://www.googleapis.com/auth/gmail.readonly"@
            + ","@ + "https://www.googleapis.com/auth/gmail.compose"@ + ","@
            + "https://www.googleapis.com/auth/drive.readonly"@,
{
    let l = scope_list();
    assert(l.drop_last().drop_last() =~= seq![l[0]]);
    assert(l.drop_last() =~= seq![l[0], l[1]]);
    assert(text::join(l.drop_last().drop_last(), ","@) == l[0]);
    assert(text::join(l.drop_last(), ","@) == l[0] + ","@ + l[1]);
}

/// The review gate: `work` and every identity named `leap…` are gated; an identity
/// that is neither `work` nor begins with `leap` is not.
pub proof fn lemma_review_gate(account: Seq<char>)
    ensures
        account == "work"@ ==> is_review_gated(account),
        config::starts_with(account, "leap"@) ==> is_review_gated(account),
        account != "work"@ && !config::starts_with(account, "leap"@) ==> !is_review_gated(account),
{
    assert(review_required_accounts()[0] == "work"@);
    if account != "work"@ {
        assert(!review_required_accounts().contains(account)) by {
            if review_required_accounts().contains(account) {
                let k = choose|k: int| 0 <= k < review_required_accounts().len() && review_required_accounts()[k] == account;
                assert(k == 0);
            }
        }
    }
}

} // verus!
