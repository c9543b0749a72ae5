use gwx::gws::{
    exit_code_for, gws_command, gws_exit_code, list_accounts, list_accounts_command, list_accounts_probe, probe_command,
    probe_outcome,
};
use gwx::policy::{
    account_config_dir, auth_command, auth_plan, gwx_client_id, gwx_scopes, review_required,
    send_refused_code, AuthPlan,
};

fn strs(v: &[&str]) -> Vec<String> {
    v.iter().map(|s| s.to_string()).collect()
}

#[test]
fn probe_commands_by_mode() {
    let r = probe_command(&Some("anchor".to_string()), "ls", 8);
    assert_eq!(r.program, "ssh");
    assert_eq!(r.args, strs(&["-o", "BatchMode=yes", "-o", "ConnectTimeout=8", "anchor", "ls"]));
    assert!(r.env.is_empty());
    let l = probe_command(&None, "ls -1", 8);
    assert_eq!(l.program, "sh");
    assert_eq!(l.args, strs(&["-c", "ls -1"]));
}

#[test]
fn probe_outcomes() {
    assert_eq!(probe_outcome(Ok((true, " /usr/bin/gws\n".into(), "warn".into()))), Ok("/usr/bin/gws".to_string()));
    assert_eq!(probe_outcome(Ok((false, "out".into(), "  denied \n".into()))), Err("denied".to_string()));
    assert_eq!(probe_outcome(Err(" no ssh ".into())), Err(" no ssh ".to_string()));
}

#[test]
fn account_listing() {
    assert_eq!(
        list_accounts_command("$HOME/.gwx/accounts"),
        "ls -1d $HOME/.gwx/accounts/*/ 2>/dev/null | sed 's#/*$##;s#.*/##'"
    );
    assert_eq!(list_accounts(&Ok("personal\nwork".to_string())), strs(&["personal", "work"]));
    assert!(list_accounts(&Ok("  \n ".to_string())).is_empty());
    assert!(list_accounts(&Err("boom".to_string())).is_empty());
    let p = list_accounts_probe(&None, "/c");
    assert_eq!(p.args, strs(&["-c", "ls -1d /c/*/ 2>/dev/null | sed 's#/*$##;s#.*/##'"]));
    let r = list_accounts_probe(&Some("h".into()), "/c");
    assert_eq!(r.args[3], "ConnectTimeout=8");
}

#[test]
fn gws_command_remote_and_local() {
    let args = strs(&["gmail", "+triage", "--max", "5"]);
    let r = gws_command(&Some("anchor".into()), "$HOME/gwx-creds", "$HOME/.gwx/accounts", Some("/home/u".into()), "work", &args);
    assert_eq!(r.program, "ssh");
    assert_eq!(
        r.args,
        strs(&[
            "-o",
            "BatchMode=yes",
            "anchor",
            "GOOGLE_WORKSPACE_CLI_CREDENTIALS_FILE=$HOME/gwx-creds/work.json GOOGLE_WORKSPACE_CLI_CONFIG_DIR=$HOME/.gwx/accounts/work GOOGLE_WORKSPACE_CLI_KEYRING_BACKEND=file gws gmail +triage --max 5",
        ])
    );
    assert!(r.env.is_empty());
    let l = gws_command(&None, "$HOME/gwx-creds", "$HOME/.gwx/accounts", Some("/home/u".into()), "personal", &args);
    assert_eq!(l.program, "sh");
    assert_eq!(l.args, strs(&["-c", "gws gmail +triage --max 5"]));
    assert_eq!(
        l.env,
        vec![("GOOGLE_WORKSPACE_CLI_CONFIG_DIR".to_string(), "/home/u/.gwx/accounts/personal".to_string())]
    );
}

#[test]
fn exit_codes_and_error_envelopes() {
    assert_eq!(gws_exit_code(Some(0), "{\"error\":{\"code\":401}}"), 2);
    assert_eq!(gws_exit_code(Some(0), "  \n{ \"error\" : {}}"), 2);
    assert_eq!(gws_exit_code(Some(0), "\u{3000}{\u{a0}\"error\"\u{2003}:1}"), 2);
    assert_eq!(gws_exit_code(Some(0), "{\"errors\":1}"), 0);
    assert_eq!(gws_exit_code(Some(0), "{ \"error\" 1}"), 0);
    assert_eq!(gws_exit_code(Some(0), "{\"messages\":[]}"), 0);
    assert_eq!(gws_exit_code(Some(0), "x {\"error\":1}"), 0);
    assert_eq!(gws_exit_code(Some(3), "{\"error\":{}}"), 3);
    assert_eq!(gws_exit_code(None, ""), 1);
    assert_eq!(exit_code_for(Some(0), true), 2);
    assert_eq!(exit_code_for(Some(0), false), 0);
    assert_eq!(exit_code_for(Some(7), true), 7);
    assert_eq!(exit_code_for(None, false), 1);
}

#[test]
fn review_gate_and_scopes() {
    assert!(review_required("work"));
    assert!(review_required("leapdesign"));
    assert!(review_required("leapcore"));
    assert!(!review_required("lea"));
    assert!(!review_required("personal"));
    assert!(!review_required("Work"));
    assert_eq!(
        gwx_scopes(),
        "https://www.googleapis.com/auth/gmail.readonly,https://www.googleapis.com/auth/gmail.compose,https://www.googleapis.com/auth/drive.readonly"
    );
    assert!(!gwx_scopes().contains("gmail.send"));
    assert_eq!(send_refused_code(), 2);
}

#[test]
fn sign_in_plans() {
    let id = gwx_client_id();
    assert_eq!(auth_plan(true, true, &id), AuthPlan::RemoteMode);
    assert_eq!(auth_plan(false, true, &id), AuthPlan::OwnClient);
    assert_eq!(auth_plan(false, false, &id), AuthPlan::BundledClient);
    assert_eq!(auth_plan(false, false, "REPLACE_WITH_GWX_OAUTH_CLIENT_ID"), AuthPlan::NotConfigured);
    let dir = account_config_dir("$HOME/.gwx/accounts", "me", Some("/h".into()));
    assert_eq!(dir, "/h/.gwx/accounts/me");
    let own = auth_command(&dir, false, &id, "s3");
    assert_eq!(own.program, "gws");
    assert_eq!(own.args, strs(&["auth", "login", "--scopes", &gwx_scopes()]));
    assert_eq!(own.env, vec![("GOOGLE_WORKSPACE_CLI_CONFIG_DIR".to_string(), dir.clone())]);
    let bundled = auth_command(&dir, true, &id, "s3");
    assert_eq!(bundled.env.len(), 3);
    assert_eq!(bundled.env[1], ("GOOGLE_WORKSPACE_CLI_CLIENT_ID".to_string(), id.clone()));
    assert_eq!(bundled.env[2], ("GOOGLE_WORKSPACE_CLI_CLIENT_SECRET".to_string(), "s3".to_string()));
}

#[test]
fn accounts_never_share_a_config_dir() {
    let args = strs(&["drive", "files", "list"]);
    let home = Some("/home/u".to_string());
    let a = gws_command(&None, "c", "$HOME/.gwx/accounts", home.clone(), "personal", &args);
    let b = gws_command(&None, "c", "$HOME/.gwx/accounts", home.clone(), "work", &args);
    assert_ne!(a.env[0].1, b.env[0].1);
    assert_eq!(b.env[0].1, "/home/u/.gwx/accounts/work");
    let short = gws_command(&None, "c", "$HO", home, "ME", &args);
    assert_eq!(short.env[0].1, "$HO/ME");
}
