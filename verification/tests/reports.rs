use gwx::policy::AuthPlan;
use gwx::report::{
    accounts_listing, auth_outcome, auth_refusal, doctor_accounts, doctor_gws, doctor_probe_command,
    draft_done_notice, gws_outcome, link_heading, onboarding, resolve_exit_code, resolve_plan,
    send_refusal, stdin_failure, welcome,
};

fn strs(v: &[&str]) -> Vec<String> {
    v.iter().map(|s| s.to_string()).collect()
}

#[test]
fn onboarding_by_mode() {
    let local = onboarding(false, "$HOME/.gwx/accounts");
    assert_eq!(local.len(), 3);
    assert_eq!(local[1], "    gwx auth <name>          e.g.  gwx auth personal");
    let remote = onboarding(true, "/cfg");
    assert_eq!(remote.len(), 5);
    assert_eq!(remote[2], "    GOOGLE_WORKSPACE_CLI_CONFIG_DIR=/cfg/<name> \\");
    assert!(remote[3].starts_with("      gws auth login --scopes https://www.googleapis.com/auth/gmail.readonly,"));
}

#[test]
fn doctor_steps() {
    let (l, stop) = doctor_gws(&None, &Ok("/usr/bin/gws".into()));
    assert_eq!(l, strs(&["✅ gws found on this machine: /usr/bin/gws"]));
    assert_eq!(stop, None);
    let (l, stop) = doctor_gws(&None, &Ok("__MISSING__".into()));
    assert_eq!(l[0], "❌ gws is not installed on this machine.");
    assert_eq!(stop, Some(1));
    let (l, stop) = doctor_gws(&Some("anchor".into()), &Ok("".into()));
    assert_eq!(l[0], "❌ gws is not installed on the host.");
    assert_eq!(stop, None);
    let (l, stop) = doctor_gws(&Some("anchor".into()), &Err("timeout".into()));
    assert_eq!(l[0], "❌ can't reach host 'anchor': timeout");
    assert_eq!(stop, Some(1));
    let (l, stop) = doctor_gws(&None, &Err("sh: not found".into()));
    assert_eq!(l, strs(&["❌ couldn't check for gws on this machine: sh: not found"]));
    assert!(l.iter().all(|x| !x.contains("host")));
    assert_eq!(stop, Some(1));
    let accts = strs(&["personal", "work"]);
    let d = doctor_accounts(&accts, false, "/c");
    assert_eq!(d.code, 0);
    assert_eq!(
        d.out,
        strs(&["✅ Accounts: personal, work", "\nReady 🎉  Try:  gwx mail --as personal list 5"])
    );
    let none = doctor_accounts(&Vec::new(), false, "/c");
    assert_eq!(none.out[0], "⚠️  No accounts set up yet.\n");
    assert_eq!(none.out.len(), 4);
    assert_eq!((none.code, none.err.len()), (0, 0));
    let p = doctor_probe_command(&Some("h".into()));
    assert_eq!(p.args, strs(&["-o", "BatchMode=yes", "-o", "ConnectTimeout=8", "h", "command -v gws || echo __MISSING__"]));
}

#[test]
fn welcome_and_listing() {
    let w = welcome(&strs(&["me"]), false, "/c");
    assert_eq!(w.code, 0);
    assert_eq!(w.out[3], "  gwx mail  --as me list 5");
    assert!(w.err.is_empty());
    let w = welcome(&Vec::new(), true, "/c");
    assert_eq!(w.code, 1);
    assert_eq!(w.out.len(), 2 + 5 + 1);
    let empty = accounts_listing(&Vec::new());
    assert_eq!((empty.code, empty.out), (0, strs(&["No accounts yet. Add one:  gwx auth <name>"])));
    assert_eq!(accounts_listing(&strs(&["a", "b"])).out, strs(&["a", "b"]));
}

#[test]
fn draft_notices_gate_work_identities() {
    assert!(draft_done_notice("work", 0).unwrap().starts_with("🔴 REVIEW REQUIRED（work"));
    assert!(draft_done_notice("leapdesign", 0).unwrap().starts_with("🔴 REVIEW REQUIRED（leapdesign"));
    assert_eq!(draft_done_notice("personal", 0).unwrap(), "✅ 草稿已建於 Gmail 草稿匣（未寄出）。");
    assert_eq!(draft_done_notice("work", 1), None);
    let s = send_refusal();
    assert_eq!(s.code, 2);
    assert!(s.out.is_empty());
    assert_eq!(s.err.len(), 1);
}

#[test]
fn sign_in_outcomes_and_headings() {
    let ok = auth_outcome("me", Ok((true, Some(0))));
    assert_eq!((ok.code, ok.out.len(), ok.err.len()), (0, 1, 0));
    assert_eq!(ok.out[0], "\n✅ 'me' authorized.  Try:  gwx mail --as me list 5");
    assert_eq!(auth_outcome("me", Ok((false, Some(5)))).code, 5);
    assert_eq!(auth_outcome("me", Ok((false, None))).code, 1);
    let e = auth_outcome("me", Err("not found".into()));
    assert_eq!(e.code, 1);
    assert_eq!(e.err, strs(&["couldn't run gws (is it installed? `gwx doctor`): not found"]));
    assert_eq!(link_heading("document", "ID", "URL"), "── [document] ID  (URL)");
}

#[test]
fn gws_run_outcomes() {
    let spawn = gws_outcome(Err("No such file".into()));
    assert_eq!((spawn.code, spawn.out.len()), (1, 0));
    assert_eq!(spawn.err, strs(&["failed to run gws: No such file"]));
    let env = gws_outcome(Ok((Some(0), "{\"error\":{\"code\":401}}".into())));
    assert_eq!(env.code, 2);
    assert_eq!(env.err, strs(&["gwx: gws returned an error envelope with exit 0 — treating as failure."]));
    let fine = gws_outcome(Ok((Some(0), "{\"files\":[]}".into())));
    assert_eq!((fine.code, fine.err.len()), (0, 0));
    let failed = gws_outcome(Ok((Some(4), "{\"error\":{}}".into())));
    assert_eq!((failed.code, failed.err.len()), (4, 0));
    assert_eq!(gws_outcome(Ok((None, String::new()))).code, 1);
}

#[test]
fn sign_in_refusals() {
    let r = auth_refusal(AuthPlan::RemoteMode, "/c").unwrap();
    assert_eq!(r.code, 1);
    assert_eq!(r.out, onboarding(true, "/c"));
    assert_eq!(r.err.len(), 1);
    let n = auth_refusal(AuthPlan::NotConfigured, "/c").unwrap();
    assert_eq!((n.code, n.out.len(), n.err.len()), (1, 0, 1));
    assert!(auth_refusal(AuthPlan::OwnClient, "/c").is_none());
    assert!(auth_refusal(AuthPlan::BundledClient, "/c").is_none());
}

#[test]
fn resolve_steps_and_codes() {
    let found = vec![
        ("document".to_string(), "ID1".to_string(), "U1".to_string()),
        ("drive".to_string(), "ID2".to_string(), "U2".to_string()),
    ];
    let (notices, steps) = resolve_plan(&found);
    assert!(notices.is_empty());
    assert_eq!(steps.len(), 2);
    assert_eq!(steps[1].0, "── [drive] ID2  (U2)");
    assert_eq!(steps[1].1[4], "'{\"fileId\":\"ID2\",\"mimeType\":\"text/plain\"}'");
    let (notices, steps) = resolve_plan(&Vec::new());
    assert_eq!(notices, strs(&["(未在文字中找到 Google Doc/Sheet/Slide/Drive 連結)"]));
    assert!(steps.is_empty());
    assert_eq!(resolve_exit_code(&vec![]), 0);
    assert_eq!(resolve_exit_code(&vec![2, 0]), 0);
    assert_eq!(resolve_exit_code(&vec![0, 3]), 3);
    let s = stdin_failure();
    assert_eq!((s.code, s.err.clone()), (1, strs(&["讀 stdin 失敗"])));
}
