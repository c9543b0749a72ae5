use base64::{engine::general_purpose::URL_SAFE, Engine};
use gwx::commands::{doc_export_args, drive_ls_args, mail_draft_args, mail_list_args, mail_read_args};
use gwx::draft::{build_raw, draft_create_json, draft_message};
use gwx::links::{collect_links, extract_links, file_id_of};

#[test]
fn draft_message_layout() {
    assert_eq!(
        draft_message("a@b.com", "Hi", "body", None),
        "To: a@b.com\r\nSubject: Hi\r\nContent-Type: text/plain; charset=utf-8\r\n\r\nbody"
    );
    assert_eq!(
        draft_message("a@b.com", "Hi", "", Some("c@d.com")),
        "To: a@b.com\r\nCc: c@d.com\r\nSubject: Hi\r\nContent-Type: text/plain; charset=utf-8\r\n\r\n"
    );
}

#[test]
fn build_raw_is_url_safe_base64_of_the_message() {
    let raw = build_raw("x@y.z", "Ünïcode ✓", "line1\r\nline2 ~~~???", None);
    let m = draft_message("x@y.z", "Ünïcode ✓", "line1\r\nline2 ~~~???", None);
    assert_eq!(raw, URL_SAFE.encode(m.as_bytes()));
    assert_ne!(raw, m);
    assert_eq!(String::from_utf8(URL_SAFE.decode(&raw).unwrap()).unwrap(), m);
    assert!(raw.chars().all(|c| c.is_ascii_alphanumeric() || c == '-' || c == '_' || c == '='));
    assert_eq!(raw.len(), (m.len() + 2) / 3 * 4);
}

#[test]
fn build_raw_known_value() {
    // "To: a\r\nSubject: b\r\nContent-Type: text/plain; charset=utf-8\r\n\r\n?>"
    let raw = build_raw("a", "b", "?>", None);
    assert_eq!(
        raw,
        "VG86IGENClN1YmplY3Q6IGINCkNvbnRlbnQtVHlwZTogdGV4dC9wbGFpbjsgY2hhcnNldD11dGYtOA0KDQo_Pg=="
    );
}

#[test]
fn command_arguments() {
    assert_eq!(mail_list_args(10), vec!["gmail", "+triage", "--max", "10"]);
    assert_eq!(mail_read_args("abc"), vec!["gmail", "+read", "--id", "abc"]);
    assert_eq!(draft_create_json("UkFX"), "'{\"message\":{\"raw\":\"UkFX\"}}'");
    assert_eq!(
        mail_draft_args("UkFX"),
        vec!["gmail", "users", "drafts", "create", "--json", "'{\"message\":{\"raw\":\"UkFX\"}}'"]
    );
    assert_eq!(
        drive_ls_args("name contains 'x'"),
        vec!["drive", "files", "list", "--params", "'{\"q\":\"name contains 'x'\",\"pageSize\":20}'"]
    );
    assert_eq!(
        doc_export_args("FILE1234567"),
        vec!["drive", "files", "export", "--params", "'{\"fileId\":\"FILE1234567\",\"mimeType\":\"text/plain\"}'"]
    );
}

#[test]
fn links_kinds_order_and_id_links() {
    let text = "see https://docs.google.com/forms/d/FORM_ID_123456/viewform and \
https://drive.google.com/open?id=OPENID_abcdef12 and again \
https://docs.google.com/forms/d/FORM_ID_123456/edit plus https://docs.google.com/document/d/short/edit";
    let r = extract_links(text);
    assert_eq!(r.len(), 2);
    assert_eq!(r[0].0, "form");
    assert_eq!(r[0].1, "FORM_ID_123456");
    assert_eq!(r[0].2, "https://docs.google.com/forms/d/FORM_ID_123456");
    assert_eq!(r[1].0, "drive");
    assert_eq!(r[1].1, "OPENID_abcdef12");
    assert_eq!(r[1].2, "https://drive.google.com/open?id=OPENID_abcdef12");
    for (_, _, url) in &r {
        assert!(text.contains(url.as_str()));
    }
    assert!(extract_links("no links here").is_empty());
}

#[test]
fn links_same_id_in_drive_forms_kept_once() {
    let text = "https://drive.google.com/file/d/SAMEID_7890123/view \
https://drive.google.com/uc?export=download&id=SAMEID_7890123";
    let r = extract_links(text);
    assert_eq!(r.len(), 1);
    assert_eq!(r[0].2, "https://drive.google.com/file/d/SAMEID_7890123");
}

#[test]
fn collect_links_from_given_matches() {
    let s = |x: &str| Some(x.to_string());
    let docs = vec![
        vec![s("U1"), s("spreadsheets"), s("ID1")],
        vec![s("U2"), s("presentation"), s("ID2")],
        vec![s("U3"), s("other"), s("ID1")],
    ];
    let files = vec![vec![s("U4"), s("ID3")], vec![s("U5"), None]];
    let by_id = vec![vec![s("U6"), s("ID2")], vec![s("U7"), s("ID4")]];
    let r = collect_links(&docs, &files, &by_id);
    let want: Vec<(String, String, String)> = vec![
        ("spreadsheet".into(), "ID1".into(), "U1".into()),
        ("presentation".into(), "ID2".into(), "U2".into()),
        ("drive".into(), "ID3".into(), "U4".into()),
        ("drive".into(), "ID4".into(), "U7".into()),
    ];
    assert_eq!(r, want);
}

#[test]
fn links_have_file_ids_and_http_urls() {
    let text = "a https://docs.google.com/document/d/123456789/edit (nine) \
b http://docs.google.com/spreadsheets/d/ABCDEFGHIJ_-/x \
c https://drive.google.com/open?usp=x&id=ZZZZZZZZZZZZ";
    let r = extract_links(text);
    assert_eq!(r.len(), 2);
    assert_eq!(r[0], ("spreadsheet".to_string(), "ABCDEFGHIJ_-".to_string(), "http://docs.google.com/spreadsheets/d/ABCDEFGHIJ_-".to_string()));
    assert_eq!(r[1].1, "ZZZZZZZZZZZZ");
    for (_, id, url) in &r {
        assert!(id.len() >= 10 && id.chars().all(|c| c.is_ascii_alphanumeric() || c == '_' || c == '-'));
        assert!(url.ends_with(id.as_str()));
        assert!(url.starts_with("http://") || url.starts_with("https://"));
    }
}

#[test]
fn doc_get_takes_an_id_or_a_link() {
    assert_eq!(file_id_of("1AbC_dEf-GhIjKlMnOp"), "1AbC_dEf-GhIjKlMnOp");
    assert_eq!(file_id_of("https://docs.google.com/document/d/1AbC_dEf-GhIjKlMnOp/edit"), "1AbC_dEf-GhIjKlMnOp");
    assert_eq!(file_id_of("https://drive.google.com/file/d/4FiLeIdAbCdEfGhIjK/view"), "4FiLeIdAbCdEfGhIjK");
}
