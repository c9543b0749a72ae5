use base64::{engine::general_purpose::URL_SAFE, Engine};
use gwx::draft::build_raw;
use gwx::links::extract_links;

#[test]
fn draft_raw_roundtrips() {
    let raw = build_raw("a@b.com", "Hello", "hi there", Some("c@d.com"));
    let bytes = URL_SAFE.decode(&raw).unwrap();
    let s = String::from_utf8(bytes).unwrap();
    assert!(s.contains("To: a@b.com"));
    assert!(s.contains("Cc: c@d.com"));
    assert!(s.contains("Subject: Hello"));
    assert!(s.contains("hi there"));
    // base64url: no '+' and no '/'
    assert!(!raw.contains('+') && !raw.contains('/'));
}

#[test]
fn links_extract_dedup_and_normalize() {
    let sample = "\
doc https://docs.google.com/document/d/1AbC_dEf-GhIjKlMnOp/edit?usp=sharing \
sheet https://docs.google.com/spreadsheets/d/2XyZ0123456789abcd/edit#gid=0 \
slides https://docs.google.com/presentation/d/3PpQqRrSsTtUu-vWxYz/edit \
drive https://drive.google.com/file/d/4FiLeIdAbCdEfGhIjK/view \
dup https://docs.google.com/document/d/1AbC_dEf-GhIjKlMnOp/edit";
    let r = extract_links(sample);
    let kinds: Vec<&str> = r.iter().map(|x| x.0.as_str()).collect();
    assert_eq!(r.len(), 4, "dedup doc → 4 unique");
    assert!(kinds.contains(&"document"));
    assert!(kinds.contains(&"spreadsheet")); // normalized from spreadsheets
    assert!(kinds.contains(&"presentation"));
    assert!(kinds.contains(&"drive"));
    assert!(r.iter().all(|x| x.1.len() >= 10)); // no bare-word false positives
}
