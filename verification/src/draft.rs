//! Gmail drafts: the RFC 822 message that a draft holds, and its base64url form
//! as the Gmail API takes it. Drafts are all the tool ever creates; it never sends.

use vstd::prelude::*;
use vstd::string::*;
use base64::Engine;
use crate::config;

verus! {

/// The URL-safe base64 alphabet (RFC 4648 §5): the symbol for a six-bit value.
pub open spec fn b64_symbol(v: int) -> char {
    if v < 26 {
        (65 + v) as char
    } else if v < 52 {
        (97 + (v - 26)) as char
    } else if v < 62 {
        (48 + (v - 52)) as char
    } else if v == 62 {
        '-'
    } else {
        '_'
    }
}

/// URL-safe base64 with `=` padding (RFC 4648 §5): each three bytes become four
/// symbols; a final one or two bytes become two or three symbols and padding.
pub open spec fn base64_url(b: Seq<u8>) -> Seq<char>
    decreases b.len(),
{
    if b.len() == 0 {
        seq![]
    } else if b.len() == 1 {
        let b0 = b[0] as int;
        seq![b64_symbol(b0 / 4), b64_symbol((b0 % 4) * 16), '=', '=']
    } else if b.len() == 2 {
        let b0 = b[0] as int;
        let b1 = b[1] as int;
        seq![b64_symbol(b0 / 4), b64_symbol((b0 % 4) * 16 + b1 / 16), b64_symbol((b1 % 16) * 4), '=']
    } else {
        let b0 = b[0] as int;
        let b1 = b[1] as int;
        let b2 = b[2] as int;
        seq![
            b64_symbol(b0 / 4),
            b64_symbol((b0 % 4) * 16 + b1 / 16),
            b64_symbol((b1 % 16) * 4 + b2 / 64),
            b64_symbol(b2 % 64),
        ] + base64_url(b.subrange(3, b.len() as int))
    }
}

/// `base64::engine::general_purpose::URL_SAFE.encode`: the RFC 4648 §5 encoding of
/// `bytes` in the URL-safe alphabet with `=` padding. The crate panics when the
/// encoded length does not fit in `usize`; `requires` leaves those inputs out.
#[verifier::external_body]
fn base64_url_encode(bytes: &[u8]) -> (s: String)
    requires
        (bytes@.len() + 2) / 3 * 4 <= usize::MAX,
    ensures
        s@ == base64_url(bytes@),
{
    base64::engine::general_purpose::URL_SAFE.encode(bytes)
}

/// The view of an optional string slice.
pub open spec fn opt_str_view(o: Option<&str>) -> Option<Seq<char>> {
    match o {
        Some(s) => Some(s@),
        None => None,
    }
}

/// The plain-text RFC 822 message of a draft: `To`, an optional `Cc`, `Subject`
/// and the content type as header lines ended by CRLF, a blank line, then the body.
pub open spec fn draft_message_spec(
    to: Seq<char>,
    subject: Seq<char>,
    body: Seq<char>,
    cc: Option<Seq<char>>,
) -> Seq<char> {
    "To: "@ + to + "\r\n"@ + match cc {
        Some(c) => "Cc: "@ + c + "\r\n"@,
        None => Seq::<char>::empty(),
    } + "Subject: "@ + subject + "\r\n"@ + "Content-Type: text/plain; charset=utf-8\r\n\r\n"@
        + body
}

/// The RFC 822 message of a draft to `to` (and `cc`, when given).
pub fn draft_message(to: &str, subject: &str, body: &str, cc: Option<&str>) -> (m: String)
    ensures
        m@ == draft_message_spec(to@, subject@, body@, opt_str_view(cc)),
{
    let mut m = String::new();
    m.append("To: ");
    m.append(to);
    m.append("\r\n");
    let ghost after_to = m@;
    match cc {
        Some(c) => {
            m.append("Cc: ");
            m.append(c);
            m.append("\r\n");
            assert(m@ == after_to + ("Cc: "@ + c@ + "\r\n"@));
        },
        None => {
            assert(m@ == after_to + Seq::<char>::empty());
        },
    }
    m.append("Subject: ");
    m.append(subject);
    m.append("\r\n");
    m.append("Content-Type: text/plain; charset=utf-8\r\n\r\n");
    m.append(body);
    m
}

/// The UTF-8 encoding of a draft's message fits the base64 encoder.
pub open spec fn draft_fits(
    to: Seq<char>,
    subject: Seq<char>,
    body: Seq<char>,
    cc: Option<Seq<char>>,
) -> bool {
    (vstd::utf8::encode_utf8(draft_message_spec(to, subject, body, cc)).len() + 2) / 3 * 4
        <= usize::MAX
}

/// The `raw` field of a Gmail draft: the draft's message, UTF-8 encoded, in URL-safe
/// base64. Only a draft payload is built; nothing is sent.
pub fn build_raw(to: &str, subject: &str, body: &str, cc: Option<&str>) -> (raw: String)
    requires
        draft_fits(to@, subject@, body@, opt_str_view(cc)),
    ensures
        raw@ == base64_url(
            vstd::utf8::encode_utf8(draft_message_spec(to@, subject@, body@, opt_str_view(cc))),
        ),
        vstd::utf8::decode_utf8(base64_url_decode(raw@)) == draft_message_spec(
            to@,
            subject@,
            body@,
            opt_str_view(cc),
        ),
        forall|i: int| 0 <= i < raw@.len() ==> #[trigger] raw@[i] != '+' && raw@[i] != '/',
{
    let m = draft_message(to, subject, body, cc);
    let bytes = m.as_str().as_bytes();
    proof {
        lemma_raw_roundtrip(to@, subject@, body@, opt_str_view(cc));
    }
    base64_url_encode(bytes)
}

/// The `--json` argument of `gws gmail users drafts create` for a draft whose raw
/// form is `raw`, quoted for the shell: `'{"message":{"raw":"<raw>"}}'`.
pub fn draft_create_json(raw: &str) -> (j: String)
    ensures
        j@ == "'{\"message\":{\"raw\":\""@ + raw@ + "\"}}'"@,
{
    let mut j = String::from_str("'{\"message\":{\"raw\":\"");
    j.append(raw);
    j.append("\"}}'");
    j
}

/// A character that URL-safe base64 with padding may hold.
pub open spec fn is_base64_url_char(c: char) -> bool {
    ||| ('A' <= c && c <= 'Z')
    ||| ('a' <= c && c <= 'z')
    ||| ('0' <= c && c <= '9')
    ||| c == '-'
    ||| c == '_'
    ||| c == '='
}

/// The six-bit value of a URL-safe base64 symbol.
pub open spec fn b64_value(c: char) -> int {
    if 'A' <= c && c <= 'Z' {
        c as int - 65
    } else if 'a' <= c && c <= 'z' {
        c as int - 97 + 26
    } else if '0' <= c && c <= '9' {
        c as int - 48 + 52
    } else if c == '-' {
        62
    } else {
        63
    }
}

/// Decoding of URL-safe base64 with `=` padding: each four symbols become three
/// bytes; a group padded with `==` or `=` gives one or two bytes and ends the input.
pub open spec fn base64_url_decode(s: Seq<char>) -> Seq<u8>
    decreases s.len(),
{
    if s.len() < 4 {
        seq![]
    } else {
        let v0 = b64_value(s[0]);
        let v1 = b64_value(s[1]);
        let v2 = b64_value(s[2]);
        let v3 = b64_value(s[3]);
        if s[2] == '=' {
            seq![(v0 * 4 + v1 / 16) as u8]
        } else if s[3] == '=' {
            seq![(v0 * 4 + v1 / 16) as u8, ((v1 % 16) * 16 + v2 / 4) as u8]
        } else {
            seq![(v0 * 4 + v1 / 16) as u8, ((v1 % 16) * 16 + v2 / 4) as u8, ((v2 % 4) * 64 + v3) as u8]
                + base64_url_decode(s.subrange(4, s.len() as int))
        }
    }
}

proof fn lemma_symbol(v: int)
    requires
        0 <= v < 64,
    ensures
        b64_value(b64_symbol(v)) == v,
        b64_symbol(v) != '=',
        is_base64_url_char(b64_symbol(v)),
{
}

/// Every character of a URL-safe base64 encoding is a URL-safe symbol or `=`; in
/// particular none is `+` or `/`. Its length is four per started group of three bytes.
pub proof fn lemma_base64_url_alphabet(b: Seq<u8>)
    ensures
        forall|i: int| 0 <= i < base64_url(b).len() ==> #[trigger] is_base64_url_char(base64_url(b)[i]),
        forall|i: int| 0 <= i < base64_url(b).len() ==> base64_url(b)[i] != '+' && #[trigger] base64_url(b)[i] != '/',
        base64_url(b).len() == (b.len() + 2) / 3 * 4,
    decreases b.len(),
{
    if b.len() == 0 {
    } else if b.len() == 1 {
        let b0 = b[0] as int;
        lemma_symbol(b0 / 4);
        lemma_symbol((b0 % 4) * 16);
    } else if b.len() == 2 {
        let b0 = b[0] as int;
        let b1 = b[1] as int;
        lemma_symbol(b0 / 4);
        lemma_symbol((b0 % 4) * 16 + b1 / 16);
        lemma_symbol((b1 % 16) * 4);
    } else {
        let b0 = b[0] as int;
        let b1 = b[1] as int;
        let b2 = b[2] as int;
        lemma_symbol(b0 / 4);
        lemma_symbol((b0 % 4) * 16 + b1 / 16);
        lemma_symbol((b1 % 16) * 4 + b2 / 64);
        lemma_symbol(b2 % 64);
        let rest = b.subrange(3, b.len() as int);
        lemma_base64_url_alphabet(rest);
        let head = seq![
            b64_symbol(b0 / 4),
            b64_symbol((b0 % 4) * 16 + b1 / 16),
            b64_symbol((b1 % 16) * 4 + b2 / 64),
            b64_symbol(b2 % 64),
        ];
        assert forall|i: int| 0 <= i < base64_url(b).len() implies #[trigger] is_base64_url_char(
            base64_url(b)[i],
        ) by {
            if i >= 4 {
                assert(base64_url(b)[i] == base64_url(rest)[i - 4]);
            }
        }
    }
}

/// Decoding a URL-safe base64 encoding gives the bytes back.
pub proof fn lemma_base64_url_roundtrip(b: Seq<u8>)
    ensures
        base64_url_decode(base64_url(b)) == b,
    decreases b.len(),
{
    let e = base64_url(b);
    if b.len() == 0 {
    } else if b.len() == 1 {
        let b0 = b[0] as int;
        lemma_symbol(b0 / 4);
        lemma_symbol((b0 % 4) * 16);
        assert(e[2] == '=');
        assert(base64_url_decode(e) == seq![b[0]]);
    } else if b.len() == 2 {
        let b0 = b[0] as int;
        let b1 = b[1] as int;
        lemma_symbol(b0 / 4);
        lemma_symbol((b0 % 4) * 16 + b1 / 16);
        lemma_symbol((b1 % 16) * 4);
        assert(e[3] == '=');
        assert(base64_url_decode(e) == seq![b[0], b[1]]);
    } else {
        let b0 = b[0] as int;
        let b1 = b[1] as int;
        let b2 = b[2] as int;
        lemma_symbol(b0 / 4);
        lemma_symbol((b0 % 4) * 16 + b1 / 16);
        lemma_symbol((b1 % 16) * 4 + b2 / 64);
        lemma_symbol(b2 % 64);
        let rest = b.subrange(3, b.len() as int);
        lemma_base64_url_roundtrip(rest);
        assert(e.subrange(4, e.len() as int) == base64_url(rest));
        assert(b == seq![b[0], b[1], b[2]] + rest);
    }
}

/// A draft's raw form decodes (base64url, then UTF-8) to exactly the draft's message,
/// and holds only URL-safe characters: no `+` and no `/`.
pub proof fn lemma_raw_roundtrip(to: Seq<char>, subject: Seq<char>, body: Seq<char>, cc: Option<Seq<char>>)
    ensures
        vstd::utf8::decode_utf8(base64_url_decode(base64_url(vstd::utf8::encode_utf8(draft_message_spec(to, subject, body, cc)))))
            == draft_message_spec(to, subject, body, cc),
        forall|i: int| 0 <= i < base64_url(vstd::utf8::encode_utf8(draft_message_spec(to, subject, body, cc))).len()
            ==> #[trigger] base64_url(vstd::utf8::encode_utf8(draft_message_spec(to, subject, body, cc)))[i] != '+'
                && base64_url(vstd::utf8::encode_utf8(draft_message_spec(to, subject, body, cc)))[i] != '/',
{
    let m = draft_message_spec(to, subject, body, cc);
    let bytes = vstd::utf8::encode_utf8(m);
    lemma_base64_url_roundtrip(bytes);
    lemma_base64_url_alphabet(bytes);
    vstd::utf8::encode_utf8_decode_utf8(m);
}

/// UTF-8 takes at most four bytes per character.
pub proof fn lemma_utf8_len(s: Seq<char>)
    ensures
        vstd::utf8::encode_utf8(s).len() <= 4 * s.len(),
    decreases s.len(),
{
    if s.len() > 0 {
        lemma_utf8_len(s.drop_first());
    }
}

/// Length of a draft's message in characters.
pub open spec fn draft_chars(to: Seq<char>, subject: Seq<char>, body: Seq<char>, cc: Option<Seq<char>>) -> int {
    to.len() + subject.len() + body.len() + match cc {
        Some(c) => c.len() as int,
        None => 0int,
    }
}

/// A draft whose fields hold at most an eighth of `usize::MAX` characters, less the
/// fixed headers, fits the base64 encoder.
pub proof fn lemma_draft_fits(to: Seq<char>, subject: Seq<char>, body: Seq<char>, cc: Option<Seq<char>>)
    requires
        draft_chars(to, subject, body, cc) + 66 <= usize::MAX / 8,
    ensures
        draft_fits(to, subject, body, cc),
{
    reveal_strlit("To: ");
    reveal_strlit("\r\n");
    reveal_strlit("Cc: ");
    reveal_strlit("Subject: ");
    reveal_strlit("Content-Type: text/plain; charset=utf-8\r\n\r\n");
    let m = draft_message_spec(to, subject, body, cc);
    assert(m.len() <= draft_chars(to, subject, body, cc) + 66);
    lemma_utf8_len(m);
    let n = vstd::utf8::encode_utf8(m).len();
    assert((n + 2) / 3 * 4 <= usize::MAX) by (nonlinear_arith)
        requires
            n <= 4 * (usize::MAX / 8),
    ;
}

/// The headers of a draft's message: `To`, `Cc` when given, `Subject`, the content
/// type, and the blank line that ends them.
pub open spec fn draft_headers(to: Seq<char>, subject: Seq<char>, cc: Option<Seq<char>>) -> Seq<char> {
    "To: "@ + to + "\r\n"@ + match cc {
        Some(c) => "Cc: "@ + c + "\r\n"@,
        None => Seq::<char>::empty(),
    } + "Subject: "@ + subject + "\r\n"@ + "Content-Type: text/plain; charset=utf-8\r\n\r\n"@
}

/// A draft's message is its headers followed by the whole body, untouched: it ends
/// with the body, everything before the body is the header block, and its length is
/// the headers' length plus the body's.
pub proof fn lemma_draft_keeps_body(to: Seq<char>, subject: Seq<char>, body: Seq<char>, cc: Option<Seq<char>>)
    ensures
        ({
            let m = draft_message_spec(to, subject, body, cc);
            let h = draft_headers(to, subject, cc);
            &&& m.len() == h.len() + body.len()
            &&& m.subrange(h.len() as int, m.len() as int) == body
            &&& m.subrange(0, h.len() as int) == h
            &&& config::ends_with(m, body)
        }),
{
    let m = draft_message_spec(to, subject, body, cc);
    let h = draft_headers(to, subject, cc);
    assert(m =~= h + body);
    assert(m.subrange(h.len() as int, m.len() as int) =~= body);
    assert(m.subrange(0, h.len() as int) =~= h);
}

} // verus!
