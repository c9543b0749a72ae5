//! Pulling Google file links out of text (usually a mail body), so that each linked
//! Doc, Sheet, Slide deck, Form or Drive file can be exported in turn.

use vstd::prelude::*;
use vstd::string::*;
use crate::config;
use crate::text;
use crate::text::str_eq;

verus! {

/// What a regex search of `text` for `pattern` finds: `None` when the pattern does not
/// compile, else one entry per match, left to right and not overlapping, each listing
/// its groups (group 0 being the whole match; `None` for a group that took no part).
pub uninterp spec fn regex_captures(pattern: Seq<char>, text: Seq<char>) -> Option<
    Seq<Seq<Option<Seq<char>>>>,
>;

/// `t` holds `s` as a contiguous piece.
pub open spec fn is_substring(s: Seq<char>, t: Seq<char>) -> bool {
    exists|i: int, j: int| 0 <= i <= j <= t.len() && t.subrange(i, j) == s
}

/// The view of one match's groups.
pub open spec fn groups_view(g: Seq<Option<String>>) -> Seq<Option<Seq<char>>> {
    g.map_values(|o: Option<String>| config::opt_view(o))
}

/// The view of a list of matches.
pub open spec fn captures_view(c: Seq<Vec<Option<String>>>) -> Seq<Seq<Option<Seq<char>>>> {
    c.map_values(|g: Vec<Option<String>>| groups_view(g@))
}

/// A character that a file id may hold: `[A-Za-z0-9_-]`.
pub open spec fn is_id_char(c: char) -> bool {
    ||| ('A' <= c && c <= 'Z')
    ||| ('a' <= c && c <= 'z')
    ||| ('0' <= c && c <= '9')
    ||| c == '_'
    ||| c == '-'
}

/// A file id: ten or more id characters.
pub open spec fn is_file_id(s: Seq<char>) -> bool {
    s.len() >= 10 && forall|i: int| 0 <= i < s.len() ==> is_id_char(#[trigger] s[i])
}

/// A url with the `http` or `https` scheme.
pub open spec fn is_http(url: Seq<char>) -> bool {
    config::starts_with(url, "http://"@) || config::starts_with(url, "https://"@)
}

/// What a match of the Docs pattern is: its three groups; the kind segment; a file id;
/// the whole match being the scheme, `docs.google.com/`, the segment, `/d/` and the id.
pub open spec fn docs_match_shape(c: Seq<Option<Seq<char>>>) -> bool {
    &&& c.len() == 3
    &&& c[0] is Some
    &&& c[1] is Some
    &&& c[2] is Some
    &&& (c[1]->0 == "document"@ || c[1]->0 == "spreadsheets"@ || c[1]->0 == "presentation"@
        || c[1]->0 == "forms"@)
    &&& is_file_id(c[2]->0)
    &&& (c[0]->0 == "http://"@ + ("docs.google.com/"@ + c[1]->0 + "/d/"@ + c[2]->0)
        || c[0]->0 == "https://"@ + ("docs.google.com/"@ + c[1]->0 + "/d/"@ + c[2]->0))
}

/// What a match of the Drive file pattern is: its two groups; a file id; the whole
/// match being the scheme, `drive.google.com/file/d/` and the id.
pub open spec fn drive_file_match_shape(c: Seq<Option<Seq<char>>>) -> bool {
    &&& c.len() == 2
    &&& c[0] is Some
    &&& c[1] is Some
    &&& is_file_id(c[1]->0)
    &&& (c[0]->0 == "http://"@ + ("drive.google.com/file/d/"@ + c[1]->0)
        || c[0]->0 == "https://"@ + ("drive.google.com/file/d/"@ + c[1]->0))
}

/// What a match of the Drive `id=` pattern is: its two groups; a file id; the whole
/// match beginning with the scheme and `drive.google.com/`, holding no white space,
/// and ending with `?id=` or `&id=` and the id.
pub open spec fn drive_id_match_shape(c: Seq<Option<Seq<char>>>) -> bool {
    &&& c.len() == 2
    &&& c[0] is Some
    &&& c[1] is Some
    &&& is_file_id(c[1]->0)
    &&& ((config::starts_with(c[0]->0, "http://"@) && config::starts_with(c[0]->0.skip(7), "drive.google.com/"@))
        || (config::starts_with(c[0]->0, "https://"@) && config::starts_with(c[0]->0.skip(8), "drive.google.com/"@)))
    &&& (config::ends_with(c[0]->0, "?id="@ + c[1]->0) || config::ends_with(c[0]->0, "&id="@ + c[1]->0))
    &&& forall|i: int| 0 <= i < c[0]->0.len() ==> !text::is_white_space(#[trigger] c[0]->0[i])
}

/// `regex::Regex::new(pattern)` and then `captures_iter(text)`, each match turned into
/// the list of its groups (`Captures::iter`, each present group by `Match::as_str`).
/// `None` when the pattern does not compile. Besides naming the result, it states what
/// the crate documents of every group that took part in a match: it is the substring
/// of `text` that the group matched. For the three link patterns it states the shape
/// of every match that the regex syntax gives them (a match has one entry per group,
/// every group of these patterns takes part, `{10,}` means ten or more, `\s` the
/// Unicode white space); where in the text the matches fall is left to the name.
#[verifier::external_body]
fn find_captures(pattern: &str, text: &str) -> (r: Option<Vec<Vec<Option<String>>>>)
    ensures
        regex_captures(pattern@, text@) == match r {
            Some(c) => Some(captures_view(c@)),
            None => None,
        },
        r matches Some(c) ==> forall|k: int, g: int|
            0 <= k < c@.len() && 0 <= g < c@[k]@.len() && (#[trigger] c@[k]@[g]) is Some
                ==> is_substring(c@[k]@[g]->0@, text@),
        pattern@ == docs_pattern() ==> (r matches Some(c) ==> forall|k: int|
            0 <= k < c@.len() ==> docs_match_shape(groups_view((#[trigger] c@[k])@))),
        pattern@ == drive_file_pattern() ==> (r matches Some(c) ==> forall|k: int|
            0 <= k < c@.len() ==> drive_file_match_shape(groups_view((#[trigger] c@[k])@))),
        pattern@ == drive_id_pattern() ==> (r matches Some(c) ==> forall|k: int|
            0 <= k < c@.len() ==> drive_id_match_shape(groups_view((#[trigger] c@[k])@))),
{
    let re = match regex::Regex::new(pattern) {
        Ok(re) => re,
        Err(_) => return None,
    };
    let mut out = Vec::new();
    for caps in re.captures_iter(text) {
        let mut groups = Vec::new();
        for m in caps.iter() {
            groups.push(match m { Some(m) => Some(m.as_str().to_string()), None => None });
        }
        out.push(groups);
    }
    Some(out)
}

/// A link as (kind, file id, url).
pub type LinkView = (Seq<char>, Seq<char>, Seq<char>);

/// The view of a link.
pub open spec fn link_view(l: (String, String, String)) -> LinkView {
    (l.0@, l.1@, l.2@)
}

/// The views of a list of links.
pub open spec fn link_views(s: Seq<(String, String, String)>) -> Seq<LinkView> {
    s.map_values(|l: (String, String, String)| link_view(l))
}

/// The kind of file that a `docs.google.com` path segment names.
pub open spec fn kind_of(segment: Seq<char>) -> Seq<char> {
    if segment == "spreadsheets"@ {
        "spreadsheet"@
    } else if segment == "presentation"@ {
        "presentation"@
    } else if segment == "forms"@ {
        "form"@
    } else {
        "document"@
    }
}

/// The link that a match of the Docs pattern stands for: the kind from group 1, the
/// id from group 2, the url from group 0.
pub open spec fn doc_link(cap: Seq<Option<Seq<char>>>) -> Option<LinkView> {
    if cap.len() >= 3 && cap[0] is Some && cap[1] is Some && cap[2] is Some {
        Some((kind_of(cap[1]->0), cap[2]->0, cap[0]->0))
    } else {
        None
    }
}

/// The link that a match of a Drive pattern stands for: the id from group 1, the url
/// from group 0, the kind `drive`.
pub open spec fn drive_link(cap: Seq<Option<Seq<char>>>) -> Option<LinkView> {
    if cap.len() >= 2 && cap[0] is Some && cap[1] is Some {
        Some(("drive"@, cap[1]->0, cap[0]->0))
    } else {
        None
    }
}

/// The links of a list of matches, in order; `drive` picks the Drive reading.
pub open spec fn links_of(caps: Seq<Seq<Option<Seq<char>>>>, drive: bool) -> Seq<LinkView>
    decreases caps.len(),
{
    if caps.len() == 0 {
        seq![]
    } else {
        let prev = links_of(caps.drop_last(), drive);
        let l = if drive { drive_link(caps.last()) } else { doc_link(caps.last()) };
        match l {
            Some(l) => prev.push(l),
            None => prev,
        }
    }
}

/// The ids of a list of links.
pub open spec fn ids(s: Seq<LinkView>) -> Seq<Seq<char>> {
    s.map_values(|l: LinkView| l.1)
}

/// `kept` with `l` added at the end unless a link with the same id is there already.
pub open spec fn keep_new(kept: Seq<LinkView>, l: LinkView) -> Seq<LinkView> {
    if ids(kept).contains(l.1) {
        kept
    } else {
        kept.push(l)
    }
}

/// Going through `s` in order from `kept`, each link whose id has not been seen is kept.
pub open spec fn dedup_from(kept: Seq<LinkView>, s: Seq<LinkView>) -> Seq<LinkView>
    decreases s.len(),
{
    if s.len() == 0 {
        kept
    } else {
        keep_new(dedup_from(kept, s.drop_last()), s.last())
    }
}

/// The first link for each id, in the order they come.
pub open spec fn dedup_by_id(s: Seq<LinkView>) -> Seq<LinkView> {
    dedup_from(seq![], s)
}

/// Every link that the three searches yield, Docs first, then Drive files, then Drive
/// `id=` links, with each id kept once, at its first occurrence.
pub open spec fn links_from_captures(
    docs: Seq<Seq<Option<Seq<char>>>>,
    files: Seq<Seq<Option<Seq<char>>>>,
    by_id: Seq<Seq<Option<Seq<char>>>>,
) -> Seq<LinkView> {
    dedup_by_id(links_of(docs, false) + links_of(files, true) + links_of(by_id, true))
}

proof fn lemma_dedup_concat(kept: Seq<LinkView>, a: Seq<LinkView>, b: Seq<LinkView>)
    ensures
        dedup_from(kept, a + b) == dedup_from(dedup_from(kept, a), b),
    decreases b.len(),
{
    if b.len() == 0 {
        assert(a + b == a);
    } else {
        assert((a + b).drop_last() == a + b.drop_last());
        lemma_dedup_concat(kept, a, b.drop_last());
    }
}

fn kind_string(segment: &String) -> (k: String)
    ensures
        k@ == kind_of(segment@),
{
    if str_eq(segment.as_str(), "spreadsheets") {
        String::from_str("spreadsheet")
    } else if str_eq(segment.as_str(), "presentation") {
        String::from_str("presentation")
    } else if str_eq(segment.as_str(), "forms") {
        String::from_str("form")
    } else {
        String::from_str("document")
    }
}

fn has_id(out: &Vec<(String, String, String)>, id: &String) -> (b: bool)
    ensures
        b == ids(link_views(out@)).contains(id@),
{
    for i in 0..out.len()
        invariant
            forall|j: int| 0 <= j < i ==> out@[j].1@ != id@,
    {
        if out[i].1 == *id {
            assert(ids(link_views(out@))[i as int] == id@);
            return true;
        }
    }
    assert forall|j: int| 0 <= j < ids(link_views(out@)).len() implies ids(link_views(out@))[j] != id@ by {
        assert(ids(link_views(out@))[j] == out@[j].1@);
    }
    false
}

fn add_link(out: &mut Vec<(String, String, String)>, l: (String, String, String))
    ensures
        link_views(final(out)@) == keep_new(link_views(old(out)@), link_view(l)),
{
    if !has_id(out, &l.1) {
        out.push(l);
        assert(link_views(out@) == link_views(old(out)@).push(link_view(l)));
    }
}

fn group(cap: &Vec<Option<String>>, g: usize) -> (r: Option<String>)
    ensures
        config::opt_view(r) == if g < cap@.len() { config::opt_view(cap@[g as int]) } else { None },
{
    if g < cap.len() {
        match &cap[g] {
            Some(s) => Some(s.clone()),
            None => None,
        }
    } else {
        None
    }
}

fn link_of(cap: &Vec<Option<String>>, drive: bool) -> (r: Option<(String, String, String)>)
    ensures
        match r {
            Some(l) => (if drive { drive_link(groups_view(cap@)) } else { doc_link(groups_view(cap@)) })
                == Some(link_view(l)),
            None => (if drive { drive_link(groups_view(cap@)) } else { doc_link(groups_view(cap@)) })
                is None,
        },
{
    let whole = group(cap, 0);
    let first = group(cap, 1);
    if drive {
        match (whole, first) {
            (Some(url), Some(id)) => Some((String::from_str("drive"), id, url)),
            _ => None,
        }
    } else {
        let second = group(cap, 2);
        match (whole, first, second) {
            (Some(url), Some(seg), Some(id)) => Some((kind_string(&seg), id, url)),
            _ => None,
        }
    }
}

fn add_matches(out: &mut Vec<(String, String, String)>, caps: &Vec<Vec<Option<String>>>, drive: bool)
    ensures
        link_views(final(out)@) == dedup_from(
            link_views(old(out)@),
            links_of(captures_view(caps@), drive),
        ),
{
    let ghost start = link_views(out@);
    let ghost cv = captures_view(caps@);
    for i in 0..caps.len()
        invariant
            cv == captures_view(caps@),
            link_views(out@) == dedup_from(start, links_of(cv.take(i as int), drive)),
    {
        assert(cv.take(i + 1).drop_last() == cv.take(i as int));
        assert(cv.take(i + 1).last() == groups_view(caps@[i as int]@));
        let l = link_of(&caps[i], drive);
        match l {
            Some(l) => {
                let ghost prev = links_of(cv.take(i as int), drive);
                assert(links_of(cv.take(i + 1), drive) == prev.push(link_view(l)));
                assert(prev.push(link_view(l)).drop_last() == prev);
                add_link(out, l);
            },
            None => {},
        }
    }
    assert(cv.take(caps@.len() as int) == cv);
}

/// The links of three lists of matches: of the Docs pattern, of the Drive file
/// pattern and of the Drive `id=` pattern; each file id once, at its first occurrence.
pub fn collect_links(
    docs: &Vec<Vec<Option<String>>>,
    files: &Vec<Vec<Option<String>>>,
    by_id: &Vec<Vec<Option<String>>>,
) -> (out: Vec<(String, String, String)>)
    ensures
        link_views(out@) == links_from_captures(
            captures_view(docs@),
            captures_view(files@),
            captures_view(by_id@),
        ),
{
    let mut out: Vec<(String, String, String)> = Vec::new();
    assert(link_views(out@) == Seq::<LinkView>::empty());
    add_matches(&mut out, docs, false);
    add_matches(&mut out, files, true);
    add_matches(&mut out, by_id, true);
    proof {
        let a = links_of(captures_view(docs@), false);
        let b = links_of(captures_view(files@), true);
        let c = links_of(captures_view(by_id@), true);
        lemma_dedup_concat(seq![], a, b);
        lemma_dedup_concat(seq![], a + b, c);
    }
    out
}

proof fn lemma_dedup_from(kept: Seq<LinkView>, s: Seq<LinkView>)
    requires
        ids(kept).no_duplicates(),
    ensures
        ids(dedup_from(kept, s)).no_duplicates(),
        forall|i: int|
            0 <= i < dedup_from(kept, s).len() ==> kept.contains(#[trigger] dedup_from(kept, s)[i])
                || s.contains(dedup_from(kept, s)[i]),
        forall|i: int| 0 <= i < s.len() ==> ids(dedup_from(kept, s)).contains(#[trigger] s[i].1),
        forall|i: int| 0 <= i < kept.len() ==> ids(dedup_from(kept, s)).contains(#[trigger] kept[i].1),
    decreases s.len(),
{
    if s.len() == 0 {
        assert forall|i: int| 0 <= i < kept.len() implies ids(dedup_from(kept, s)).contains(
            #[trigger] kept[i].1,
        ) by {
            assert(ids(kept)[i] == kept[i].1);
        }
    } else {
        let prev = dedup_from(kept, s.drop_last());
        lemma_dedup_from(kept, s.drop_last());
        let l = s.last();
        let r = dedup_from(kept, s);
        assert(r == keep_new(prev, l));
        if !ids(prev).contains(l.1) {
            assert(ids(r) == ids(prev).push(l.1));
            assert(ids(r)[ids(prev).len() as int] == l.1);
            assert forall|i: int| 0 <= i < s.len() implies ids(r).contains(#[trigger] s[i].1) by {
                if i < s.len() - 1 {
                    assert(s.drop_last()[i] == s[i]);
                    let k = choose|k: int| 0 <= k < ids(prev).len() && ids(prev)[k] == s[i].1;
                    assert(ids(r)[k] == s[i].1);
                }
            }
            assert forall|i: int| 0 <= i < kept.len() implies ids(r).contains(#[trigger] kept[i].1) by {
                let k = choose|k: int| 0 <= k < ids(prev).len() && ids(prev)[k] == kept[i].1;
                assert(ids(r)[k] == kept[i].1);
            }
            assert forall|i: int| 0 <= i < r.len() implies kept.contains(#[trigger] r[i]) || s.contains(r[i]) by {
                if i < prev.len() {
                    assert(r[i] == prev[i]);
                    if s.drop_last().contains(prev[i]) {
                        let k = choose|k: int| 0 <= k < s.drop_last().len() && s.drop_last()[k] == prev[i];
                        assert(s[k] == prev[i]);
                    }
                } else {
                    assert(s[s.len() - 1] == r[i]);
                }
            }
        } else {
            assert forall|i: int| 0 <= i < s.len() implies ids(r).contains(#[trigger] s[i].1) by {
                if i < s.len() - 1 {
                    assert(s.drop_last()[i] == s[i]);
                }
            }
            assert forall|i: int| 0 <= i < r.len() implies kept.contains(#[trigger] r[i]) || s.contains(r[i]) by {
                if s.drop_last().contains(prev[i]) {
                    let k = choose|k: int| 0 <= k < s.drop_last().len() && s.drop_last()[k] == prev[i];
                    assert(s[k] == prev[i]);
                }
            }
        }
    }
}

/// Dropping repeated ids keeps every link whose id comes first, in order: the ids left
/// are all different, each link left was in the input, and each id of the input is left.
pub proof fn lemma_dedup_by_id(s: Seq<LinkView>)
    ensures
        ids(dedup_by_id(s)).no_duplicates(),
        forall|i: int| 0 <= i < dedup_by_id(s).len() ==> s.contains(#[trigger] dedup_by_id(s)[i]),
        forall|i: int| 0 <= i < s.len() ==> ids(dedup_by_id(s)).contains(#[trigger] s[i].1),
{
    assert(ids(Seq::<LinkView>::empty()) == Seq::<Seq<char>>::empty());
    lemma_dedup_from(seq![], s);
}

/// A kind that a link may have.
pub open spec fn is_link_kind(k: Seq<char>) -> bool {
    ||| k == "document"@
    ||| k == "spreadsheet"@
    ||| k == "presentation"@
    ||| k == "form"@
    ||| k == "drive"@
}

/// A link whose id is a file id and whose url is an `http(s)` url ending with that id.
pub open spec fn link_shaped(l: LinkView) -> bool {
    is_file_id(l.1) && config::ends_with(l.2, l.1) && is_http(l.2)
}

/// A match that stands for a well-shaped link (see [`link_shaped`]).
pub open spec fn match_shaped(c: Seq<Option<Seq<char>>>, drive: bool) -> bool {
    if drive {
        &&& c.len() >= 2
        &&& c[0] is Some
        &&& c[1] is Some
        &&& is_file_id(c[1]->0)
        &&& config::ends_with(c[0]->0, c[1]->0)
        &&& is_http(c[0]->0)
    } else {
        &&& c.len() >= 3
        &&& c[0] is Some
        &&& c[1] is Some
        &&& c[2] is Some
        &&& is_file_id(c[2]->0)
        &&& config::ends_with(c[0]->0, c[2]->0)
        &&& is_http(c[0]->0)
    }
}

proof fn lemma_prefixed(scheme: Seq<char>, rest: Seq<char>, id: Seq<char>, front: Seq<char>)
    requires
        rest == front + id,
    ensures
        config::starts_with(scheme + rest, scheme),
        config::ends_with(scheme + rest, id),
{
    let u = scheme + rest;
    assert(u.subrange(0, scheme.len() as int) =~= scheme);
    assert(u.subrange(u.len() - id.len(), u.len() as int) =~= id);
}

proof fn lemma_docs_shaped(c: Seq<Option<Seq<char>>>)
    requires
        docs_match_shape(c),
    ensures
        match_shaped(c, false),
{
    let front = "docs.google.com/"@ + c[1]->0 + "/d/"@;
    let rest = "docs.google.com/"@ + c[1]->0 + "/d/"@ + c[2]->0;
    if c[0]->0 == "http://"@ + rest {
        lemma_prefixed("http://"@, rest, c[2]->0, front);
    } else {
        lemma_prefixed("https://"@, rest, c[2]->0, front);
    }
}

proof fn lemma_drive_file_shaped(c: Seq<Option<Seq<char>>>)
    requires
        drive_file_match_shape(c),
    ensures
        match_shaped(c, true),
{
    let rest = "drive.google.com/file/d/"@ + c[1]->0;
    if c[0]->0 == "http://"@ + rest {
        lemma_prefixed("http://"@, rest, c[1]->0, "drive.google.com/file/d/"@);
    } else {
        lemma_prefixed("https://"@, rest, c[1]->0, "drive.google.com/file/d/"@);
    }
}

proof fn lemma_drive_id_shaped(c: Seq<Option<Seq<char>>>)
    requires
        drive_id_match_shape(c),
    ensures
        match_shaped(c, true),
{
    let u = c[0]->0;
    let id = c[1]->0;
    let q = if config::ends_with(u, "?id="@ + id) { "?id="@ } else { "&id="@ };
    assert(config::ends_with(u, q + id));
    let t = q + id;
    assert(u.subrange(u.len() - t.len(), u.len() as int) == t);
    assert(u.subrange(u.len() - id.len(), u.len() as int) =~= t.subrange(q.len() as int, t.len() as int));
    assert(t.subrange(q.len() as int, t.len() as int) =~= id);
}

proof fn lemma_links_of(caps: Seq<Seq<Option<Seq<char>>>>, drive: bool, text: Seq<char>)
    requires
        forall|k: int, g: int|
            0 <= k < caps.len() && 0 <= g < caps[k].len() && (#[trigger] caps[k][g]) is Some
                ==> is_substring(caps[k][g]->0, text),
        forall|k: int| 0 <= k < caps.len() ==> match_shaped(#[trigger] caps[k], drive),
    ensures
        forall|i: int| 0 <= i < links_of(caps, drive).len() ==> is_substring(
            (#[trigger] links_of(caps, drive)[i]).2,
            text,
        ) && is_link_kind(links_of(caps, drive)[i].0) && link_shaped(links_of(caps, drive)[i]),
    decreases caps.len(),
{
    if caps.len() > 0 {
        lemma_links_of(caps.drop_last(), drive, text);
        let c = caps.last();
        let prev = links_of(caps.drop_last(), drive);
        let l = if drive { drive_link(c) } else { doc_link(c) };
        if l is Some {
            assert(c[0] is Some);
            assert(caps[caps.len() - 1][0] is Some);
            assert(is_substring(caps[caps.len() - 1][0]->0, text));
            let lv = l->0;
            assert(is_link_kind(lv.0));
            assert(match_shaped(caps[caps.len() - 1], drive));
            assert(link_shaped(lv));
            assert(links_of(caps, drive) == prev.push(lv));
            assert forall|i: int| 0 <= i < links_of(caps, drive).len() implies is_substring(
                (#[trigger] links_of(caps, drive)[i]).2,
                text,
            ) && is_link_kind(links_of(caps, drive)[i].0) && link_shaped(links_of(caps, drive)[i]) by {
                if i < prev.len() {
                    assert(links_of(caps, drive)[i] == prev[i]);
                }
            }
        }
    }
}

/// Every link found by [`extract_links`] has one of the five kinds, its id is ten or
/// more characters of `[A-Za-z0-9_-]`, and its url is an `http(s)` url ending with the
/// id and a piece of the text it was found in.
pub open spec fn links_sound(links: Seq<LinkView>, text: Seq<char>) -> bool {
    forall|i: int| 0 <= i < links.len() ==> is_substring((#[trigger] links[i]).2, text)
        && is_link_kind(links[i].0) && link_shaped(links[i])
}

/// The matches of a search, or none when the pattern did not compile.
pub open spec fn found(r: Option<Seq<Seq<Option<Seq<char>>>>>) -> Seq<Seq<Option<Seq<char>>>> {
    match r {
        Some(c) => c,
        None => seq![],
    }
}

/// Pattern of Docs, Sheets, Slides and Forms links; group 1 is the kind of file,
/// group 2 its id.
pub open spec fn docs_pattern() -> Seq<char> {
    "https?://docs\\.google\\.com/(document|spreadsheets|presentation|forms)/d/([A-Za-z0-9_-]{10,})"@
}

/// Pattern of Drive file links; group 1 is the file id.
pub open spec fn drive_file_pattern() -> Seq<char> {
    "https?://drive\\.google\\.com/file/d/([A-Za-z0-9_-]{10,})"@
}

/// Pattern of Drive links that name the file in an `id=` query parameter; group 1 is
/// the file id.
pub open spec fn drive_id_pattern() -> Seq<char> {
    "https?://drive\\.google\\.com/[^\\s]*[?&]id=([A-Za-z0-9_-]{10,})"@
}

fn matches_of(pattern: &str, text: &str) -> (c: Vec<Vec<Option<String>>>)
    ensures
        captures_view(c@) == found(regex_captures(pattern@, text@)),
        pattern@ == docs_pattern() ==> forall|k: int|
            0 <= k < c@.len() ==> docs_match_shape(groups_view((#[trigger] c@[k])@)),
        pattern@ == drive_file_pattern() ==> forall|k: int|
            0 <= k < c@.len() ==> drive_file_match_shape(groups_view((#[trigger] c@[k])@)),
        pattern@ == drive_id_pattern() ==> forall|k: int|
            0 <= k < c@.len() ==> drive_id_match_shape(groups_view((#[trigger] c@[k])@)),
        forall|k: int, g: int|
            0 <= k < c@.len() && 0 <= g < c@[k]@.len() && (#[trigger] c@[k]@[g]) is Some
                ==> is_substring(c@[k]@[g]->0@, text@),
{
    match find_captures(pattern, text) {
        Some(c) => c,
        None => {
            let c: Vec<Vec<Option<String>>> = Vec::new();
            assert(captures_view(c@) == Seq::<Seq<Option<Seq<char>>>>::empty());
            c
        },
    }
}

proof fn lemma_matches_sound(c: Seq<Vec<Option<String>>>, text: Seq<char>)
    requires
        forall|k: int, g: int|
            0 <= k < c.len() && 0 <= g < c[k]@.len() && (#[trigger] c[k]@[g]) is Some
                ==> is_substring(c[k]@[g]->0@, text),
    ensures
        forall|k: int, g: int|
            0 <= k < captures_view(c).len() && 0 <= g < captures_view(c)[k].len() && (
            #[trigger] captures_view(c)[k][g]) is Some ==> is_substring(captures_view(c)[k][g]->0, text),
{
    assert forall|k: int, g: int|
        0 <= k < captures_view(c).len() && 0 <= g < captures_view(c)[k].len() && (
        #[trigger] captures_view(c)[k][g]) is Some implies is_substring(captures_view(c)[k][g]->0, text) by {
        assert(captures_view(c)[k] == groups_view(c[k]@));
        assert(captures_view(c)[k][g] == config::opt_view(c[k]@[g]));
        assert(c[k]@[g] is Some);
    }
}

/// The links that the three searches of `text` yield (see [`links_from_captures`]).
pub open spec fn links_in(text: Seq<char>) -> Seq<LinkView> {
    links_from_captures(
        found(regex_captures(docs_pattern(), text)),
        found(regex_captures(drive_file_pattern(), text)),
        found(regex_captures(drive_id_pattern(), text)),
    )
}

/// The Google file links in `text` (usually a mail body) as (kind, id, url): Docs,
/// Sheets, Slides and Forms links first, then Drive file links, then Drive `id=` links,
/// each file id once, at its first occurrence. The kinds are `document`,
/// `spreadsheet`, `presentation`, `form` and `drive`.
pub fn extract_links(text: &str) -> (out: Vec<(String, String, String)>)
    ensures
        link_views(out@) == links_in(text@),
        links_sound(link_views(out@), text@),
{
    let docs = matches_of(
        "https?://docs\\.google\\.com/(document|spreadsheets|presentation|forms)/d/([A-Za-z0-9_-]{10,})",
        text,
    );
    let files = matches_of("https?://drive\\.google\\.com/file/d/([A-Za-z0-9_-]{10,})", text);
    let by_id = matches_of(
        "https?://drive\\.google\\.com/[^\\s]*[?&]id=([A-Za-z0-9_-]{10,})",
        text,
    );
    let out = collect_links(&docs, &files, &by_id);
    proof {
        lemma_matches_sound(docs@, text@);
        lemma_matches_sound(files@, text@);
        lemma_matches_sound(by_id@, text@);
        let a = links_of(captures_view(docs@), false);
        let b = links_of(captures_view(files@), true);
        let c = links_of(captures_view(by_id@), true);
        assert forall|k: int| 0 <= k < captures_view(docs@).len() implies match_shaped(
            #[trigger] captures_view(docs@)[k],
            false,
        ) by {
            assert(captures_view(docs@)[k] == groups_view(docs@[k]@));
            lemma_docs_shaped(captures_view(docs@)[k]);
        }
        assert forall|k: int| 0 <= k < captures_view(files@).len() implies match_shaped(
            #[trigger] captures_view(files@)[k],
            true,
        ) by {
            assert(captures_view(files@)[k] == groups_view(files@[k]@));
            lemma_drive_file_shaped(captures_view(files@)[k]);
        }
        assert forall|k: int| 0 <= k < captures_view(by_id@).len() implies match_shaped(
            #[trigger] captures_view(by_id@)[k],
            true,
        ) by {
            assert(captures_view(by_id@)[k] == groups_view(by_id@[k]@));
            lemma_drive_id_shaped(captures_view(by_id@)[k]);
        }
        lemma_links_of(captures_view(docs@), false, text@);
        lemma_links_of(captures_view(files@), true, text@);
        lemma_links_of(captures_view(by_id@), true, text@);
        let all = a + b + c;
        lemma_dedup_by_id(all);
        let r = link_views(out@);
        assert forall|i: int| 0 <= i < r.len() implies is_substring((#[trigger] r[i]).2, text@)
            && is_link_kind(r[i].0) && link_shaped(r[i]) by {
            assert(all.contains(r[i]));
            let k = choose|k: int| 0 <= k < all.len() && all[k] == r[i];
            if k < a.len() {
                assert(all[k] == a[k]);
            } else if k < a.len() + b.len() {
                assert(all[k] == b[k - a.len()]);
            } else {
                assert(all[k] == c[k - a.len() - b.len()]);
            }
        }
    }
    out
}

proof fn lemma_dedup_seen(kept: Seq<LinkView>, t: Seq<LinkView>)
    requires
        forall|i: int| 0 <= i < t.len() ==> ids(kept).contains(#[trigger] t[i].1),
    ensures
        dedup_from(kept, t) == kept,
    decreases t.len(),
{
    if t.len() > 0 {
        lemma_dedup_seen(kept, t.drop_last());
        assert(t[t.len() - 1] == t.last());
    }
}

proof fn lemma_dedup_again(kept: Seq<LinkView>, t: Seq<LinkView>)
    requires
        ids(kept).no_duplicates(),
    ensures
        dedup_from(dedup_from(kept, t), t) == dedup_from(kept, t),
        ids(dedup_from(kept, t)).no_duplicates(),
{
    lemma_dedup_from(kept, t);
    lemma_dedup_seen(dedup_from(kept, t), t);
}

/// Matches found twice over give the same links as found once: when every search
/// yields its matches a second time after the first, nothing is added and the order
/// is kept.
pub proof fn lemma_links_repeat(
    docs: Seq<Seq<Option<Seq<char>>>>,
    files: Seq<Seq<Option<Seq<char>>>>,
    by_id: Seq<Seq<Option<Seq<char>>>>,
)
    ensures
        links_from_captures(docs + docs, files + files, by_id + by_id) == links_from_captures(
            docs,
            files,
            by_id,
        ),
{
    let d = links_of(docs, false);
    let f = links_of(files, true);
    let i = links_of(by_id, true);
    lemma_links_of_concat(docs, docs, false);
    lemma_links_of_concat(files, files, true);
    lemma_links_of_concat(by_id, by_id, true);
    let e = Seq::<LinkView>::empty();
    assert(ids(e) == Seq::<Seq<char>>::empty());
    let x0 = dedup_from(e, d);
    lemma_dedup_again(e, d);
    let x1 = dedup_from(x0, f);
    lemma_dedup_again(x0, f);
    let x2 = dedup_from(x1, i);
    lemma_dedup_again(x1, i);
    lemma_dedup_concat(e, d, d);
    lemma_dedup_concat(e, d + d, f);
    lemma_dedup_concat(e, d + d + f, f);
    lemma_dedup_concat(e, d + d + f + f, i);
    lemma_dedup_concat(e, d + d + f + f + i, i);
    lemma_dedup_concat(e, d, f);
    lemma_dedup_concat(e, d + f, i);
    assert(d + d + (f + f) + (i + i) == d + d + f + f + i + i);
}

/// The ids kept from two sets of matches taken together are exactly the ids kept
/// from each set alone.
pub proof fn lemma_links_join(
    d1: Seq<Seq<Option<Seq<char>>>>,
    f1: Seq<Seq<Option<Seq<char>>>>,
    i1: Seq<Seq<Option<Seq<char>>>>,
    d2: Seq<Seq<Option<Seq<char>>>>,
    f2: Seq<Seq<Option<Seq<char>>>>,
    i2: Seq<Seq<Option<Seq<char>>>>,
)
    ensures
        ids(links_from_captures(d1 + d2, f1 + f2, i1 + i2)).to_set() == ids(
            links_from_captures(d1, f1, i1),
        ).to_set() + ids(links_from_captures(d2, f2, i2)).to_set(),
{
    lemma_links_of_concat(d1, d2, false);
    lemma_links_of_concat(f1, f2, true);
    lemma_links_of_concat(i1, i2, true);
    let a1 = links_of(d1, false) + links_of(f1, true) + links_of(i1, true);
    let a2 = links_of(d2, false) + links_of(f2, true) + links_of(i2, true);
    let all = links_of(d1 + d2, false) + links_of(f1 + f2, true) + links_of(i1 + i2, true);
    lemma_dedup_by_id(a1);
    lemma_dedup_by_id(a2);
    lemma_dedup_by_id(all);
    let r = dedup_by_id(all);
    let r1 = dedup_by_id(a1);
    let r2 = dedup_by_id(a2);
    // Both sides are the set of ids of all candidates.
    assert forall|x: Seq<char>| ids(r).to_set().contains(x) implies ids(r1).to_set().contains(x)
        || ids(r2).to_set().contains(x) by {
        let k = choose|k: int| 0 <= k < ids(r).len() && ids(r)[k] == x;
        assert(all.contains(r[k]));
        let j = choose|j: int| 0 <= j < all.len() && all[j] == r[k];
        lemma_candidate_split(links_of(d1, false), links_of(d2, false), links_of(f1, true), links_of(f2, true), links_of(i1, true), links_of(i2, true), j);
        if a1.contains(all[j]) {
            let m = choose|m: int| 0 <= m < a1.len() && a1[m] == all[j];
            assert(ids(r1).contains(a1[m].1));
        } else {
            let m = choose|m: int| 0 <= m < a2.len() && a2[m] == all[j];
            assert(ids(r2).contains(a2[m].1));
        }
    }
    assert forall|x: Seq<char>| ids(r1).to_set().contains(x) || ids(r2).to_set().contains(x)
        implies ids(r).to_set().contains(x) by {
        if ids(r1).to_set().contains(x) {
            let k = choose|k: int| 0 <= k < ids(r1).len() && ids(r1)[k] == x;
            let j = choose|j: int| 0 <= j < a1.len() && a1[j] == r1[k];
            lemma_candidate_in_all(links_of(d1, false), links_of(d2, false), links_of(f1, true), links_of(f2, true), links_of(i1, true), links_of(i2, true), a1[j], true);
            let m = choose|m: int| 0 <= m < all.len() && all[m] == a1[j];
            assert(ids(r).contains(all[m].1));
        } else {
            let k = choose|k: int| 0 <= k < ids(r2).len() && ids(r2)[k] == x;
            let j = choose|j: int| 0 <= j < a2.len() && a2[j] == r2[k];
            lemma_candidate_in_all(links_of(d1, false), links_of(d2, false), links_of(f1, true), links_of(f2, true), links_of(i1, true), links_of(i2, true), a2[j], false);
            let m = choose|m: int| 0 <= m < all.len() && all[m] == a2[j];
            assert(ids(r).contains(all[m].1));
        }
    }
    assert(ids(r).to_set() =~= ids(r1).to_set() + ids(r2).to_set());
}

proof fn lemma_links_of_concat(a: Seq<Seq<Option<Seq<char>>>>, b: Seq<Seq<Option<Seq<char>>>>, drive: bool)
    ensures
        links_of(a + b, drive) == links_of(a, drive) + links_of(b, drive),
    decreases b.len(),
{
    if b.len() == 0 {
        assert(a + b == a);
    } else {
        assert((a + b).drop_last() == a + b.drop_last());
        lemma_links_of_concat(a, b.drop_last(), drive);
    }
}

proof fn lemma_candidate_split(
    d1: Seq<LinkView>, d2: Seq<LinkView>, f1: Seq<LinkView>, f2: Seq<LinkView>, i1: Seq<LinkView>, i2: Seq<LinkView>, j: int,
)
    requires
        0 <= j < (d1 + d2 + (f1 + f2) + (i1 + i2)).len(),
    ensures
        (d1 + f1 + i1).contains((d1 + d2 + (f1 + f2) + (i1 + i2))[j])
            || (d2 + f2 + i2).contains((d1 + d2 + (f1 + f2) + (i1 + i2))[j]),
{
    let all = d1 + d2 + (f1 + f2) + (i1 + i2);
    let a1 = d1 + f1 + i1;
    let a2 = d2 + f2 + i2;
    let x = all[j];
    let nd = d1.len() + d2.len();
    let nf = f1.len() + f2.len();
    if j < d1.len() {
        assert(a1[j] == x);
    } else if j < nd {
        assert(a2[j - d1.len()] == x);
    } else if j < nd + f1.len() {
        assert(a1[d1.len() + (j - nd)] == x);
    } else if j < nd + nf {
        assert(a2[d2.len() + (j - nd - f1.len())] == x);
    } else if j < nd + nf + i1.len() {
        assert(a1[d1.len() + f1.len() + (j - nd - nf)] == x);
    } else {
        assert(a2[d2.len() + f2.len() + (j - nd - nf - i1.len())] == x);
    }
}

proof fn lemma_candidate_in_all(
    d1: Seq<LinkView>, d2: Seq<LinkView>, f1: Seq<LinkView>, f2: Seq<LinkView>, i1: Seq<LinkView>, i2: Seq<LinkView>, x: LinkView, first: bool,
)
    requires
        first ==> (d1 + f1 + i1).contains(x),
        !first ==> (d2 + f2 + i2).contains(x),
    ensures
        (d1 + d2 + (f1 + f2) + (i1 + i2)).contains(x),
{
    let all = d1 + d2 + (f1 + f2) + (i1 + i2);
    let nd = d1.len() + d2.len();
    let nf = f1.len() + f2.len();
    if first {
        let a1 = d1 + f1 + i1;
        let j = choose|j: int| 0 <= j < a1.len() && a1[j] == x;
        if j < d1.len() {
            assert(all[j] == x);
        } else if j < d1.len() + f1.len() {
            assert(all[nd + (j - d1.len())] == x);
        } else {
            assert(all[nd + nf + (j - d1.len() - f1.len())] == x);
        }
    } else {
        let a2 = d2 + f2 + i2;
        let j = choose|j: int| 0 <= j < a2.len() && a2[j] == x;
        if j < d2.len() {
            assert(all[d1.len() + j] == x);
        } else if j < d2.len() + f2.len() {
            assert(all[nd + f1.len() + (j - d2.len())] == x);
        } else {
            assert(all[nd + nf + i1.len() + (j - d2.len() - f2.len())] == x);
        }
    }
}

/// The file that `gwx doc get <id|link>` exports: the id of the first link in `arg`
/// when it holds one, else `arg` itself as the id.
pub fn file_id_of(arg: &str) -> (id: String)
    ensures
        id@ == if links_in(arg@).len() > 0 { links_in(arg@)[0].1 } else { arg@ },
{
    let found = extract_links(arg);
    if found.len() > 0 {
        assert(link_views(found@)[0] == link_view(found@[0]));
        found[0].1.clone()
    } else {
        String::from_str(arg)
    }
}

} // verus!
