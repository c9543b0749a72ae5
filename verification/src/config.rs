//! Settings the tool reads from its environment, and the paths derived from them.
//! The caller reads each variable (`None` when unset) and hands it in.

use vstd::prelude::*;
use vstd::string::*;
use crate::text;
use crate::text::{chars_of, push_char, string_of, trim_chars};

verus! {

/// `s` begins with `prefix`.
pub open spec fn starts_with(s: Seq<char>, prefix: Seq<char>) -> bool {
    prefix.len() <= s.len() && s.subrange(0, prefix.len() as int) == prefix
}

/// `s` ends with `suffix`.
pub open spec fn ends_with(s: Seq<char>, suffix: Seq<char>) -> bool {
    suffix.len() <= s.len() && s.subrange(s.len() - suffix.len(), s.len() as int) == suffix
}

/// Remote mode is on when `GWX_HOST` holds something other than white space; the
/// host is then that value, untrimmed.
pub open spec fn remote_host_spec(var: Option<String>) -> Option<String> {
    match var {
        Some(h) => if text::trim(h@).len() > 0 { Some(h) } else { None },
        None => None,
    }
}

/// The remote host named by `GWX_HOST` (given as `var`), or `None` for local mode.
pub fn remote_host(var: Option<String>) -> (r: Option<String>)
    ensures
        r == remote_host_spec(var),
{
    match var {
        Some(h) => {
            let t = trim_chars(h.as_str());
            if t.len() > 0 {
                Some(h)
            } else {
                None
            }
        },
        None => None,
    }
}

/// The directory of per-account credential files on the remote host: `GWX_CREDS_DIR`
/// (given as `var`) or `$HOME/gwx-creds`.
pub fn creds_dir(var: Option<String>) -> (d: String)
    ensures
        d@ == match var {
            Some(v) => v@,
            None => "$HOME/gwx-creds"@,
        },
{
    match var {
        Some(v) => v,
        None => String::from_str("$HOME/gwx-creds"),
    }
}

/// The base directory that holds one configuration directory per account:
/// `GWX_CONFIG_DIR` (given as `var`) or `$HOME/.gwx/accounts`.
pub fn config_base(var: Option<String>) -> (d: String)
    ensures
        d@ == match var {
            Some(v) => v@,
            None => "$HOME/.gwx/accounts"@,
        },
{
    match var {
        Some(v) => v,
        None => String::from_str("$HOME/.gwx/accounts"),
    }
}

/// `p` with a leading `$HOME` replaced by `home` when both are there; else `p`.
pub open spec fn expand_home_spec(p: Seq<char>, home: Option<Seq<char>>) -> Seq<char> {
    if starts_with(p, "$HOME"@) && home is Some {
        home->0 + p.subrange("$HOME"@.len() as int, p.len() as int)
    } else {
        p
    }
}

/// The view of an optional string.
pub open spec fn opt_view(o: Option<String>) -> Option<Seq<char>> {
    match o {
        Some(s) => Some(s@),
        None => None,
    }
}

/// Expands a leading `$HOME` in `p` to `home` (the value of `HOME`, when set), for
/// use outside a shell.
pub fn expand_home(p: &str, home: Option<String>) -> (r: String)
    ensures
        r@ == expand_home_spec(p@, opt_view(home)),
{
    proof {
        reveal_strlit("$HOME");
    }
    let v = chars_of(p);
    let has_prefix = v.len() >= 5 && v[0] == '$' && v[1] == 'H' && v[2] == 'O' && v[3] == 'M'
        && v[4] == 'E';
    if has_prefix {
        assert(v@.subrange(0, 5) == "$HOME"@);
    } else {
        assert(!starts_with(p@, "$HOME"@)) by {
            if starts_with(p@, "$HOME"@) {
                assert(v@.subrange(0, 5)[0] == v@[0]);
                assert(v@.subrange(0, 5)[1] == v@[1]);
                assert(v@.subrange(0, 5)[2] == v@[2]);
                assert(v@.subrange(0, 5)[3] == v@[3]);
                assert(v@.subrange(0, 5)[4] == v@[4]);
            }
        }
    }
    match home {
        Some(h) => {
            if has_prefix {
                let mut r = h;
                let mut i: usize = 5;
                while i < v.len()
                    invariant
                        5 <= i <= v@.len(),
                        r@ == opt_view(home)->0 + v@.subrange(5, i as int),
                    decreases v.len() - i,
                {
                    push_char(&mut r, v[i]);
                    assert(v@.subrange(5, i + 1) == v@.subrange(5, i as int).push(v@[i as int]));
                    i = i + 1;
                }
                r
            } else {
                string_of(&v)
            }
        },
        None => string_of(&v),
    }
}

/// Remote mode is on exactly when `GWX_HOST` is set and holds a character other than
/// white space; the host is then the variable's value, as given.
pub proof fn lemma_remote_host(var: Option<String>)
    ensures
        remote_host_spec(var) is Some <==> (var is Some && exists|i: int|
            0 <= i < var->0@.len() && !text::is_white_space(#[trigger] var->0@[i])),
        remote_host_spec(var) is Some ==> remote_host_spec(var) == var,
{
    if var is Some {
        let h = var->0@;
        text::lemma_trim(h);
        let t = text::trim(h);
        if t.len() > 0 {
            let a = choose|a: int| 0 <= a && a + t.len() <= h.len() && #[trigger] h.subrange(a, a + t.len()) == t
                && (forall|i: int| 0 <= i < a ==> text::is_white_space(h[i]))
                && (forall|i: int| a + t.len() <= i < h.len() ==> text::is_white_space(h[i]));
            assert(h[a] == t[0]);
        } else {
            let a = choose|a: int| 0 <= a && a + t.len() <= h.len() && #[trigger] h.subrange(a, a + t.len()) == t
                && (forall|i: int| 0 <= i < a ==> text::is_white_space(h[i]))
                && (forall|i: int| a + t.len() <= i < h.len() ==> text::is_white_space(h[i]));
            assert forall|i: int| 0 <= i < h.len() implies text::is_white_space(#[trigger] h[i]) by {
                if i >= a {
                }
            }
        }
    }
}

} // verus!
