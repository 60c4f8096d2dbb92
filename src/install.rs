//! Where the tool and its manual page are installed, from the values of the
//! `DESTDIR` and `PREFIX` variables.

use vstd::prelude::*;
use crate::secret::text_of;

verus! {

/// The install prefix when `PREFIX` is not set.
pub const DEFAULT_PREFIX: &'static str = "/usr/local";

/// The path without its leading separators.
pub open spec fn strip_root(p: Seq<char>) -> Seq<char>
    decreases p.len(),
{
    if p.len() > 0 && p[0] == '/' {
        strip_root(p.drop_first())
    } else {
        p
    }
}

/// `rest` appended to `base` as a path: an absolute `rest` replaces `base`, and
/// one separator stands between two non-empty parts.
pub open spec fn join(base: Seq<char>, rest: Seq<char>) -> Seq<char> {
    if rest.len() > 0 && rest[0] == '/' {
        rest
    } else if base.len() == 0 || base.last() == '/' {
        base + rest
    } else {
        base + seq!['/'] + rest
    }
}

/// The install prefix: `PREFIX` (by default `/usr/local`), placed under a
/// non-empty `DESTDIR` as a relative path.
pub open spec fn prefix_of(destdir: Option<Seq<char>>, prefix: Option<Seq<char>>) -> Seq<char> {
    let p = match prefix {
        Some(p) => p,
        None => DEFAULT_PREFIX@,
    };
    match destdir {
        Some(d) => if d.len() == 0 { p } else { join(d, strip_root(p)) },
        None => p,
    }
}

fn join_paths(base: &str, rest: &str) -> (r: String)
    ensures
        r@ == join(base@, rest@),
{
    let nr = rest.unicode_len();
    let nb = base.unicode_len();
    if nr > 0 && rest.get_char(0) == '/' {
        rest.to_owned()
    } else if nb == 0 || base.get_char(nb - 1) == '/' {
        base.to_owned().concat(rest)
    } else {
        proof {
            reveal_strlit("/");
        }
        base.to_owned().concat("/").concat(rest)
    }
}

fn strip_root_text(p: &str) -> (r: &str)
    ensures
        r@ == strip_root(p@),
{
    let n = p.unicode_len();
    let mut k: usize = 0;
    assert(p@.subrange(0, n as int) =~= p@);
    while k < n && p.get_char(k) == '/'
        invariant
            n == p@.len(),
            k <= n,
            strip_root(p@) == strip_root(p@.subrange(k as int, n as int)),
        decreases n - k,
    {
        assert(p@.subrange(k as int, n as int).drop_first() =~= p@.subrange(k + 1, n as int));
        k = k + 1;
    }
    assert(strip_root(p@.subrange(k as int, n as int)) == p@.subrange(k as int, n as int));
    p.substring_char(k, n)
}

/// The install prefix for the given `DESTDIR` and `PREFIX` values.
pub fn prefix(destdir: Option<&str>, prefix_var: Option<&str>) -> (r: String)
    ensures
        r@ == prefix_of(text_of(destdir), text_of(prefix_var)),
{
    let p = match prefix_var {
        Some(p) => p,
        None => DEFAULT_PREFIX,
    };
    match destdir {
        Some(d) => {
            if d.unicode_len() == 0 {
                p.to_owned()
            } else {
                join_paths(d, strip_root_text(p))
            }
        },
        None => p.to_owned(),
    }
}

/// The installed program and manual page under an install prefix.
pub open spec fn destinations_of(prefix: Seq<char>) -> (Seq<char>, Seq<char>) {
    (join(prefix, "bin/ykchalresp"@), join(prefix, "share/man/man1/ykchalresp.1"@))
}

/// The paths of the installed program and manual page.
pub fn destinations(destdir: Option<&str>, prefix_var: Option<&str>) -> (r: (String, String))
    ensures
        r.0@ == destinations_of(
            prefix_of(text_of(destdir), text_of(prefix_var)),
        ).0,
        r.1@ == destinations_of(
            prefix_of(text_of(destdir), text_of(prefix_var)),
        ).1,
{
    let pfx = prefix(destdir, prefix_var);
    let bin = join_paths(pfx.as_str(), "bin/ykchalresp");
    let man = join_paths(pfx.as_str(), "share/man/man1/ykchalresp.1");
    (bin, man)
}

/// A path as printed.
pub fn display(p: &str) -> (r: String)
    ensures
        r@ == p@,
{
    p.to_owned()
}

} // verus!
