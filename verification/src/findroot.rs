//! Locating the world root, and rewriting absolute paths into the
//! player-facing form, where the world root is spelled `HOME` and the
//! temporary locations are spelled `DEEMAK_TEMP`.

use vstd::prelude::*;
use crate::store::Sekai;
use crate::strkit::str_eq;

verus! {

/// `p` stripped of the directory prefix `d`: empty when `p` is `d`
/// itself, the remainder after the separator when `p` lies under `d`,
/// nothing otherwise.
pub open spec fn strip_prefix_spec(p: Seq<char>, d: Seq<char>) -> Option<Seq<char>> {
    if p == d {
        Some(Seq::empty())
    } else if p.len() > d.len() && p.take(d.len() as int) == d && p[d.len() as int] == '/' {
        Some(p.skip(d.len() + 1 as int))
    } else {
        None
    }
}

/// A path under one of the temporary locations, rewritten to start with
/// `DEEMAK_TEMP`; other paths unchanged.
pub open spec fn tmp_replaced(p: Seq<char>) -> Seq<char> {
    match strip_prefix_spec(p, "/tmp"@) {
        Some(rest) => if rest.len() == 0 { "DEEMAK_TEMP"@ } else { "DEEMAK_TEMP"@ + seq!['/'] + rest },
        None => match strip_prefix_spec(p, "/var/tmp"@) {
            Some(rest) => if rest.len() == 0 { "DEEMAK_TEMP"@ } else { "DEEMAK_TEMP"@ + seq!['/'] + rest },
            None => p,
        },
    }
}

/// What `relative_deemak_path` produces: the world directory prefix
/// becomes `HOME`, a temporary location becomes `DEEMAK_TEMP`, and any
/// other path is returned as it came.
pub open spec fn relative_deemak_path_spec(p: Seq<char>, sekai_dir: Option<Seq<char>>) -> Seq<char> {
    match sekai_dir {
        Some(d) => match strip_prefix_spec(p, d) {
            Some(rest) => if rest.len() == 0 { "HOME"@ } else { "HOME"@ + seq!['/'] + rest },
            None => tmp_replaced(p),
        },
        None => tmp_replaced(p),
    }
}

/// Strip the directory prefix `d` from `p`, at a segment boundary.
fn strip_prefix_sl(p: &str, d: &str) -> (r: Option<String>)
    ensures
        (match r {
            Some(rest) => Some(rest@),
            None => None,
        }) == strip_prefix_spec(p@, d@),
{
    if str_eq(p, d) {
        return Some(String::new());
    }
    let pl = p.unicode_len();
    let dl = d.unicode_len();
    if pl > dl {
        let head = p.substring_char(0, dl);
        if str_eq(head, d) && p.get_char(dl) == '/' {
            let rest = p.substring_char(dl + 1, pl);
            proof {
                assert(rest@ =~= p@.skip(dl + 1 as int));
            }
            return Some(String::from_str(rest));
        }
    }
    None
}

fn with_prefix(marker: &str, rest: &str) -> (r: String)
    ensures
        rest@.len() == 0 ==> r@ == marker@,
        rest@.len() > 0 ==> r@ == marker@ + seq!['/'] + rest@,
{
    let mut s = String::from_str(marker);
    if rest.unicode_len() > 0 {
        crate::strkit::push_char(&mut s, '/');
        s.append(rest);
    }
    s
}

/// Rewrite a path for display: the world directory becomes `HOME`, the
/// temporary locations become `DEEMAK_TEMP`, anything else is unchanged.
/// With no world directory given, only the temporary locations are
/// rewritten.
pub fn relative_deemak_path(path: &str, sekai_dir: Option<&str>) -> (r: String)
    ensures
        r@ == relative_deemak_path_spec(path@, match sekai_dir {
            Some(d) => Some(d@),
            None => None,
        }),
{
    if let Some(d) = sekai_dir {
        if let Some(rest) = strip_prefix_sl(path, d) {
            return with_prefix("HOME", rest.as_str());
        }
    }
    if let Some(rest) = strip_prefix_sl(path, "/tmp") {
        return with_prefix("DEEMAK_TEMP", rest.as_str());
    }
    if let Some(rest) = strip_prefix_sl(path, "/var/tmp") {
        return with_prefix("DEEMAK_TEMP", rest.as_str());
    }
    String::from_str(path)
}

/// Whether the directory at `path` is the world home: its metadata must
/// be present and its location must read `HOME`.
pub fn check_home(sekai: &Sekai, path: &Vec<String>) -> (r: Option<Vec<String>>)
    requires
        sekai.wf(),
    ensures
        r is Some <==> sekai.has_node(path.deep_view())
            && sekai.node_at(path.deep_view()).info.location@ == "HOME"@,
        r matches Some(p) ==> p.deep_view() == path.deep_view(),
{
    match sekai.location_at(path) {
        Some(loc) => {
            if str_eq(loc.as_str(), "HOME") {
                Some(crate::store::clone_path(path))
            } else {
                None
            }
        }
        None => None,
    }
}

/// The world home at `path`, if its metadata declares it so.
pub fn get_home(sekai: &Sekai, path: &Vec<String>) -> (r: Option<Vec<String>>)
    requires
        sekai.wf(),
    ensures
        r is Some <==> sekai.has_node(path.deep_view())
            && sekai.node_at(path.deep_view()).info.location@ == "HOME"@,
        r matches Some(p) ==> p.deep_view() == path.deep_view(),
{
    check_home(sekai, path)
}

} // verus!
