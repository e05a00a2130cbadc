//! Directory navigation: splitting and resolving path expressions against
//! the world tree, and the player's `go` command.

use vstd::prelude::*;
use crate::lockperm::display_path_spec;
use crate::store::{clone_path, parent_of, Sekai};
use crate::strkit::{push_char, str_eq};

verus! {

/// How a navigation attempt ends.
#[derive(Clone, Copy, Debug, PartialEq, Eq, Structural)]
pub enum NavKind {
    /// `..` at the world root.
    AtRoot,
    /// The expression climbs above the root.
    Denied,
    /// The destination passes through the metadata directory.
    Restricted,
    /// No such node exists.
    NoSuch,
    /// The destination is a file, not a directory.
    IsFile,
    /// The destination was entered.
    Entered,
}

/// A path expression split at every `/`. Empty segments are kept; the
/// empty expression is one empty segment.
pub open spec fn split_slash_spec(t: Seq<char>) -> Seq<Seq<char>>
    decreases t.len(),
{
    if t.len() == 0 {
        seq![Seq::empty()]
    } else if t.last() == '/' {
        split_slash_spec(t.drop_last()).push(Seq::empty())
    } else {
        let r = split_slash_spec(t.drop_last());
        r.update(r.len() - 1, r.last().push(t.last()))
    }
}

/// A split expression has at least one segment.
pub proof fn lemma_split_nonempty(t: Seq<char>)
    ensures
        split_slash_spec(t).len() >= 1,
    decreases t.len(),
{
    if t.len() > 0 {
        lemma_split_nonempty(t.drop_last());
    }
}

/// Split a path expression at every `/`.
#[verifier::loop_isolation(false)]
pub fn split_slash(t: &str) -> (r: Vec<String>)
    ensures
        r.deep_view() == split_slash_spec(t@),
{
    let n = t.unicode_len();
    let mut segs: Vec<String> = Vec::new();
    let mut cur = String::new();
    let mut i: usize = 0;
    while i < n
        invariant
            i <= n,
            segs.deep_view().push(cur@) == split_slash_spec(t@.take(i as int)),
        decreases n - i,
    {
        let c = t.get_char(i);
        proof {
            assert(t@.take(i + 1 as int).drop_last() =~= t@.take(i as int));
            assert(t@.take(i + 1 as int).last() == t@[i as int]);
        }
        if c == '/' {
            segs.push(cur);
            cur = String::new();
            proof {
                assert(segs.deep_view().push(cur@)
                    =~= split_slash_spec(t@.take(i as int)).push(Seq::empty()));
            }
        } else {
            push_char(&mut cur, c);
            proof {
                let old_split = split_slash_spec(t@.take(i as int));
                lemma_split_nonempty(t@.take(i as int));
                assert(old_split.last() == cur@.drop_last());
                assert(segs.deep_view().push(cur@)
                    =~= old_split.update(old_split.len() - 1, old_split.last().push(t@[i as int])));
            }
        }
        i += 1;
    }
    proof {
        assert(t@.take(n as int) =~= t@);
    }
    segs.push(cur);
    proof {
        assert(segs.deep_view() =~= split_slash_spec(t@));
    }
    segs
}

/// Resolve split segments against a base path: empty segments and `.` are
/// skipped, `..` steps up, anything else steps down. `None` when a `..`
/// would escape above the root.
pub open spec fn resolve_spec(acc: Seq<Seq<char>>, segs: Seq<Seq<char>>) -> Option<Seq<Seq<char>>>
    decreases segs.len(),
{
    if segs.len() == 0 {
        Some(acc)
    } else {
        let s = segs[0];
        if s.len() == 0 || s == seq!['.'] {
            resolve_spec(acc, segs.skip(1))
        } else if s == seq!['.', '.'] {
            if acc.len() == 0 {
                None
            } else {
                resolve_spec(acc.drop_last(), segs.skip(1))
            }
        } else {
            resolve_spec(acc.push(s), segs.skip(1))
        }
    }
}

/// Resolve a path expression against the current directory, as the world
/// sees paths: `.` and empty segments are ignored, `..` steps up, and an
/// expression that climbs above the root is refused.
#[verifier::loop_isolation(false)]
pub fn resolve_path(current: &Vec<String>, target: &str) -> (r: Option<Vec<String>>)
    ensures
        (match r {
            Some(p) => Some(p.deep_view()),
            None => None,
        }) == resolve_spec(current.deep_view(), split_slash_spec(target@)),
{
    let segs = split_slash(target);
    let ghost all = split_slash_spec(target@);
    let mut acc: Vec<String> = Vec::new();
    let cn = current.len();
    let mut ci: usize = 0;
    while ci < cn
        invariant
            ci <= cn,
            acc.deep_view() == current.deep_view().take(ci as int),
        decreases cn - ci,
    {
        acc.push(current[ci].clone());
        proof {
            assert(acc.deep_view() =~= current.deep_view().take(ci + 1 as int));
        }
        ci += 1;
    }
    proof {
        assert(current.deep_view().take(cn as int) =~= current.deep_view());
        assert(all.skip(0) =~= all);
    }
    let m = segs.len();
    let mut j: usize = 0;
    while j < m
        invariant
            j <= m,
            m == segs.deep_view().len(),
            resolve_spec(acc.deep_view(), all.skip(j as int))
                == resolve_spec(current.deep_view(), all),
        decreases m - j,
    {
        let s = &segs[j];
        proof {
            assert(all.skip(j as int)[0] == s@);
            assert(all.skip(j as int).skip(1) =~= all.skip(j + 1 as int));
            reveal_strlit(".");
            reveal_strlit("..");
            assert("."@ =~= seq!['.']);
            assert(".."@ =~= seq!['.', '.']);
        }
        if s.unicode_len() == 0 || str_eq(s.as_str(), ".") {
        } else if str_eq(s.as_str(), "..") {
            if acc.len() == 0 {
                proof {
                    assert(resolve_spec(current.deep_view(), all) is None);
                }
                return None;
            }
            let ghost before = acc.deep_view();
            acc.pop();
            proof {
                assert(acc.deep_view() =~= before.drop_last());
            }
        } else {
            let ghost before = acc.deep_view();
            acc.push(s.clone());
            proof {
                assert(acc.deep_view() =~= before.push(s@));
            }
        }
        j += 1;
    }
    proof {
        assert(all.skip(m as int) =~= Seq::<Seq<char>>::empty());
    }
    Some(acc)
}

/// The name of the metadata directory, which navigation refuses.
pub open spec fn dir_info_seg() -> Seq<char> {
    seq!['.', 'd', 'i', 'r', '_', 'i', 'n', 'f', 'o']
}

/// Whether a resolved path passes through the metadata directory.
pub open spec fn has_restricted(p: Seq<Seq<char>>) -> bool {
    exists|i: int| 0 <= i < p.len() && p[i] == dir_info_seg()
}

/// Whether a resolved path touches the restricted metadata directory.
#[verifier::loop_isolation(false)]
pub fn path_restricted(path: &Vec<String>) -> (r: bool)
    ensures
        r == has_restricted(path.deep_view()),
{
    let n = path.len();
    let mut i: usize = 0;
    proof {
        reveal_strlit(".dir_info");
        assert(".dir_info"@ =~= dir_info_seg());
    }
    while i < n
        invariant
            i <= n,
            forall|t: int| 0 <= t < i ==> path.deep_view()[t] != dir_info_seg(),
        decreases n - i,
    {
        if str_eq(path[i].as_str(), ".dir_info") {
            proof {
                assert(path.deep_view()[i as int] == dir_info_seg());
            }
            return true;
        }
        i += 1;
    }
    false
}

/// The checks a candidate destination runs through, and where navigation
/// ends up: failures stay in the current directory.
pub open spec fn nav_check(s: Sekai, cur: Seq<Seq<char>>, p: Seq<Seq<char>>) -> (NavKind, Seq<Seq<char>>) {
    if has_restricted(p) {
        (NavKind::Restricted, cur)
    } else if !s.has_node(p) {
        (NavKind::NoSuch, cur)
    } else if !s.is_dir_at(p) {
        (NavKind::IsFile, cur)
    } else {
        (NavKind::Entered, p)
    }
}

/// Where a navigation request from `cur` goes: `HOME` to the root, `..`
/// or `back` one step up (refused at the root), anything else resolved
/// as a path expression.
pub open spec fn nav_result(s: Sekai, cur: Seq<Seq<char>>, target: Seq<char>) -> (NavKind, Seq<Seq<char>>) {
    if target == "HOME"@ {
        nav_check(s, cur, Seq::empty())
    } else if target == ".."@ || target == "back"@ {
        if cur.len() == 0 {
            (NavKind::AtRoot, cur)
        } else {
            nav_check(s, cur, cur.drop_last())
        }
    } else {
        match resolve_spec(cur, split_slash_spec(target)) {
            None => (NavKind::Denied, cur),
            Some(p) => nav_check(s, cur, p),
        }
    }
}

/// The message each navigation outcome prints.
pub open spec fn nav_message(s: Sekai, kind: NavKind, target: Seq<char>, dest: Seq<Seq<char>>) -> Seq<char> {
    match kind {
        NavKind::AtRoot => "You are at the root. You cannot go back anymore"@,
        NavKind::Denied => "Access denied outside root directory"@,
        NavKind::Restricted => "Attempted to go to/refers a restricted directory"@,
        NavKind::NoSuch => "go: "@ + target + ": No such directory"@,
        NavKind::IsFile => "go: "@ + target + ": Is a file"@,
        NavKind::Entered => "You are now in "@ + display_path_spec(dest)
            + "\n\nAbout:\n"@ + s.node_at(dest).info.about@ + "\n"@,
    }
}

/// Run the common destination checks and build the outcome message.
fn nav_enter(sekai: &Sekai, target: &str, current_dir: &Vec<String>, candidate: Vec<String>)
    -> (r: (Vec<String>, String))
    requires
        sekai.wf(),
    ensures
        r.0.deep_view() == nav_check(*sekai, current_dir.deep_view(), candidate.deep_view()).1,
        r.1@ == nav_message(
            *sekai,
            nav_check(*sekai, current_dir.deep_view(), candidate.deep_view()).0,
            target@,
            nav_check(*sekai, current_dir.deep_view(), candidate.deep_view()).1,
        ),
{
    if path_restricted(&candidate) {
        return (
            clone_path(current_dir),
            String::from_str("Attempted to go to/refers a restricted directory"),
        );
    }
    match sekai.about_at(&candidate) {
        None => {
            let mut m = String::from_str("go: ");
            m.append(target);
            m.append(": No such directory");
            (clone_path(current_dir), m)
        }
        Some(about) => {
            if !sekai.is_dir(&candidate) {
                let mut m = String::from_str("go: ");
                m.append(target);
                m.append(": Is a file");
                return (clone_path(current_dir), m);
            }
            let shown = crate::lockperm::display_path(&candidate);
            let mut m = String::from_str("You are now in ");
            m.append(shown.as_str());
            m.append("\n\nAbout:\n");
            m.append(about.as_str());
            m.append("\n");
            (candidate, m)
        }
    }
}

/// Navigate from the current directory to a target expression. On any
/// failure the current directory is returned unchanged, with a message
/// saying why.
pub fn navigate(sekai: &Sekai, target: &str, current_dir: &Vec<String>) -> (r: (Vec<String>, String))
    requires
        sekai.wf(),
    ensures
        r.0.deep_view() == nav_result(*sekai, current_dir.deep_view(), target@).1,
        r.1@ == nav_message(
            *sekai,
            nav_result(*sekai, current_dir.deep_view(), target@).0,
            target@,
            nav_result(*sekai, current_dir.deep_view(), target@).1,
        ),
{
    if str_eq(target, "HOME") {
        let candidate: Vec<String> = Vec::new();
        proof {
            assert(candidate.deep_view() =~= Seq::<Seq<char>>::empty());
        }
        return nav_enter(sekai, target, current_dir, candidate);
    }
    if str_eq(target, "..") || str_eq(target, "back") {
        if current_dir.len() == 0 {
            return (
                clone_path(current_dir),
                String::from_str("You are at the root. You cannot go back anymore"),
            );
        }
        let candidate = parent_of(current_dir);
        return nav_enter(sekai, target, current_dir, candidate);
    }
    match resolve_path(current_dir, target) {
        None => (
            clone_path(current_dir),
            String::from_str("Access denied outside root directory"),
        ),
        Some(candidate) => nav_enter(sekai, target, current_dir, candidate),
    }
}

/// The player's `go` command: navigate and update the current directory.
pub fn go(sekai: &Sekai, args: &Vec<String>, current_dir: &mut Vec<String>) -> (r: String)
    requires
        sekai.wf(),
    ensures
        args@.len() == 0 ==> r@ == "go: missing directory operand"@
            && final(current_dir).deep_view() == old(current_dir).deep_view(),
        args@.len() > 0 ==> {
            let (kind, dest) = nav_result(*sekai, old(current_dir).deep_view(), args@[0]@);
            &&& final(current_dir).deep_view() == dest
            &&& r@ == nav_message(*sekai, kind, args@[0]@, dest)
        },
{
    if args.len() == 0 {
        return String::from_str("go: missing directory operand");
    }
    let (new_path, message) = navigate(sekai, args[0].as_str(), current_dir);
    *current_dir = new_path;
    message
}

} // verus!
