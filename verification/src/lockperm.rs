//! Reading an object's lock permissions from the world, and gating
//! operations on them.

use vstd::prelude::*;
use crate::codec::{decode_lock, decode_lock_spec, valid_lock_str, ObjKind};
use crate::errors::DeemakError;
use crate::store::{PropKey, Sekai};
use crate::strkit::push_char;

verus! {

/// The decoded lock state of the object at `p`: its `locked` property run
/// through the lock-state codec. `NotFound` when no `locked` property is
/// stored, `FormatError` when it does not decode.
pub open spec fn lock_state_at(s: Sekai, p: Seq<Seq<char>>) -> Result<(ObjKind, bool), DeemakError> {
    match s.prop_at(p, PropKey::Locked) {
        Some(ls) => if valid_lock_str(ls) {
            Ok(decode_lock_spec(ls))
        } else {
            Err(DeemakError::FormatError)
        },
        None => Err(DeemakError::NotFound),
    }
}

/// Whether some proper ancestor of `p` (its parent, or higher) is locked.
pub open spec fn ancestor_locked(s: Sekai, p: Seq<Seq<char>>) -> bool {
    exists|k: int| 1 <= k < p.len()
        && (#[trigger] lock_state_at(s, p.take(k)) matches Ok(kl) && kl.1)
}

/// Path segments joined with `/`, each segment preceded by the separator.
pub open spec fn join_slash(p: Seq<Seq<char>>) -> Seq<char>
    decreases p.len(),
{
    if p.len() == 0 {
        Seq::empty()
    } else {
        join_slash(p.drop_last()) + seq!['/'] + p.last()
    }
}

/// How a world path is shown to the player: the root spelled `HOME`, then
/// the segments.
pub open spec fn display_path_spec(p: Seq<Seq<char>>) -> Seq<char> {
    "HOME"@ + join_slash(p)
}

/// Render a world path for messages.
#[verifier::loop_isolation(false)]
pub fn display_path(path: &Vec<String>) -> (r: String)
    ensures
        r@ == display_path_spec(path.deep_view()),
{
    let mut s = String::from_str("HOME");
    let n = path.len();
    let mut i: usize = 0;
    while i < n
        invariant
            i <= n,
            s@ == "HOME"@ + join_slash(path.deep_view().take(i as int)),
        decreases n - i,
    {
        push_char(&mut s, '/');
        s.append(path[i].as_str());
        proof {
            let p = path.deep_view();
            assert(p.take(i + 1 as int).drop_last() =~= p.take(i as int));
            assert(p.take(i + 1 as int).last() == p[i as int]);
            assert(s@ =~= "HOME"@ + join_slash(p.take(i + 1 as int)));
        }
        i += 1;
    }
    proof {
        assert(path.deep_view().take(n as int) =~= path.deep_view());
    }
    s
}

/// Read the lock permissions of an object: the `(kind, locked)` pair its
/// two-character `locked` property encodes.
pub fn read_lock_perm(sekai: &Sekai, obj_path: &Vec<String>) -> (r: Result<(ObjKind, bool), DeemakError>)
    requires
        sekai.wf(),
    ensures
        r == lock_state_at(*sekai, obj_path.deep_view()),
{
    match sekai.get_prop(obj_path, PropKey::Locked) {
        Some(ls) => decode_lock(ls.as_str()),
        None => Err(DeemakError::NotFound),
    }
}

/// Check whether an operation may proceed on an object: refuse with a
/// message when the object is locked; allow when it is unlocked or when
/// its lock status cannot be determined.
pub fn operation_locked_perm(sekai: &Sekai, obj_path: &Vec<String>, operation: &str, message: &str)
    -> (r: Result<(), String>)
    requires
        sekai.wf(),
    ensures
        r is Ok <==> !(lock_state_at(*sekai, obj_path.deep_view()) matches Ok(kl) && kl.1),
        r matches Err(m) ==> m@ == operation@ + ": "@
            + display_path_spec(obj_path.deep_view()) + " is locked. "@ + message@,
{
    match read_lock_perm(sekai, obj_path) {
        Ok((_, is_locked)) => {
            if is_locked {
                let mut m = String::from_str(operation);
                m.append(": ");
                let shown = display_path(obj_path);
                m.append(shown.as_str());
                m.append(" is locked. ");
                m.append(message);
                Err(m)
            } else {
                Ok(())
            }
        }
        Err(_) => Ok(()),
    }
}

/// Whether some proper ancestor of the object is locked; used to refuse
/// unlocking anything nested under a locked container.
#[verifier::loop_isolation(false)]
pub fn any_ancestor_locked(sekai: &Sekai, path: &Vec<String>) -> (r: bool)
    requires
        sekai.wf(),
    ensures
        r == ancestor_locked(*sekai, path.deep_view()),
{
    let ghost p = path.deep_view();
    if path.len() == 0 {
        return false;
    }
    let mut prefix: Vec<String> = Vec::new();
    let n = path.len() - 1;
    let mut k: usize = 0;
    while k < n
        invariant
            k <= n,
            prefix.deep_view() == p.take(k as int),
            forall|t: int| 1 <= t <= k ==>
                !(#[trigger] lock_state_at(*sekai, p.take(t)) matches Ok(kl) && kl.1),
        decreases n - k,
    {
        prefix.push(path[k].clone());
        proof {
            assert(prefix.deep_view() =~= p.take(k + 1 as int));
        }
        k += 1;
        match read_lock_perm(sekai, &prefix) {
            Ok((_, true)) => {
                return true;
            }
            _ => {}
        }
    }
    proof {
        assert forall|t: int| 1 <= t < p.len() implies
            !(#[trigger] lock_state_at(*sekai, p.take(t)) matches Ok(kl) && kl.1) by {}
    }
    false
}

} // verus!
