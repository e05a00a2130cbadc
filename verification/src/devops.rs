//! Operator-facing lock management: declare an object a level or a chest,
//! lock or unlock a chest directly, build a level-to-object chain link,
//! and remove one.

use vstd::prelude::*;
use crate::codec::{encode_lock, encode_lock_spec, ObjKind};
use crate::crypto::{characterise_key, decrypt, encrypt, generate_salt, salted_hash, valid_salt_b64};
use crate::errors::DeemakError;
use crate::lockperm::{display_path, display_path_spec, lock_state_at, read_lock_perm};
use crate::protocol::{
    chain_compare_me, chain_decrypt_me, chest_verifier, res_view, user_bound_key, user_view,
    UserIdentity,
};
use crate::store::{parent_of, PropKey, Sekai};

verus! {

/// Make sure the object at `p` carries a salt, assigning a fresh one
/// exactly when none exists: a salt, once written, is never regenerated.
fn ensure_salt(sekai: &mut Sekai, path: &Vec<String>) -> (r: Result<String, DeemakError>)
    requires
        old(sekai).wf(),
    ensures
        final(sekai).wf(),
        old(sekai).same_shape(*final(sekai)),
        final(sekai).has_restore == old(sekai).has_restore,
        final(sekai).has_save == old(sekai).has_save,
        r is Err ==> *final(sekai) == *old(sekai),
        r is Ok <==> old(sekai).prop_at(path.deep_view(), PropKey::ObjSalt) is Some
            || (path.deep_view().len() > 0
                && old(sekai).is_dir_at(path.deep_view().drop_last())),
        r matches Err(e) ==> e == DeemakError::PersistenceError,
        r matches Ok(s) ==> {
            let p = path.deep_view();
            &&& final(sekai).prop_at(p, PropKey::ObjSalt) == Some(s@)
            &&& valid_salt_b64(s@) || old(sekai).prop_at(p, PropKey::ObjSalt) == Some(s@)
            &&& (old(sekai).prop_at(p, PropKey::ObjSalt) matches Some(v) ==>
                s@ == v && *final(sekai) == *old(sekai))
            &&& forall|kk: PropKey| kk != PropKey::ObjSalt ==>
                final(sekai).prop_at(p, kk) == old(sekai).prop_at(p, kk)
            &&& forall|q: Seq<Seq<char>>, kk: PropKey| q != p ==>
                final(sekai).prop_at(q, kk) == old(sekai).prop_at(q, kk)
        },
{
    match sekai.get_prop(path, PropKey::ObjSalt) {
        Some(s) => Ok(s),
        None => {
            let fresh = generate_salt();
            let copy = fresh.clone();
            match sekai.set_prop(path, PropKey::ObjSalt, Some(copy)) {
                Ok(()) => Ok(fresh),
                Err(_) => Err(DeemakError::PersistenceError),
            }
        }
    }
}

/// What declaring a level decides: the object must exist, carry a
/// readable lock state, and not already be a level; its record must be
/// writable.
pub open spec fn make_level_outcome(s: Sekai, p: Seq<Seq<char>>) -> Result<(), DeemakError> {
    if !s.has_node(p) {
        Err(DeemakError::PathInvalid)
    } else {
        match lock_state_at(s, p) {
            Err(e) => Err(e),
            Ok((kind, _)) => if kind is Level {
                Err(DeemakError::WrongState)
            } else if p.len() > 0 && s.is_dir_at(p.drop_last()) {
                Ok(())
            } else {
                Err(DeemakError::PersistenceError)
            },
        }
    }
}

/// Declare the object at `path` a level. It becomes an unlocked level and
/// receives its salt if it has none; an existing salt is kept unchanged.
pub fn dev_make_level(sekai: &mut Sekai, path: &Vec<String>) -> (r: Result<String, DeemakError>)
    requires
        old(sekai).wf(),
    ensures
        final(sekai).wf(),
        old(sekai).same_shape(*final(sekai)),
        final(sekai).has_restore == old(sekai).has_restore,
        final(sekai).has_save == old(sekai).has_save,
        (match res_view(r) {
            Ok(m) => make_level_outcome(*old(sekai), path.deep_view()) is Ok
                && m == "Level created successfully"@,
            Err(e) => make_level_outcome(*old(sekai), path.deep_view())
                == Err::<(), DeemakError>(e),
        }),
        r is Err ==> *final(sekai) == *old(sekai),
        r is Ok ==> {
            let p = path.deep_view();
            &&& final(sekai).prop_at(p, PropKey::Locked)
                == Some(encode_lock_spec(ObjKind::Level, false))
            &&& final(sekai).prop_at(p, PropKey::ObjSalt) is Some
            &&& (old(sekai).prop_at(p, PropKey::ObjSalt) matches Some(v) ==>
                final(sekai).prop_at(p, PropKey::ObjSalt) == Some(v))
            &&& final(sekai).prop_at(p, PropKey::DecryptMe)
                == old(sekai).prop_at(p, PropKey::DecryptMe)
            &&& final(sekai).prop_at(p, PropKey::CompareMe)
                == old(sekai).prop_at(p, PropKey::CompareMe)
            &&& forall|q: Seq<Seq<char>>, kk: PropKey| q != p ==>
                final(sekai).prop_at(q, kk) == old(sekai).prop_at(q, kk)
        },
{
    let ghost p = path.deep_view();
    if !sekai.exists_at(path) {
        return Err(DeemakError::PathInvalid);
    }
    let (kind, _locked) = match read_lock_perm(sekai, path) {
        Ok(kl) => kl,
        Err(e) => {
            return Err(e);
        }
    };
    if matches!(kind, ObjKind::Level) {
        return Err(DeemakError::WrongState);
    }
    proof {
        assert(p.len() > 0);
    }
    let parent = parent_of(path);
    if !sekai.is_dir(&parent) {
        return Err(DeemakError::PersistenceError);
    }
    let ghost before = *sekai;
    let w1 = sekai.set_prop(path, PropKey::Locked, Some(encode_lock(ObjKind::Level, false)));
    proof {
        assert(w1 is Ok);
        crate::store::lemma_same_shape_dirs(before, *sekai);
    }
    let ghost mid = *sekai;
    let w2 = ensure_salt(sekai, path);
    proof {
        assert(w2 is Ok);
        lemma_shape_trans(before, mid, *sekai);
    }
    Ok(String::from_str("Level created successfully"))
}

/// What demoting to a chest decides. An object that is already a chest is
/// reported as such without any write.
pub open spec fn make_chest_outcome(s: Sekai, p: Seq<Seq<char>>) -> Result<bool, DeemakError> {
    if !s.has_node(p) {
        Err(DeemakError::PathInvalid)
    } else {
        match lock_state_at(s, p) {
            Err(e) => Err(e),
            Ok((kind, _)) => if !(kind is Level) {
                Ok(false)
            } else if p.len() > 0 && s.is_dir_at(p.drop_last()) {
                Ok(true)
            } else {
                Err(DeemakError::PersistenceError)
            },
        }
    }
}

/// Demote the object at `path` from level to chest: both chain artifacts
/// are removed and the object becomes an unlocked chest. On an object
/// that is already a chest nothing is written.
pub fn dev_make_chest(sekai: &mut Sekai, path: &Vec<String>) -> (r: Result<String, DeemakError>)
    requires
        old(sekai).wf(),
    ensures
        final(sekai).wf(),
        old(sekai).same_shape(*final(sekai)),
        final(sekai).has_restore == old(sekai).has_restore,
        final(sekai).has_save == old(sekai).has_save,
        (match res_view(r) {
            Ok(m) => (make_chest_outcome(*old(sekai), path.deep_view()) == Ok::<bool, DeemakError>(true)
                    && m == "Chest created from level successfully"@)
                || (make_chest_outcome(*old(sekai), path.deep_view()) == Ok::<bool, DeemakError>(false)
                    && m == "Object is already a chest."@),
            Err(e) => make_chest_outcome(*old(sekai), path.deep_view())
                == Err::<bool, DeemakError>(e),
        }),
        r is Err ==> *final(sekai) == *old(sekai),
        make_chest_outcome(*old(sekai), path.deep_view()) == Ok::<bool, DeemakError>(false) ==>
            *final(sekai) == *old(sekai),
        make_chest_outcome(*old(sekai), path.deep_view()) == Ok::<bool, DeemakError>(true) ==> {
            let p = path.deep_view();
            &&& final(sekai).prop_at(p, PropKey::Locked)
                == Some(encode_lock_spec(ObjKind::Chest, false))
            &&& final(sekai).prop_at(p, PropKey::DecryptMe) is None
            &&& final(sekai).prop_at(p, PropKey::CompareMe) is None
            &&& final(sekai).prop_at(p, PropKey::ObjSalt) == old(sekai).prop_at(p, PropKey::ObjSalt)
            &&& forall|q: Seq<Seq<char>>, kk: PropKey| q != p ==>
                final(sekai).prop_at(q, kk) == old(sekai).prop_at(q, kk)
        },
{
    let ghost p = path.deep_view();
    if !sekai.exists_at(path) {
        return Err(DeemakError::PathInvalid);
    }
    let (kind, _locked) = match read_lock_perm(sekai, path) {
        Ok(kl) => kl,
        Err(e) => {
            return Err(e);
        }
    };
    if !matches!(kind, ObjKind::Level) {
        return Ok(String::from_str("Object is already a chest."));
    }
    proof {
        assert(p.len() > 0);
    }
    let parent = parent_of(path);
    if !sekai.is_dir(&parent) {
        return Err(DeemakError::PersistenceError);
    }
    let ghost before = *sekai;
    let w1 = sekai.set_prop(path, PropKey::CompareMe, None);
    proof {
        assert(w1 is Ok);
        crate::store::lemma_same_shape_dirs(before, *sekai);
    }
    let ghost s1 = *sekai;
    let w2 = sekai.set_prop(path, PropKey::DecryptMe, None);
    proof {
        assert(w2 is Ok);
        crate::store::lemma_same_shape_dirs(s1, *sekai);
        lemma_shape_trans(before, s1, *sekai);
    }
    let ghost s2 = *sekai;
    let w3 = sekai.set_prop(path, PropKey::Locked, Some(encode_lock(ObjKind::Chest, false)));
    proof {
        assert(w3 is Ok);
        lemma_shape_trans(before, s2, *sekai);
    }
    Ok(String::from_str("Chest created from level successfully"))
}

proof fn lemma_shape_trans(a: Sekai, b: Sekai, c: Sekai)
    requires
        a.same_shape(b),
        b.same_shape(c),
    ensures
        a.same_shape(c),
{
}

/// What unlocking a chest by hand decides. A chest that is not locked is
/// reported as such without any write.
pub open spec fn unlock_chest_outcome(s: Sekai, p: Seq<Seq<char>>) -> Result<bool, DeemakError> {
    if !s.has_node(p) {
        Err(DeemakError::PathInvalid)
    } else {
        match lock_state_at(s, p) {
            Err(e) => Err(e),
            Ok((kind, locked)) => if kind is Level {
                Err(DeemakError::WrongKind)
            } else if !locked {
                Ok(false)
            } else if p.len() > 0 && s.is_dir_at(p.drop_last()) {
                Ok(true)
            } else {
                Err(DeemakError::PersistenceError)
            },
        }
    }
}

/// Unlock the chest at `path` by operator fiat: its verifier is removed
/// and it becomes an unlocked chest. Levels are refused.
pub fn dev_unlock_chest(sekai: &mut Sekai, path: &Vec<String>) -> (r: Result<String, DeemakError>)
    requires
        old(sekai).wf(),
    ensures
        final(sekai).wf(),
        old(sekai).same_shape(*final(sekai)),
        final(sekai).has_restore == old(sekai).has_restore,
        final(sekai).has_save == old(sekai).has_save,
        (match res_view(r) {
            Ok(m) => (unlock_chest_outcome(*old(sekai), path.deep_view()) == Ok::<bool, DeemakError>(true)
                    && m == "Chest "@ + display_path_spec(path.deep_view()) + " unlocked successfully."@)
                || (unlock_chest_outcome(*old(sekai), path.deep_view()) == Ok::<bool, DeemakError>(false)
                    && m == "Chest "@ + display_path_spec(path.deep_view()) + " is already unlocked."@),
            Err(e) => unlock_chest_outcome(*old(sekai), path.deep_view())
                == Err::<bool, DeemakError>(e),
        }),
        r is Err ==> *final(sekai) == *old(sekai),
        unlock_chest_outcome(*old(sekai), path.deep_view()) == Ok::<bool, DeemakError>(false) ==>
            *final(sekai) == *old(sekai),
        unlock_chest_outcome(*old(sekai), path.deep_view()) == Ok::<bool, DeemakError>(true) ==> {
            let p = path.deep_view();
            &&& final(sekai).prop_at(p, PropKey::Locked)
                == Some(encode_lock_spec(ObjKind::Chest, false))
            &&& final(sekai).prop_at(p, PropKey::CompareMe) is None
            &&& final(sekai).prop_at(p, PropKey::ObjSalt) == old(sekai).prop_at(p, PropKey::ObjSalt)
            &&& final(sekai).prop_at(p, PropKey::DecryptMe)
                == old(sekai).prop_at(p, PropKey::DecryptMe)
            &&& forall|q: Seq<Seq<char>>, kk: PropKey| q != p ==>
                final(sekai).prop_at(q, kk) == old(sekai).prop_at(q, kk)
        },
{
    let ghost p = path.deep_view();
    if !sekai.exists_at(path) {
        return Err(DeemakError::PathInvalid);
    }
    let (kind, locked) = match read_lock_perm(sekai, path) {
        Ok(kl) => kl,
        Err(e) => {
            return Err(e);
        }
    };
    if matches!(kind, ObjKind::Level) {
        return Err(DeemakError::WrongKind);
    }
    let shown = display_path(path);
    if !locked {
        let mut m = String::from_str("Chest ");
        m.append(shown.as_str());
        m.append(" is already unlocked.");
        return Ok(m);
    }
    proof {
        assert(p.len() > 0);
    }
    let parent = parent_of(path);
    if !sekai.is_dir(&parent) {
        return Err(DeemakError::PersistenceError);
    }
    let ghost before = *sekai;
    let w1 = sekai.set_prop(path, PropKey::CompareMe, None);
    proof {
        assert(w1 is Ok);
        crate::store::lemma_same_shape_dirs(before, *sekai);
    }
    let ghost s1 = *sekai;
    let w2 = sekai.set_prop(path, PropKey::Locked, Some(encode_lock(ObjKind::Chest, false)));
    proof {
        assert(w2 is Ok);
        lemma_shape_trans(before, s1, *sekai);
    }
    let mut m = String::from_str("Chest ");
    m.append(shown.as_str());
    m.append(" unlocked successfully.");
    Ok(m)
}

/// The structural error that stops a chest lock before anything is
/// computed, if there is one.
pub open spec fn lock_chest_precheck(s: Sekai, p: Seq<Seq<char>>) -> Option<DeemakError> {
    if !s.has_node(p) {
        Some(DeemakError::PathInvalid)
    } else {
        match lock_state_at(s, p) {
            Err(e) => Some(e),
            Ok((kind, _)) => if kind is Level {
                Some(DeemakError::WrongKind)
            } else if p.len() > 0 && s.is_dir_at(p.drop_last()) {
                None
            } else {
                Some(DeemakError::PersistenceError)
            },
        }
    }
}

/// Lock the chest at `path` under a solution: the chest receives its salt
/// if it has none, commits the salted digest of the solution as its
/// verifier, and becomes a locked chest. A player then unlocks it by
/// submitting the solution as the flag.
pub fn dev_lock_chest(sekai: &mut Sekai, path: &Vec<String>, solution: &str)
    -> (r: Result<String, DeemakError>)
    requires
        old(sekai).wf(),
    ensures
        final(sekai).wf(),
        old(sekai).same_shape(*final(sekai)),
        final(sekai).has_restore == old(sekai).has_restore,
        final(sekai).has_save == old(sekai).has_save,
        (match lock_chest_precheck(*old(sekai), path.deep_view()) {
            Some(e) => r == Err::<String, DeemakError>(e) && *final(sekai) == *old(sekai),
            None => {
                let p = path.deep_view();
                let salt = final(sekai).prop_at(p, PropKey::ObjSalt)->Some_0;
                &&& final(sekai).prop_at(p, PropKey::ObjSalt) is Some
                &&& (old(sekai).prop_at(p, PropKey::ObjSalt) matches Some(v) ==> salt == v)
                &&& (r is Ok <==> chest_verifier(p.last(), salt, solution@) is Some)
                &&& (r matches Ok(m) ==>
                    m@ == "Chest "@ + display_path_spec(p) + " locked successfully."@
                    && final(sekai).prop_at(p, PropKey::CompareMe)
                        == chest_verifier(p.last(), salt, solution@)
                    && final(sekai).prop_at(p, PropKey::Locked)
                        == Some(encode_lock_spec(ObjKind::Chest, true))
                    && final(sekai).prop_at(p, PropKey::DecryptMe)
                        == old(sekai).prop_at(p, PropKey::DecryptMe))
                &&& (r matches Err(e) ==> e == DeemakError::CryptoFormatError
                    && (forall|kk: PropKey| kk != PropKey::ObjSalt ==>
                        final(sekai).prop_at(p, kk) == old(sekai).prop_at(p, kk)))
                &&& forall|q: Seq<Seq<char>>, kk: PropKey| q != p ==>
                    final(sekai).prop_at(q, kk) == old(sekai).prop_at(q, kk)
            }
        }),
{
    let ghost p = path.deep_view();
    if !sekai.exists_at(path) {
        return Err(DeemakError::PathInvalid);
    }
    let (kind, _locked) = match read_lock_perm(sekai, path) {
        Ok(kl) => kl,
        Err(e) => {
            return Err(e);
        }
    };
    if matches!(kind, ObjKind::Level) {
        return Err(DeemakError::WrongKind);
    }
    proof {
        assert(p.len() > 0);
    }
    let parent = parent_of(path);
    if !sekai.is_dir(&parent) {
        return Err(DeemakError::PersistenceError);
    }
    let ghost before = *sekai;
    let salt = match ensure_salt(sekai, path) {
        Ok(s) => s,
        Err(e) => {
            return Err(e);
        }
    };
    proof {
        crate::store::lemma_same_shape_dirs(before, *sekai);
    }
    proof {
        assert(p.len() > 0);
        assert(path@[path@.len() - 1]@ == p.last());
    }
    let name = path[path.len() - 1].clone();
    let digest = match salted_hash(salt.as_str(), solution) {
        Ok(h) => h,
        Err(e) => {
            return Err(e);
        }
    };
    let vkey = characterise_key(name.as_str(), digest.as_str());
    let verifier = encrypt(&vkey, digest.as_str());
    let ghost s1 = *sekai;
    let w1 = sekai.set_prop(path, PropKey::CompareMe, Some(verifier));
    proof {
        assert(w1 is Ok);
        crate::store::lemma_same_shape_dirs(s1, *sekai);
        lemma_shape_trans(before, s1, *sekai);
    }
    let ghost s2 = *sekai;
    let w2 = sekai.set_prop(path, PropKey::Locked, Some(encode_lock(ObjKind::Chest, true)));
    proof {
        assert(w2 is Ok);
        lemma_shape_trans(before, s2, *sekai);
    }
    let shown = display_path(path);
    let mut m = String::from_str("Chest ");
    m.append(shown.as_str());
    m.append(" locked successfully.");
    Ok(m)
}

/// What removing a level's chain artifacts decides.
pub open spec fn remove_level_lock_outcome(s: Sekai, p: Seq<Seq<char>>) -> Result<(), DeemakError> {
    if !s.has_node(p) {
        Err(DeemakError::PathInvalid)
    } else {
        match lock_state_at(s, p) {
            Err(e) => Err(e),
            Ok((kind, _)) => if !(kind is Level) {
                Err(DeemakError::WrongKind)
            } else if p.len() > 0 && s.is_dir_at(p.drop_last()) {
                Ok(())
            } else {
                Err(DeemakError::PersistenceError)
            },
        }
    }
}

/// Remove the chain artifacts from the level at `path`: both `decrypt_me`
/// and `compare_me` are deleted. The lock state itself is not touched.
pub fn dev_remove_level_lock(sekai: &mut Sekai, path: &Vec<String>) -> (r: Result<String, DeemakError>)
    requires
        old(sekai).wf(),
    ensures
        final(sekai).wf(),
        old(sekai).same_shape(*final(sekai)),
        final(sekai).has_restore == old(sekai).has_restore,
        final(sekai).has_save == old(sekai).has_save,
        (match res_view(r) {
            Ok(m) => remove_level_lock_outcome(*old(sekai), path.deep_view()) is Ok
                && m == "Removed level lock from "@ + display_path_spec(path.deep_view())
                    + " successfully."@,
            Err(e) => remove_level_lock_outcome(*old(sekai), path.deep_view())
                == Err::<(), DeemakError>(e),
        }),
        r is Err ==> *final(sekai) == *old(sekai),
        r is Ok ==> {
            let p = path.deep_view();
            &&& final(sekai).prop_at(p, PropKey::DecryptMe) is None
            &&& final(sekai).prop_at(p, PropKey::CompareMe) is None
            &&& final(sekai).prop_at(p, PropKey::Locked) == old(sekai).prop_at(p, PropKey::Locked)
            &&& final(sekai).prop_at(p, PropKey::ObjSalt) == old(sekai).prop_at(p, PropKey::ObjSalt)
            &&& forall|q: Seq<Seq<char>>, kk: PropKey| q != p ==>
                final(sekai).prop_at(q, kk) == old(sekai).prop_at(q, kk)
        },
{
    let ghost p = path.deep_view();
    if !sekai.exists_at(path) {
        return Err(DeemakError::PathInvalid);
    }
    let (kind, _locked) = match read_lock_perm(sekai, path) {
        Ok(kl) => kl,
        Err(e) => {
            return Err(e);
        }
    };
    if !matches!(kind, ObjKind::Level) {
        return Err(DeemakError::WrongKind);
    }
    proof {
        assert(p.len() > 0);
    }
    let parent = parent_of(path);
    if !sekai.is_dir(&parent) {
        return Err(DeemakError::PersistenceError);
    }
    let ghost before = *sekai;
    let w1 = sekai.set_prop(path, PropKey::CompareMe, None);
    proof {
        assert(w1 is Ok);
        crate::store::lemma_same_shape_dirs(before, *sekai);
    }
    let ghost s1 = *sekai;
    let w2 = sekai.set_prop(path, PropKey::DecryptMe, None);
    proof {
        assert(w2 is Ok);
        lemma_shape_trans(before, s1, *sekai);
    }
    let shown = display_path(path);
    let mut m = String::from_str("Removed level lock from ");
    m.append(shown.as_str());
    m.append(" successfully.");
    Ok(m)
}

/// What building a chain link decides: both endpoints must exist and be
/// levels, the target must already carry its salt (assigned when it was
/// declared a level), a user must be authenticated, both salts must be
/// accepted by the hash, and both records must be writable.
pub open spec fn chain_outcome(
    s: Sekai,
    p1: Seq<Seq<char>>,
    p2: Seq<Seq<char>>,
    solution: Seq<char>,
    flag: Seq<char>,
    uv: Option<(Seq<char>, Seq<char>)>,
) -> Result<(), DeemakError> {
    if !s.has_node(p1) || !s.has_node(p2) {
        Err(DeemakError::PathInvalid)
    } else {
        match (lock_state_at(s, p1), lock_state_at(s, p2)) {
            (Err(e), _) => Err(e),
            (_, Err(e)) => Err(e),
            (Ok((k1, _)), Ok((k2, _))) => if !(k1 is Level && k2 is Level) {
                Err(DeemakError::WrongKind)
            } else {
                match s.prop_at(p2, PropKey::ObjSalt) {
                    None => Err(DeemakError::NotFound),
                    Some(salt2) => if uv is None {
                        Err(DeemakError::Unauthenticated)
                    } else {
                        match chain_compare_me(
                            uv->Some_0.0, p1.last(), p2.last(), salt2, uv->Some_0.1, flag,
                        ) {
                            None => Err(DeemakError::CryptoFormatError),
                            Some(_) => if p1.len() > 0 && s.is_dir_at(p1.drop_last())
                                && p2.len() > 0 && s.is_dir_at(p2.drop_last()) {
                                Ok(())
                            } else {
                                Err(DeemakError::PersistenceError)
                            },
                        }
                    },
                }
            },
        }
    }
}

/// The chain builder: bind solving the level at `solve_from` to unlocking
/// the level at `set_lock_to`. The source commits the flag under a key
/// derived from its name and the solution; the target is locked and
/// commits the verifier the unlock engine will check — the double-salted
/// digest of the correct solver's token, reduced with the user-bound
/// target key. The chain is therefore bound to `user` at construction
/// time.
pub fn dev_create_level_lock(
    sekai: &mut Sekai,
    solve_from: &Vec<String>,
    set_lock_to: &Vec<String>,
    solution: &str,
    flag: &str,
    user: Option<&UserIdentity>,
) -> (r: Result<String, DeemakError>)
    requires
        old(sekai).wf(),
    ensures
        final(sekai).wf(),
        old(sekai).same_shape(*final(sekai)),
        final(sekai).has_restore == old(sekai).has_restore,
        final(sekai).has_save == old(sekai).has_save,
        (match res_view(r) {
            Ok(m) => chain_outcome(*old(sekai), solve_from.deep_view(), set_lock_to.deep_view(),
                solution@, flag@, user_view(user)) is Ok
                && m == "created lock successfully"@,
            Err(e) => chain_outcome(*old(sekai), solve_from.deep_view(), set_lock_to.deep_view(),
                solution@, flag@, user_view(user)) == Err::<(), DeemakError>(e),
        }),
        r is Err ==> *final(sekai) == *old(sekai),
        r is Ok ==> {
            let p1 = solve_from.deep_view();
            let p2 = set_lock_to.deep_view();
            let u = user_view(user)->Some_0.0;
            let usalt = user_view(user)->Some_0.1;
            let salt2 = old(sekai).prop_at(p2, PropKey::ObjSalt)->Some_0;
            &&& final(sekai).prop_at(p2, PropKey::Locked)
                == Some(encode_lock_spec(ObjKind::Level, true))
            &&& final(sekai).prop_at(p1, PropKey::DecryptMe)
                == Some(chain_decrypt_me(p1.last(), solution@, flag@))
            &&& final(sekai).prop_at(p2, PropKey::CompareMe)
                == chain_compare_me(u, p1.last(), p2.last(), salt2, usalt, flag@)
            &&& final(sekai).prop_at(p1, PropKey::ObjSalt) == old(sekai).prop_at(p1, PropKey::ObjSalt)
            &&& final(sekai).prop_at(p2, PropKey::ObjSalt) == old(sekai).prop_at(p2, PropKey::ObjSalt)
            &&& (p1 != p2 ==> final(sekai).prop_at(p1, PropKey::Locked)
                == old(sekai).prop_at(p1, PropKey::Locked))
            &&& (p1 != p2 ==> final(sekai).prop_at(p1, PropKey::CompareMe)
                == old(sekai).prop_at(p1, PropKey::CompareMe))
            &&& (p1 != p2 ==> final(sekai).prop_at(p2, PropKey::DecryptMe)
                == old(sekai).prop_at(p2, PropKey::DecryptMe))
            &&& forall|q: Seq<Seq<char>>, kk: PropKey| q != p1 && q != p2 ==>
                final(sekai).prop_at(q, kk) == old(sekai).prop_at(q, kk)
        },
{
    let ghost p1 = solve_from.deep_view();
    let ghost p2 = set_lock_to.deep_view();
    if !sekai.exists_at(solve_from) {
        return Err(DeemakError::PathInvalid);
    }
    if !sekai.exists_at(set_lock_to) {
        return Err(DeemakError::PathInvalid);
    }
    let (k1, _l1) = match read_lock_perm(sekai, solve_from) {
        Ok(kl) => kl,
        Err(e) => {
            return Err(e);
        }
    };
    let (k2, _l2) = match read_lock_perm(sekai, set_lock_to) {
        Ok(kl) => kl,
        Err(e) => {
            return Err(e);
        }
    };
    if !(matches!(k1, ObjKind::Level) && matches!(k2, ObjKind::Level)) {
        return Err(DeemakError::WrongKind);
    }
    let salt2 = match sekai.get_prop(set_lock_to, PropKey::ObjSalt) {
        Some(s) => s,
        None => {
            return Err(DeemakError::NotFound);
        }
    };
    let u = match user {
        Some(u) => u,
        None => {
            return Err(DeemakError::Unauthenticated);
        }
    };
    proof {
        assert(p1.len() > 0);
        assert(p2.len() > 0);
        assert(solve_from@[solve_from@.len() - 1]@ == p1.last());
        assert(set_lock_to@[set_lock_to@.len() - 1]@ == p2.last());
    }
    let level_1_name = solve_from[solve_from.len() - 1].clone();
    let level_2_name = set_lock_to[set_lock_to.len() - 1].clone();
    // The artifact a correct solver of the source will be able to decrypt.
    let dm_key = characterise_key(level_1_name.as_str(), solution);
    let decrypt_me_src = encrypt(&dm_key, flag);
    // The token that solver will carry, reduced exactly as the unlock
    // engine will reduce it against the target.
    let src_key = user_bound_key(u.username.as_str(), level_1_name.as_str());
    let placeholder = encrypt(&src_key, flag);
    let tgt_key = user_bound_key(u.username.as_str(), level_2_name.as_str());
    let intermediate = decrypt(&tgt_key, placeholder.as_str());
    let h1 = match salted_hash(salt2.as_str(), intermediate.as_str()) {
        Ok(h) => h,
        Err(e) => {
            return Err(e);
        }
    };
    let h2 = match salted_hash(u.user_salt.as_str(), h1.as_str()) {
        Ok(h) => h,
        Err(e) => {
            return Err(e);
        }
    };
    let cm_key = characterise_key(salt2.as_str(), level_2_name.as_str());
    let compare_me_tgt = encrypt(&cm_key, h2.as_str());
    let parent1 = parent_of(solve_from);
    let parent2 = parent_of(set_lock_to);
    if !sekai.is_dir(&parent1) || !sekai.is_dir(&parent2) {
        return Err(DeemakError::PersistenceError);
    }
    let ghost before = *sekai;
    let w1 = sekai.set_prop(set_lock_to, PropKey::Locked, Some(encode_lock(ObjKind::Level, true)));
    proof {
        assert(w1 is Ok);
        crate::store::lemma_same_shape_dirs(before, *sekai);
    }
    let ghost s1 = *sekai;
    let w2 = sekai.set_prop(solve_from, PropKey::DecryptMe, Some(decrypt_me_src));
    proof {
        assert(w2 is Ok);
        crate::store::lemma_same_shape_dirs(s1, *sekai);
        lemma_shape_trans(before, s1, *sekai);
    }
    let ghost s2 = *sekai;
    let w3 = sekai.set_prop(set_lock_to, PropKey::CompareMe, Some(compare_me_tgt));
    proof {
        assert(w3 is Ok);
        lemma_shape_trans(before, s2, *sekai);
    }
    Ok(String::from_str("created lock successfully"))
}

} // verus!
