//! The lock/solve/unlock protocol: the derivations shared by the chain
//! builder, the solve engine and the unlock engine, and the two
//! player-facing operations themselves.
//!
//! A chain link binds solving a source level to unlocking a target object.
//! The chain builder commits the link's flag twice: on the source, gated by
//! the solution (`decrypt_me`); on the target, gated by the flag and the
//! building user's identity (`compare_me`). The solve engine turns a
//! correct answer into a portable token; the unlock engine reduces a
//! submitted token exactly as the chain builder anticipated and compares.

use vstd::prelude::*;
use crate::codec::{encode_lock, encode_lock_spec, valid_lock_str, ObjKind};
use crate::crypto::{
    argon_digest_of, characterise_key, decrypt, decrypt_spec, encrypt, encrypt_spec, key_of,
    salted_hash,
};
use crate::errors::DeemakError;
use crate::lockperm::{ancestor_locked, any_ancestor_locked, lock_state_at, read_lock_perm};
use crate::store::{PropKey, Sekai};
use crate::strkit::{push_char, u64_to_string};

verus! {

/// The user on whose behalf a protocol operation runs: a stable username
/// and the immutable per-user base64 salt assigned at registration.
pub struct UserIdentity {
    /// The session's username.
    pub username: String,
    /// The user's base64 salt.
    pub user_salt: String,
}

/// The identity as spec values: `(username, user_salt)`.
pub open spec fn user_view(user: Option<&UserIdentity>) -> Option<(Seq<char>, Seq<char>)> {
    match user {
        Some(u) => Some((u.username@, u.user_salt@)),
        None => None,
    }
}

/// A `Result` of a message or an error, as spec values.
pub open spec fn res_view(r: Result<String, DeemakError>) -> Result<Seq<char>, DeemakError> {
    match r {
        Ok(s) => Ok(s@),
        Err(e) => Err(e),
    }
}

// ---------------------------------------------------------------------------
// The user-bound key context
// ---------------------------------------------------------------------------

/// First context of the user-bound key: the username, an underscore, and
/// the username's length in decimal.
pub open spec fn ctx_a(u: Seq<char>) -> Seq<char> {
    u.push('_') + crate::strkit::dec_str_of(u.len())
}

/// Second context of the user-bound key: the username, an underscore, and
/// an object name.
pub open spec fn ctx_b(u: Seq<char>, name: Seq<char>) -> Seq<char> {
    u.push('_') + name
}

/// The key that binds a token to a user and an object name.
pub open spec fn user_key(u: Seq<char>, name: Seq<char>) -> Seq<u8> {
    key_of(ctx_a(u), ctx_b(u, name))
}

/// Derive the user-bound key for tokens of the named object.
pub fn user_bound_key(username: &str, name: &str) -> (r: Vec<u8>)
    ensures
        r@ == user_key(username@, name@),
{
    let mut a = String::from_str(username);
    push_char(&mut a, '_');
    let l = u64_to_string(username.unicode_len() as u64);
    a.append(l.as_str());
    let mut b = String::from_str(username);
    push_char(&mut b, '_');
    b.append(name);
    proof {
        assert(a@ =~= ctx_a(username@));
        assert(b@ =~= ctx_b(username@, name@));
    }
    characterise_key(a.as_str(), b.as_str())
}

// ---------------------------------------------------------------------------
// The protocol's derivations, as spec values
// ---------------------------------------------------------------------------

/// The source artifact of a chain link: the flag, committed under the key
/// only a party who knows both the source's name and its solution can
/// derive.
pub open spec fn chain_decrypt_me(s_name: Seq<char>, solution: Seq<char>, flag: Seq<char>) -> Seq<char> {
    encrypt_spec(key_of(s_name, solution), flag)
}

/// The token a correct solver of the source will carry: the flag under the
/// solver's user-bound source key.
pub open spec fn chain_placeholder(u: Seq<char>, s_name: Seq<char>, flag: Seq<char>) -> Seq<char> {
    encrypt_spec(user_key(u, s_name), flag)
}

/// The intermediate value the chain builder commits: the correct solver's
/// token, reduced with the user-bound *target* key exactly as the unlock
/// engine will reduce a submitted token.
pub open spec fn chain_intermediate(u: Seq<char>, s_name: Seq<char>, t_name: Seq<char>, flag: Seq<char>) -> Seq<char> {
    decrypt_spec(user_key(u, t_name), chain_placeholder(u, s_name, flag))
}

/// A value hashed under the target's salt and then under the user's salt;
/// `None` when either salt is rejected.
pub open spec fn bound_digest(t_salt: Seq<char>, u_salt: Seq<char>, value: Seq<char>) -> Option<Seq<char>> {
    match argon_digest_of(t_salt, value) {
        Some(h1) => argon_digest_of(u_salt, h1),
        None => None,
    }
}

/// The target artifact of a chain link: the double-salted digest of the
/// intermediate value, committed under a key derived from the target's
/// salt and name.
pub open spec fn chain_compare_me(
    u: Seq<char>,
    s_name: Seq<char>,
    t_name: Seq<char>,
    t_salt: Seq<char>,
    u_salt: Seq<char>,
    flag: Seq<char>,
) -> Option<Seq<char>> {
    match bound_digest(t_salt, u_salt, chain_intermediate(u, s_name, t_name, flag)) {
        Some(h2) => Some(encrypt_spec(key_of(t_salt, t_name), h2)),
        None => None,
    }
}

/// What the solve engine hands back: the submitted answer personalised
/// with the user's key, used to uncover the committed flag, which is then
/// wrapped under the user-bound key of the solved level.
pub open spec fn solve_token(u: Seq<char>, level: Seq<char>, dm: Seq<char>, input: Seq<char>) -> Seq<char> {
    let candidate = decrypt_spec(key_of(u, level), input);
    let revealed = decrypt_spec(key_of(level, candidate), dm);
    encrypt_spec(user_key(u, level), revealed)
}

/// How the unlock engine reduces a submitted token for a level target.
pub open spec fn level_token_value(u: Seq<char>, t_name: Seq<char>, token: Seq<char>) -> Seq<char> {
    decrypt_spec(user_key(u, t_name), token)
}

/// The unlock engine's verdict for a level target: the token's reduced,
/// double-salted digest against the committed verifier. `None` when a salt
/// is rejected.
pub open spec fn level_token_matches(
    u: Seq<char>,
    t_name: Seq<char>,
    t_salt: Seq<char>,
    u_salt: Seq<char>,
    token: Seq<char>,
    cm: Seq<char>,
) -> Option<bool> {
    match bound_digest(t_salt, u_salt, level_token_value(u, t_name, token)) {
        Some(h2) => Some(decrypt_spec(key_of(t_salt, t_name), cm) == h2),
        None => None,
    }
}

/// The verifier a chest carries: the salted digest of its solution,
/// committed under a key derived from the chest's name and that digest.
pub open spec fn chest_verifier(name: Seq<char>, salt: Seq<char>, solution: Seq<char>) -> Option<Seq<char>> {
    match argon_digest_of(salt, solution) {
        Some(h) => Some(encrypt_spec(key_of(name, h), h)),
        None => None,
    }
}

/// The unlock engine's verdict for a chest target: the submitted flag run
/// through the chest's own commitment against the stored verifier.
pub open spec fn chest_token_matches(name: Seq<char>, salt: Seq<char>, token: Seq<char>, cm: Seq<char>) -> Option<bool> {
    match chest_verifier(name, salt, token) {
        Some(e) => Some(e == cm),
        None => None,
    }
}

// ---------------------------------------------------------------------------
// Law: a chain link built for a user is redeemed by that user's correct
// solve
// ---------------------------------------------------------------------------

/// Law: build a chain from a source level to a target under some user;
/// let that user solve the source with an answer that derives to the
/// link's solution; then the resulting token verifies against the target's
/// committed verifier.
pub proof fn lemma_chain_token_verifies(
    u: Seq<char>,
    s_name: Seq<char>,
    t_name: Seq<char>,
    t_salt: Seq<char>,
    u_salt: Seq<char>,
    solution: Seq<char>,
    flag: Seq<char>,
    input: Seq<char>,
    dm: Seq<char>,
    cm: Seq<char>,
)
    requires
        decrypt_spec(key_of(u, s_name), input) == solution,
        dm == chain_decrypt_me(s_name, solution, flag),
        chain_compare_me(u, s_name, t_name, t_salt, u_salt, flag) == Some(cm),
    ensures
        level_token_matches(u, t_name, t_salt, u_salt, solve_token(u, s_name, dm, input), cm)
            == Some(true),
{
    // The solver uncovers exactly the flag ...
    crate::crypto::lemma_cipher_round_trip(key_of(s_name, solution), flag);
    assert(solve_token(u, s_name, dm, input) == chain_placeholder(u, s_name, flag));
    // ... so the engine reduces the token to the committed intermediate ...
    assert(level_token_value(u, t_name, solve_token(u, s_name, dm, input))
        == chain_intermediate(u, s_name, t_name, flag));
    // ... whose double-salted digest is what the verifier commits.
    let h2 = bound_digest(t_salt, u_salt, chain_intermediate(u, s_name, t_name, flag))->Some_0;
    crate::crypto::lemma_cipher_round_trip(key_of(t_salt, t_name), h2);
}

// ---------------------------------------------------------------------------
// Laws over the world: a built chain is redeemable, and unlocking is not
// repeatable
// ---------------------------------------------------------------------------

/// Law: in a world the chain builder has left behind — source level
/// unlocked with its commitment, target level locked under its salt and
/// verifier, no locked ancestor over the target — the building user's
/// correct solve of the source yields a token, and submitting that token
/// unlocks the target.
pub proof fn lemma_chain_redeemable(
    s: Sekai,
    p1: Seq<Seq<char>>,
    p2: Seq<Seq<char>>,
    solution: Seq<char>,
    flag: Seq<char>,
    u: Seq<char>,
    u_salt: Seq<char>,
    t_salt: Seq<char>,
    input: Seq<char>,
)
    requires
        s.has_node(p1),
        s.has_node(p2),
        s.prop_at(p1, PropKey::Locked) == Some(encode_lock_spec(ObjKind::Level, false)),
        s.prop_at(p2, PropKey::Locked) == Some(encode_lock_spec(ObjKind::Level, true)),
        s.prop_at(p1, PropKey::DecryptMe)
            == Some(chain_decrypt_me(p1.last(), solution, flag)),
        s.prop_at(p2, PropKey::ObjSalt) == Some(t_salt),
        s.prop_at(p2, PropKey::CompareMe)
            == chain_compare_me(u, p1.last(), p2.last(), t_salt, u_salt, flag),
        chain_compare_me(u, p1.last(), p2.last(), t_salt, u_salt, flag) is Some,
        !ancestor_locked(s, p2),
        s.is_dir_at(p2.drop_last()),
        decrypt_spec(key_of(u, p1.last()), input) == solution,
    ensures
        solve_outcome(s, p1, input, Some((u, u_salt))) is Ok,
        unlock_outcome(
            s, p2, solve_outcome(s, p1, input, Some((u, u_salt)))->Ok_0, Some((u, u_salt)),
        ) == Ok::<ObjKind, DeemakError>(ObjKind::Level),
{
    let uv = Some((u, u_salt));
    let dm = chain_decrypt_me(p1.last(), solution, flag);
    assert(valid_lock_str(encode_lock_spec(ObjKind::Level, false)));
    assert(solve_outcome(s, p1, input, uv)
        == Ok::<Seq<char>, DeemakError>(solve_token(u, p1.last(), dm, input)));
    let token = solve_token(u, p1.last(), dm, input);
    let cm = chain_compare_me(u, p1.last(), p2.last(), t_salt, u_salt, flag)->Some_0;
    lemma_chain_token_verifies(
        u, p1.last(), p2.last(), t_salt, u_salt, solution, flag, input, dm, cm,
    );
    assert(level_token_matches(u, p2.last(), t_salt, u_salt, token, cm) == Some(true));
}

/// Law: unlocking an object that is already unlocked fails with
/// `WrongState`, whatever token is submitted — no verification is run.
pub proof fn lemma_unlock_not_repeatable(
    s: Sekai,
    p: Seq<Seq<char>>,
    kind: ObjKind,
    token: Seq<char>,
    u: Seq<char>,
    u_salt: Seq<char>,
)
    requires
        s.has_node(p),
        s.prop_at(p, PropKey::Locked) == Some(encode_lock_spec(kind, false)),
        !ancestor_locked(s, p),
    ensures
        unlock_outcome(s, p, token, Some((u, u_salt)))
            == Err::<ObjKind, DeemakError>(DeemakError::WrongState),
{
    assert(valid_lock_str(encode_lock_spec(kind, false)));
}

// ---------------------------------------------------------------------------
// The solve engine
// ---------------------------------------------------------------------------

/// What `solve` returns for each input: the token on success, and
/// otherwise the first applicable failure — unknown path, unreadable lock
/// state, wrong kind, a locked level, a missing user, or a level with no
/// challenge.
pub open spec fn solve_outcome(
    s: Sekai,
    p: Seq<Seq<char>>,
    input: Seq<char>,
    uv: Option<(Seq<char>, Seq<char>)>,
) -> Result<Seq<char>, DeemakError> {
    if !s.has_node(p) {
        Err(DeemakError::PathInvalid)
    } else {
        match lock_state_at(s, p) {
            Err(e) => Err(e),
            Ok((kind, locked)) => if !(kind is Level) {
                Err(DeemakError::WrongKind)
            } else if locked {
                Err(DeemakError::WrongState)
            } else if uv is None {
                Err(DeemakError::Unauthenticated)
            } else {
                match s.prop_at(p, PropKey::DecryptMe) {
                    None => Err(DeemakError::NoChallenge),
                    Some(dm) => Ok(solve_token(uv->Some_0.0, p.last(), dm, input)),
                }
            },
        }
    }
}

/// Turn a player's submitted answer for a level into the portable token.
/// Pure derivation: a wrong answer yields a token that will simply fail
/// verification at unlock time.
pub fn check_solve_input(user_input: &str, level_name: &str, decrypt_me: &str, username: &str)
    -> (r: String)
    ensures
        r@ == solve_token(username@, level_name@, decrypt_me@, user_input@),
{
    let user_inp_enc_key = characterise_key(username, level_name);
    let decrypted_user_input = decrypt(&user_inp_enc_key, user_input);
    let reveal_key = characterise_key(level_name, decrypted_user_input.as_str());
    let decrypted_decrypt_me = decrypt(&reveal_key, decrypt_me);
    let token_key = user_bound_key(username, level_name);
    encrypt(&token_key, decrypted_decrypt_me.as_str())
}

/// The solve engine: derive a token for an unlocked level. Reads only; no
/// lock state is touched, and there is no notion of a wrong answer here.
pub fn solve(sekai: &Sekai, path: &Vec<String>, user_input: &str, user: Option<&UserIdentity>)
    -> (r: Result<String, DeemakError>)
    requires
        sekai.wf(),
    ensures
        res_view(r) == solve_outcome(*sekai, path.deep_view(), user_input@, user_view(user)),
{
    let ghost p = path.deep_view();
    if !sekai.exists_at(path) {
        return Err(DeemakError::PathInvalid);
    }
    let (kind, locked) = match read_lock_perm(sekai, path) {
        Ok(kl) => kl,
        Err(e) => {
            return Err(e);
        }
    };
    if !matches!(kind, ObjKind::Level) {
        return Err(DeemakError::WrongKind);
    }
    if locked {
        return Err(DeemakError::WrongState);
    }
    let u = match user {
        Some(u) => u,
        None => {
            return Err(DeemakError::Unauthenticated);
        }
    };
    let dm = match sekai.get_prop(path, PropKey::DecryptMe) {
        Some(dm) => dm,
        None => {
            return Err(DeemakError::NoChallenge);
        }
    };
    proof {
        assert(p.len() > 0);
        assert(path@[path@.len() - 1]@ == p.last());
    }
    let level_name = &path[path.len() - 1];
    Ok(check_solve_input(user_input, level_name.as_str(), dm.as_str(), u.username.as_str()))
}

// ---------------------------------------------------------------------------
// The unlock engine
// ---------------------------------------------------------------------------

/// What `unlock` decides for each input: the unlocked object's kind on
/// success, and otherwise the first applicable failure — missing user,
/// unknown path, a locked ancestor, unreadable lock state, an object that
/// is not locked, missing salt or verifier, a rejected salt, a token that
/// does not match, or an unwritable record.
pub open spec fn unlock_outcome(
    s: Sekai,
    p: Seq<Seq<char>>,
    token: Seq<char>,
    uv: Option<(Seq<char>, Seq<char>)>,
) -> Result<ObjKind, DeemakError> {
    if uv is None {
        Err(DeemakError::Unauthenticated)
    } else if !s.has_node(p) {
        Err(DeemakError::PathInvalid)
    } else if ancestor_locked(s, p) {
        Err(DeemakError::WrongState)
    } else {
        match lock_state_at(s, p) {
            Err(e) => Err(e),
            Ok((kind, locked)) => if !locked {
                Err(DeemakError::WrongState)
            } else {
                match (s.prop_at(p, PropKey::ObjSalt), s.prop_at(p, PropKey::CompareMe)) {
                    (Some(salt), Some(cm)) => {
                        let verdict = if kind is Level {
                            level_token_matches(uv->Some_0.0, p.last(), salt, uv->Some_0.1, token, cm)
                        } else {
                            chest_token_matches(p.last(), salt, token, cm)
                        };
                        match verdict {
                            None => Err(DeemakError::CryptoFormatError),
                            Some(false) => Err(DeemakError::VerificationFailed),
                            Some(true) => if s.is_dir_at(p.drop_last()) {
                                Ok(kind)
                            } else {
                                Err(DeemakError::PersistenceError)
                            },
                        }
                    }
                    _ => Err(DeemakError::NotFound),
                }
            },
        }
    }
}

/// The message a successful unlock prints.
pub open spec fn unlock_message(kind: ObjKind, name: Seq<char>) -> Seq<char> {
    if kind is Level {
        name + " is unlocked"@
    } else {
        " Chest "@ + name + " is unlocked"@
    }
}

/// The unlock engine: consume a token against a locked object. On a match
/// the object transitions to unlocked and its verifier is removed; a
/// level's `decrypt_me` is left untouched, since it may seed further
/// chains downstream. On a mismatch the world is unchanged and the
/// failure, `VerificationFailed`, is distinguishable from every
/// structural error.
pub fn unlock(sekai: &mut Sekai, path: &Vec<String>, token: &str, user: Option<&UserIdentity>)
    -> (r: Result<String, DeemakError>)
    requires
        old(sekai).wf(),
    ensures
        final(sekai).wf(),
        old(sekai).same_shape(*final(sekai)),
        final(sekai).has_restore == old(sekai).has_restore,
        final(sekai).has_save == old(sekai).has_save,
        (match res_view(r) {
            Ok(m) => unlock_outcome(*old(sekai), path.deep_view(), token@, user_view(user))
                matches Ok(kind) && m == unlock_message(kind, path.deep_view().last()),
            Err(e) => unlock_outcome(*old(sekai), path.deep_view(), token@, user_view(user))
                == Err::<ObjKind, DeemakError>(e),
        }),
        r is Err ==> *final(sekai) == *old(sekai),
        r is Ok ==> {
            let p = path.deep_view();
            let kind = unlock_outcome(*old(sekai), p, token@, user_view(user))->Ok_0;
            &&& final(sekai).prop_at(p, PropKey::Locked) == Some(encode_lock_spec(kind, false))
            &&& final(sekai).prop_at(p, PropKey::CompareMe) is None
            &&& final(sekai).prop_at(p, PropKey::ObjSalt) == old(sekai).prop_at(p, PropKey::ObjSalt)
            &&& final(sekai).prop_at(p, PropKey::DecryptMe) == old(sekai).prop_at(p, PropKey::DecryptMe)
            &&& forall|q: Seq<Seq<char>>, kk: PropKey| q != p ==>
                final(sekai).prop_at(q, kk) == old(sekai).prop_at(q, kk)
        },
{
    let ghost p = path.deep_view();
    let u = match user {
        Some(u) => u,
        None => {
            return Err(DeemakError::Unauthenticated);
        }
    };
    if !sekai.exists_at(path) {
        return Err(DeemakError::PathInvalid);
    }
    if any_ancestor_locked(sekai, path) {
        return Err(DeemakError::WrongState);
    }
    let (kind, locked) = match read_lock_perm(sekai, path) {
        Ok(kl) => kl,
        Err(e) => {
            return Err(e);
        }
    };
    if !locked {
        return Err(DeemakError::WrongState);
    }
    let salt = match sekai.get_prop(path, PropKey::ObjSalt) {
        Some(s) => s,
        None => {
            return Err(DeemakError::NotFound);
        }
    };
    let cm = match sekai.get_prop(path, PropKey::CompareMe) {
        Some(c) => c,
        None => {
            return Err(DeemakError::NotFound);
        }
    };
    proof {
        assert(p.len() > 0);
        assert(path@[path@.len() - 1]@ == p.last());
    }
    let name = path[path.len() - 1].clone();
    let matched: bool = match kind {
        ObjKind::Level => {
            let tkey = user_bound_key(u.username.as_str(), name.as_str());
            let value = decrypt(&tkey, token);
            let h1 = match salted_hash(salt.as_str(), value.as_str()) {
                Ok(h) => h,
                Err(e) => {
                    return Err(e);
                }
            };
            let h2 = match salted_hash(u.user_salt.as_str(), h1.as_str()) {
                Ok(h) => h,
                Err(e) => {
                    return Err(e);
                }
            };
            let ckey = characterise_key(salt.as_str(), name.as_str());
            let cmp = decrypt(&ckey, cm.as_str());
            crate::strkit::str_eq(cmp.as_str(), h2.as_str())
        }
        ObjKind::Chest => {
            let h = match salted_hash(salt.as_str(), token) {
                Ok(h) => h,
                Err(e) => {
                    return Err(e);
                }
            };
            let ckey = characterise_key(name.as_str(), h.as_str());
            let enc = encrypt(&ckey, h.as_str());
            crate::strkit::str_eq(enc.as_str(), cm.as_str())
        }
    };
    if !matched {
        return Err(DeemakError::VerificationFailed);
    }
    let parent = crate::store::parent_of(path);
    if !sekai.is_dir(&parent) {
        proof {
            assert(!old(sekai).is_dir_at(p.drop_last()));
        }
        return Err(DeemakError::PersistenceError);
    }
    let ghost before = *sekai;
    let code = encode_lock(kind, false);
    let w1 = sekai.set_prop(path, PropKey::Locked, Some(code));
    proof {
        assert(w1 is Ok);
        crate::store::lemma_same_shape_dirs(before, *sekai);
    }
    let ghost mid = *sekai;
    let w2 = sekai.set_prop(path, PropKey::CompareMe, None);
    proof {
        assert(w2 is Ok);
        lemma_same_shape_trans(before, mid, *sekai);
    }
    let mut m = String::new();
    match kind {
        ObjKind::Level => {
            m.append(name.as_str());
            m.append(" is unlocked");
        }
        ObjKind::Chest => {
            m.append(" Chest ");
            m.append(name.as_str());
            m.append(" is unlocked");
        }
    }
    proof {
        assert(m@ == unlock_message(kind, p.last()));
        assert(unlock_outcome(before, p, token@, user_view(user)) == Ok::<ObjKind, DeemakError>(kind));
    }
    Ok(m)
}

/// Shape agreement is transitive.
proof fn lemma_same_shape_trans(a: Sekai, b: Sekai, c: Sekai)
    requires
        a.same_shape(b),
        b.same_shape(c),
    ensures
        a.same_shape(c),
{
}

} // verus!
