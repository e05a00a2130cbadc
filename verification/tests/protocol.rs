use deemak::codec::ObjKind;
use deemak::devops::{dev_create_level_lock, dev_lock_chest, dev_make_chest, dev_make_level, dev_remove_level_lock, dev_unlock_chest};
use deemak::errors::DeemakError;
use deemak::lockperm::read_lock_perm;
use deemak::protocol::{solve, unlock, UserIdentity};
use deemak::store::{DirInfo, Node, ObjectEntry, ObjectProps, PropKey, Sekai};

const ALICE_SALT: &str = "YWxpY2VzYWx0MDAwMDE";
const BOB_SALT: &str = "Ym9ic2FsdDAwMDAwMDE";

fn alice() -> UserIdentity {
    UserIdentity { username: "alice".to_string(), user_salt: ALICE_SALT.to_string() }
}

fn bob() -> UserIdentity {
    UserIdentity { username: "bob".to_string(), user_salt: BOB_SALT.to_string() }
}

fn entry(name: &str, locked: Option<&str>) -> ObjectEntry {
    ObjectEntry {
        name: name.to_string(),
        props: ObjectProps {
            locked: locked.map(|s| s.to_string()),
            obj_salt: None,
            decrypt_me: None,
            compare_me: None,
        },
    }
}

fn node(path: &[&str], is_dir: bool, objects: Vec<ObjectEntry>) -> Node {
    Node {
        path: path.iter().map(|s| s.to_string()).collect(),
        is_dir,
        info: DirInfo {
            location: if path.is_empty() { "HOME".to_string() } else { String::new() },
            about: String::new(),
            objects,
        },
    }
}

fn path(segments: &[&str]) -> Vec<String> {
    segments.iter().map(|s| s.to_string()).collect()
}

/// A world with two objects `L1` and `L2` under the root, both still
/// plain chests (`"00"`).
fn base_world() -> Sekai {
    Sekai {
        nodes: vec![
            node(&[], true, vec![entry("L1", Some("00")), entry("L2", Some("00"))]),
            node(&["L1"], true, vec![]),
            node(&["L2"], true, vec![]),
        ],
        has_restore: false,
        has_save: false,
    }
}

fn locked_code(sekai: &Sekai, p: &[&str]) -> String {
    sekai.get_prop(&path(p), PropKey::Locked).expect("locked property present")
}

/// Levels `L1` (unlocked) and `L2` (locked by a chain built with solution
/// `"krishna"`, flag `"F1"`, user `"alice"`).
fn chained_world() -> Sekai {
    let mut sekai = base_world();
    dev_make_level(&mut sekai, &path(&["L1"])).expect("declare L1 a level");
    dev_make_level(&mut sekai, &path(&["L2"])).expect("declare L2 a level");
    let user = alice();
    dev_create_level_lock(&mut sekai, &path(&["L1"]), &path(&["L2"]), "krishna", "F1", Some(&user))
        .expect("chain built");
    sekai
}

#[test]
fn scenario_correct_solve_unlocks_target() {
    let mut sekai = chained_world();
    assert_eq!(locked_code(&sekai, &["L1"]), "10");
    assert_eq!(locked_code(&sekai, &["L2"]), "11");

    let user = alice();
    let token = solve(&sekai, &path(&["L1"]), "krishna", Some(&user)).expect("solve succeeds");
    assert!(!token.is_empty());

    let msg = unlock(&mut sekai, &path(&["L2"]), token.as_str(), Some(&user))
        .expect("unlock succeeds");
    assert!(msg.contains("L2 is unlocked"));
    assert_eq!(locked_code(&sekai, &["L2"]), "10");
    // The verifier is consumed; the source's challenge stays for further
    // chains.
    assert!(sekai.get_prop(&path(&["L2"]), PropKey::CompareMe).is_none());
    assert!(sekai.get_prop(&path(&["L1"]), PropKey::DecryptMe).is_some());
}

#[test]
fn scenario_wrong_answer_fails_verification() {
    let mut sekai = chained_world();
    let user = alice();
    // A wrong answer still yields some token ...
    let token = solve(&sekai, &path(&["L1"]), "wrong", Some(&user)).expect("solve never judges");
    // ... but it does not verify, and the target stays locked.
    assert_eq!(
        unlock(&mut sekai, &path(&["L2"]), token.as_str(), Some(&user)),
        Err(DeemakError::VerificationFailed)
    );
    assert_eq!(locked_code(&sekai, &["L2"]), "11");
    assert!(sekai.get_prop(&path(&["L2"]), PropKey::CompareMe).is_some());
}

#[test]
fn scenario_token_is_user_bound() {
    let mut sekai = chained_world();
    let alice = alice();
    let bob = bob();
    let token = solve(&sekai, &path(&["L1"]), "krishna", Some(&alice)).expect("solve succeeds");
    // Bob submits Alice's token: the user-bound key derivation diverges.
    assert_eq!(
        unlock(&mut sekai, &path(&["L2"]), token.as_str(), Some(&bob)),
        Err(DeemakError::VerificationFailed)
    );
    assert_eq!(locked_code(&sekai, &["L2"]), "11");
}

#[test]
fn scenario_demotion_removes_artifacts() {
    let mut sekai = chained_world();
    let user = alice();
    // Give L2 both artifacts by also chaining back from L2 to L1.
    dev_create_level_lock(&mut sekai, &path(&["L2"]), &path(&["L1"]), "sol2", "F2", Some(&user))
        .expect("reverse chain built");
    assert!(sekai.get_prop(&path(&["L2"]), PropKey::DecryptMe).is_some());
    assert!(sekai.get_prop(&path(&["L2"]), PropKey::CompareMe).is_some());

    let msg = dev_make_chest(&mut sekai, &path(&["L2"])).expect("demotion succeeds");
    assert_eq!(msg, "Chest created from level successfully");
    assert_eq!(locked_code(&sekai, &["L2"]), "00");
    assert!(sekai.get_prop(&path(&["L2"]), PropKey::DecryptMe).is_none());
    assert!(sekai.get_prop(&path(&["L2"]), PropKey::CompareMe).is_none());
    // The salt survives demotion: it is assigned once.
    assert!(sekai.get_prop(&path(&["L2"]), PropKey::ObjSalt).is_some());
}

#[test]
fn scenario_second_unlock_is_wrong_state() {
    let mut sekai = chained_world();
    let user = alice();
    let token = solve(&sekai, &path(&["L1"]), "krishna", Some(&user)).expect("solve succeeds");
    unlock(&mut sekai, &path(&["L2"]), token.as_str(), Some(&user)).expect("first unlock");
    assert_eq!(
        unlock(&mut sekai, &path(&["L2"]), token.as_str(), Some(&user)),
        Err(DeemakError::WrongState)
    );
    assert_eq!(locked_code(&sekai, &["L2"]), "10");
}

#[test]
fn chest_lock_and_unlock_round() {
    let mut sekai = base_world();
    let user = alice();
    dev_lock_chest(&mut sekai, &path(&["L1"]), "open sesame").expect("chest locked");
    assert_eq!(locked_code(&sekai, &["L1"]), "01");
    // The right flag opens the chest ...
    let msg = unlock(&mut sekai, &path(&["L1"]), "open sesame", Some(&user))
        .expect("chest unlock succeeds");
    assert!(msg.contains("Chest L1 is unlocked"));
    assert_eq!(locked_code(&sekai, &["L1"]), "00");
    assert!(sekai.get_prop(&path(&["L1"]), PropKey::CompareMe).is_none());
    // ... and the wrong flag does not.
    dev_lock_chest(&mut sekai, &path(&["L2"]), "right").expect("chest locked");
    assert_eq!(
        unlock(&mut sekai, &path(&["L2"]), "wrong", Some(&user)),
        Err(DeemakError::VerificationFailed)
    );
    assert_eq!(locked_code(&sekai, &["L2"]), "01");
}

#[test]
fn solve_error_cases() {
    let mut sekai = chained_world();
    let user = alice();
    // Unknown path.
    assert_eq!(
        solve(&sekai, &path(&["missing"]), "x", Some(&user)),
        Err(DeemakError::PathInvalid)
    );
    // A chest cannot be solved.
    let mut chest_world = base_world();
    assert_eq!(
        solve(&chest_world, &path(&["L1"]), "x", Some(&user)),
        Err(DeemakError::WrongKind)
    );
    // A locked level cannot be solved: it must first be unlocked.
    assert_eq!(
        solve(&sekai, &path(&["L2"]), "x", Some(&user)),
        Err(DeemakError::WrongState)
    );
    // No user, no solve.
    assert_eq!(solve(&sekai, &path(&["L1"]), "x", None), Err(DeemakError::Unauthenticated));
    // A level that is not the source of any chain has no challenge.
    dev_make_level(&mut chest_world, &path(&["L2"])).expect("declare L2 a level");
    assert_eq!(
        solve(&chest_world, &path(&["L2"]), "x", Some(&user)),
        Err(DeemakError::NoChallenge)
    );
    // A wrong answer is not detected at solve time.
    assert!(solve(&sekai, &path(&["L1"]), "anything at all", Some(&user)).is_ok());
    // Solving is read-only.
    assert_eq!(locked_code(&sekai, &["L1"]), "10");
    drop(sekai.get_prop(&path(&["L1"]), PropKey::DecryptMe).expect("challenge kept"));
}

#[test]
fn unlock_error_cases() {
    let mut sekai = chained_world();
    let user = alice();
    // No user.
    assert_eq!(
        unlock(&mut sekai, &path(&["L2"]), "t", None),
        Err(DeemakError::Unauthenticated)
    );
    // Unknown path.
    assert_eq!(
        unlock(&mut sekai, &path(&["missing"]), "t", Some(&user)),
        Err(DeemakError::PathInvalid)
    );
    // Not locked.
    assert_eq!(
        unlock(&mut sekai, &path(&["L1"]), "t", Some(&user)),
        Err(DeemakError::WrongState)
    );
    // Unreadable lock state.
    sekai.set_prop(&path(&["L2"]), PropKey::Locked, Some("2x".to_string())).expect("write");
    assert_eq!(
        unlock(&mut sekai, &path(&["L2"]), "t", Some(&user)),
        Err(DeemakError::FormatError)
    );
    sekai.set_prop(&path(&["L2"]), PropKey::Locked, Some("11".to_string())).expect("write");
    // A malformed stored salt is a crypto format error.
    sekai.set_prop(&path(&["L2"]), PropKey::ObjSalt, Some("ab".to_string())).expect("write");
    assert_eq!(
        unlock(&mut sekai, &path(&["L2"]), "t", Some(&user)),
        Err(DeemakError::CryptoFormatError)
    );
    // A missing salt is a structural error.
    sekai.set_prop(&path(&["L2"]), PropKey::ObjSalt, None).expect("write");
    assert_eq!(
        unlock(&mut sekai, &path(&["L2"]), "t", Some(&user)),
        Err(DeemakError::NotFound)
    );
}

#[test]
fn unlock_refuses_anything_under_a_locked_container() {
    // A locked directory `outer` with an object `inner` below it.
    let mut sekai = Sekai {
        nodes: vec![
            node(&[], true, vec![entry("outer", Some("00"))]),
            node(&["outer"], true, vec![entry("inner", Some("00"))]),
            node(&["outer", "inner"], true, vec![]),
        ],
        has_restore: false,
        has_save: false,
    };
    let user = alice();
    dev_lock_chest(&mut sekai, &path(&["outer", "inner"]), "s").expect("inner locked");
    dev_lock_chest(&mut sekai, &path(&["outer"]), "s").expect("outer locked");
    assert_eq!(
        unlock(&mut sekai, &path(&["outer", "inner"]), "s", Some(&user)),
        Err(DeemakError::WrongState)
    );
    // With the container open again, the inner chest unlocks.
    dev_unlock_chest(&mut sekai, &path(&["outer"])).expect("outer opened");
    assert!(unlock(&mut sekai, &path(&["outer", "inner"]), "s", Some(&user)).is_ok());
}

#[test]
fn chain_builder_error_cases() {
    let mut sekai = base_world();
    let user = alice();
    // Both endpoints must exist.
    assert_eq!(
        dev_create_level_lock(&mut sekai, &path(&["missing"]), &path(&["L2"]), "s", "f", Some(&user)),
        Err(DeemakError::PathInvalid)
    );
    // Both endpoints must be levels.
    assert_eq!(
        dev_create_level_lock(&mut sekai, &path(&["L1"]), &path(&["L2"]), "s", "f", Some(&user)),
        Err(DeemakError::WrongKind)
    );
    dev_make_level(&mut sekai, &path(&["L1"])).expect("declare L1 a level");
    dev_make_level(&mut sekai, &path(&["L2"])).expect("declare L2 a level");
    // The target's salt must already exist.
    sekai.set_prop(&path(&["L2"]), PropKey::ObjSalt, None).expect("write");
    assert_eq!(
        dev_create_level_lock(&mut sekai, &path(&["L1"]), &path(&["L2"]), "s", "f", Some(&user)),
        Err(DeemakError::NotFound)
    );
    sekai.set_prop(&path(&["L2"]), PropKey::ObjSalt, Some("YWxpY2VzYWx0MDAwMDE".to_string()))
        .expect("write");
    // A user must be authenticated.
    assert_eq!(
        dev_create_level_lock(&mut sekai, &path(&["L1"]), &path(&["L2"]), "s", "f", None),
        Err(DeemakError::Unauthenticated)
    );
    // And then the chain builds.
    assert!(dev_create_level_lock(&mut sekai, &path(&["L1"]), &path(&["L2"]), "s", "f", Some(&user))
        .is_ok());
}

#[test]
fn dev_level_and_removal() {
    let mut sekai = chained_world();
    // Declaring an existing level again is refused.
    assert_eq!(dev_make_level(&mut sekai, &path(&["L1"])), Err(DeemakError::WrongState));
    // Removing the chain artifacts clears both, leaving the lock state.
    let msg = dev_remove_level_lock(&mut sekai, &path(&["L2"])).expect("removal succeeds");
    assert!(msg.contains("Removed level lock from HOME/L2 successfully."));
    assert!(sekai.get_prop(&path(&["L2"]), PropKey::CompareMe).is_none());
    assert_eq!(locked_code(&sekai, &["L2"]), "11");
    // Removal is for levels only.
    let mut chests = base_world();
    assert_eq!(dev_remove_level_lock(&mut chests, &path(&["L1"])), Err(DeemakError::WrongKind));
    // A record that cannot be written is a persistence error: the
    // containing node is a file, not a directory.
    let mut odd = Sekai {
        nodes: vec![
            node(&[], true, vec![entry("f", Some("00"))]),
            node(&["f"], false, vec![entry("x", Some("00"))]),
            node(&["f", "x"], true, vec![]),
        ],
        has_restore: false,
        has_save: false,
    };
    assert_eq!(
        dev_make_level(&mut odd, &path(&["f", "x"])),
        Err(DeemakError::PersistenceError)
    );
}

#[test]
fn read_lock_perm_reports_state_and_errors() {
    let sekai = chained_world();
    assert_eq!(read_lock_perm(&sekai, &path(&["L1"])), Ok((ObjKind::Level, false)));
    assert_eq!(read_lock_perm(&sekai, &path(&["L2"])), Ok((ObjKind::Level, true)));
    assert_eq!(read_lock_perm(&sekai, &path(&["missing"])), Err(DeemakError::NotFound));
    let mut bad = base_world();
    bad.set_prop(&path(&["L1"]), PropKey::Locked, Some("xy".to_string())).expect("write");
    assert_eq!(read_lock_perm(&bad, &path(&["L1"])), Err(DeemakError::FormatError));
}
