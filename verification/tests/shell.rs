use deemak::auth::AuthResponse;
use deemak::commands::{dev, dev_info, dev_lock, get_command_help, help};
use deemak::config::DeemakConfig;
use deemak::errors::DeemakError;
use deemak::filemgr::{can_restore, can_save, DeemakSekaiMgr, SekaiOperation};
use deemak::findroot::{check_home, get_home};
use deemak::lockperm::{display_path, operation_locked_perm};
use deemak::logmsg::{debug_mode, log_cleanup_success, log_cleanup_warning, log_result, Logger};
use deemak::printbuf::{deemak_clear, init_output_lines, print_deemak, print_deemak_extend};
use deemak::protocol::UserIdentity;
use deemak::store::{DirInfo, Node, ObjectEntry, ObjectProps, PropKey, Sekai};
use deemak::validsekai::{check_dir_info_exists_valid, validate_or_create_sekai};

fn entry(name: &str, locked: Option<&str>) -> ObjectEntry {
    ObjectEntry {
        name: name.to_string(),
        props: ObjectProps {
            locked: locked.map(|s| s.to_string()),
            obj_salt: None,
            decrypt_me: None,
            compare_me: None,
        },
    }
}

fn node(path: &[&str], is_dir: bool, location: &str, objects: Vec<ObjectEntry>) -> Node {
    Node {
        path: path.iter().map(|s| s.to_string()).collect(),
        is_dir,
        info: DirInfo {
            location: location.to_string(),
            about: "somewhere".to_string(),
            objects,
        },
    }
}

fn path(segments: &[&str]) -> Vec<String> {
    segments.iter().map(|s| s.to_string()).collect()
}

fn world() -> Sekai {
    Sekai {
        nodes: vec![
            node(&[], true, "HOME", vec![entry("L1", Some("00")), entry("box", Some("01"))]),
            node(&["L1"], true, "", vec![]),
            node(&["box"], true, "", vec![]),
        ],
        has_restore: true,
        has_save: false,
    }
}

#[test]
fn help_texts() {
    assert_eq!(
        get_command_help("go"),
        Some("go <directory>: Changes the current directory to the specified directory.")
    );
    assert_eq!(
        get_command_help("no_such_cmd"),
        Some("No help available for this command. Check if the command is valid.")
    );
    assert!(help("").contains("Welcome to DBD Deemak Help"));
    assert!(help("solve").contains("solve <level>"));
    assert!(help("unknown").contains("No help available"));
}

#[test]
fn dev_dispatch_and_info() {
    let mut sekai = world();
    let user = UserIdentity {
        username: "alice".to_string(),
        user_salt: "YWxpY2VzYWx0MDAwMDE".to_string(),
    };
    let root = path(&[]);
    assert_eq!(dev(&mut sekai, &Vec::new(), &root, "", "", Some(&user)), "Command not found");
    assert_eq!(
        dev(&mut sekai, &path(&["paint"]), &root, "", "", Some(&user)),
        "Invalid dev command"
    );
    // dev info reads and writes the current directory's metadata.
    assert_eq!(dev_info(&mut sekai, &path(&["-r", "-a"]), &root), Ok("somewhere".to_string()));
    assert_eq!(dev_info(&mut sekai, &path(&["-r", "-l"]), &root), Ok("HOME".to_string()));
    assert_eq!(
        dev_info(&mut sekai, &path(&["-w", "-a", "a", "new", "about"]), &root),
        Ok("About updated successfully.".to_string())
    );
    assert_eq!(dev_info(&mut sekai, &path(&["-r", "-a"]), &root), Ok("a new about".to_string()));
    assert_eq!(
        dev_info(&mut sekai, &path(&["-w", "-l", "x"]), &root),
        Err("Cannot write to location field.".to_string())
    );
    // dev lock dispatches to the lock operations.
    assert_eq!(
        dev_lock(&mut sekai, &path(&["-t", "-l", "L1"]), &root, "", "", Some(&user)),
        Ok("Level created successfully".to_string())
    );
    assert_eq!(
        dev_lock(&mut sekai, &path(&["-t"]), &root, "", "", Some(&user)),
        Err("dev lock: Type not provided. Expected -l for level or -c for chest.".to_string())
    );
    assert_eq!(
        dev_lock(&mut sekai, &path(&["-s", "-u", "box"]), &root, "", "", Some(&user)),
        Ok("Chest HOME/box unlocked successfully.".to_string())
    );
    let r = dev_lock(&mut sekai, &path(&["-s", "-l", "box"]), &root, "tulip", "", Some(&user));
    assert_eq!(r, Ok("Chest HOME/box locked successfully.".to_string()));
    assert_eq!(sekai.get_prop(&path(&["box"]), PropKey::Locked), Some("01".to_string()));
}

#[test]
fn lock_permission_gate() {
    let sekai = world();
    // An unlocked object lets the operation through.
    assert!(operation_locked_perm(&sekai, &path(&["L1"]), "read", "wait").is_ok());
    // A locked one refuses with a message naming the place.
    let err = operation_locked_perm(&sekai, &path(&["box"]), "read", "come back later")
        .expect_err("locked");
    assert_eq!(err, "read: HOME/box is locked. come back later");
    // An undetermined state lets the operation through.
    assert!(operation_locked_perm(&sekai, &path(&["missing"]), "read", "m").is_ok());
    assert_eq!(display_path(&path(&["a", "b"])), "HOME/a/b");
}

#[test]
fn world_archives_and_home() {
    let sekai = world();
    assert!(can_restore(&sekai));
    assert!(!can_save(&sekai));
    assert_eq!(check_home(&sekai, &path(&[])), Some(path(&[])));
    assert_eq!(get_home(&sekai, &path(&["L1"])), None);
    assert_eq!(check_home(&sekai, &path(&["missing"])), None);
}

#[test]
fn validation_fills_missing_locations() {
    let mut sekai = world();
    assert!(check_dir_info_exists_valid(&sekai, &path(&[])));
    assert!(!check_dir_info_exists_valid(&sekai, &path(&["L1"])));
    assert!(validate_or_create_sekai(&mut sekai, false));
    assert!(check_dir_info_exists_valid(&sekai, &path(&["L1"])));
    assert_eq!(sekai.location_at(&path(&["L1"])), Some("HOME/L1".to_string()));
    // The root's location was already set and is kept.
    assert_eq!(sekai.location_at(&path(&[])), Some("HOME".to_string()));
}

#[test]
fn sekai_operations() {
    assert_eq!(SekaiOperation::Play.oper_to_string(), "Play");
    assert_eq!(SekaiOperation::Invalid.oper_to_string(), "Invalid");
    let allowed = vec![SekaiOperation::Create, SekaiOperation::Play];
    assert!(SekaiOperation::Play.is_present(allowed.clone()));
    assert!(!SekaiOperation::Restore.is_present(allowed));

    let mut mgr = DeemakSekaiMgr::new("/worlds/one".to_string(), None, true, true);
    assert_eq!(mgr.temp_location, "/worlds/one");
    assert_eq!(
        mgr.oper_allowed(true, "/tmp/fresh".to_string()),
        vec![SekaiOperation::Create, SekaiOperation::Play]
    );
    assert_eq!(mgr.temp_location, "/worlds/one");

    let mut archive = DeemakSekaiMgr::new("/worlds/two.deemak".to_string(), None, false, true);
    assert_eq!(
        archive.oper_allowed(false, "/tmp/fresh".to_string()),
        vec![SekaiOperation::Restore, SekaiOperation::Play]
    );
    assert_eq!(archive.temp_location, "/tmp/fresh");

    let mut broken = DeemakSekaiMgr::new("/worlds/bad".to_string(), None, true, false);
    assert_eq!(
        broken.oper_allowed(false, "/tmp/fresh".to_string()),
        vec![SekaiOperation::Invalid]
    );

    assert!(DeemakSekaiMgr::check_validity(true, true, false, false));
    assert!(!DeemakSekaiMgr::check_validity(true, false, true, true));
    assert!(DeemakSekaiMgr::check_validity(false, false, true, true));
    assert!(!DeemakSekaiMgr::check_validity(false, true, true, false));
}

#[test]
fn output_buffer() {
    let mut out = init_output_lines(vec!["first".to_string()]);
    print_deemak(&mut out, "second".to_string());
    print_deemak_extend(&mut out, vec!["third".to_string(), "fourth".to_string()]);
    assert_eq!(out.lines, vec!["first", "second", "third", "fourth"]);
    deemak_clear(&mut out);
    assert!(out.lines.is_empty());
}

#[test]
fn logger_and_filtering() {
    assert!(!debug_mode(None));
    assert!(!debug_mode(Some(false)));
    assert!(debug_mode(Some(true)));

    let mut quiet = Logger::new(false);
    quiet.log_info("go", "entered /tmp/x");
    assert!(quiet.lines.is_empty());

    let mut logger = Logger::new(true);
    logger.log_debug("go", "walking /tmp/somewhere now");
    assert_eq!(logger.lines, vec!["[DEBUG] go :: walking DEEMAK_TEMP/somewhere now"]);
    logger.log_error("solve", "boom");
    assert_eq!(logger.lines[1], "[ERROR] solve :: boom");
    log_result(&mut logger, "save", Ok(()), "saved world");
    assert_eq!(logger.lines[2], "[INFO] save :: Success: saved world");
    log_result(&mut logger, "save", Err("disk full".to_string()), "saving world");
    assert_eq!(logger.lines[3], "[WARNING] save :: Failed: saving world: disk full");

    SekaiOperation::Restore.log_err(&mut logger);
    assert_eq!(
        logger.lines[4],
        "[ERROR] SEKAI :: Restore operation is not allowed. Criterion Failed."
    );

    log_cleanup_warning(&mut logger, "remove", "/tmp/deemak_x", "busy");
    assert_eq!(
        logger.lines[5],
        "[WARNING] Cleanup :: Failed to remove DEEMAK_TEMP/deemak_x: busy"
    );
    log_cleanup_success(&mut logger, "removed directory", "/tmp/deemak_x");
    assert_eq!(
        logger.lines[6],
        "[INFO] Cleanup :: Successfully removed directory DEEMAK_TEMP/deemak_x"
    );
}

#[test]
fn small_types() {
    let r = AuthResponse::new(true, "welcome".to_string());
    assert!(r.status());
    assert_eq!(r.message(), "welcome");
    let c = DeemakConfig::default();
    assert_eq!(c.font_index, 0);
    assert_eq!(DeemakError::VerificationFailed.message(), "Invalid flag. Try again.");
    assert_eq!(
        DeemakError::WrongState.message(),
        "Object is not in the required lock state"
    );
}
