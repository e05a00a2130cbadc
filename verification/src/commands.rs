//! The shell's command layer: help texts and the operator's `dev`
//! commands, which parse their arguments and dispatch to the verified
//! operations.

use vstd::prelude::*;
use crate::devops::{
    chain_outcome, dev_create_level_lock, dev_lock_chest, dev_make_chest, dev_make_level,
    dev_remove_level_lock, dev_unlock_chest, lock_chest_precheck, make_chest_outcome,
    make_level_outcome, remove_level_lock_outcome, unlock_chest_outcome,
};
use crate::errors::DeemakError;
use crate::lockperm::display_path_spec;
use crate::logmsg::join_sp;
use crate::nav::{resolve_path, resolve_spec, split_slash_spec};
use crate::protocol::{chest_verifier, user_view, UserIdentity};
use crate::store::{PropKey, Sekai};
use crate::strkit::{push_char, str_eq};

verus! {

/// A `Result` of two messages, as spec values.
pub open spec fn res_str_view(r: Result<String, String>) -> Result<Seq<char>, Seq<char>> {
    match r {
        Ok(s) => Ok(s@),
        Err(e) => Err(e@),
    }
}

// ---------------------------------------------------------------------------
// Help texts
// ---------------------------------------------------------------------------

/// The help text for one command; a stock answer for a command the shell
/// does not know.
pub open spec fn command_help_spec(c: Seq<char>) -> Seq<char> {
    if c == "go"@ {
        "go <directory>: Changes the current directory to the specified directory."@
    } else if c == "help"@ {
        "help [command]: Displays help for the specified command."@
    } else if c == "whereami"@ {
        "whereami: Displays the current directory."@
    } else if c == "whoami"@ {
        "whoami: Displays who you are."@
    } else if c == "exit"@ {
        "exit: Exits the program."@
    } else if c == "clear"@ {
        "clear: Clears the screen."@
    } else if c == "solve"@ {
        "solve <level>: Submit your answer for an unlocked level and obtain its flag."@
    } else if c == "unlock"@ {
        "unlock <level/chest>: Use a flag to unlock a level or chest."@
    } else {
        "No help available for this command. Check if the command is valid."@
    }
}

/// The help text for one command. Always an answer: unknown commands get
/// a stock reply.
pub fn get_command_help(command: &str) -> (r: Option<&'static str>)
    ensures
        r matches Some(t) && t@ == command_help_spec(command@),
{
    if str_eq(command, "go") {
        Some("go <directory>: Changes the current directory to the specified directory.")
    } else if str_eq(command, "help") {
        Some("help [command]: Displays help for the specified command.")
    } else if str_eq(command, "whereami") {
        Some("whereami: Displays the current directory.")
    } else if str_eq(command, "whoami") {
        Some("whoami: Displays who you are.")
    } else if str_eq(command, "exit") {
        Some("exit: Exits the program.")
    } else if str_eq(command, "clear") {
        Some("clear: Clears the screen.")
    } else if str_eq(command, "solve") {
        Some("solve <level>: Submit your answer for an unlocked level and obtain its flag.")
    } else if str_eq(command, "unlock") {
        Some("unlock <level/chest>: Use a flag to unlock a level or chest.")
    } else {
        Some("No help available for this command. Check if the command is valid.")
    }
}

/// The general help screen.
pub open spec fn help_overview_spec() -> Seq<char> {
    "Welcome to DBD Deemak Help. You can use the following commands:\n\n- whoami: Displays who you are.\n- go <directory>: Changes the current directory to the specified directory.\n- whereami: Displays where you are.\n- help: Displays this help message.\n- exit: Exits the program.\n- clear: Clears the screen.\n- solve: after completing a level, use this command to submit your answer and obtain the flag.\n- unlock: use flag to unlock levels and chests.\n- help <command>: Displays help for the specified command.\n"@
}

/// The `help` command: the overview with no argument, one command's help
/// otherwise.
pub fn help(cmd: &str) -> (r: String)
    ensures
        cmd@.len() == 0 ==> r@ == help_overview_spec(),
        cmd@.len() > 0 ==> r@ == command_help_spec(cmd@),
{
    if cmd.unicode_len() == 0 {
        String::from_str(
            "Welcome to DBD Deemak Help. You can use the following commands:\n\n- whoami: Displays who you are.\n- go <directory>: Changes the current directory to the specified directory.\n- whereami: Displays where you are.\n- help: Displays this help message.\n- exit: Exits the program.\n- clear: Clears the screen.\n- solve: after completing a level, use this command to submit your answer and obtain the flag.\n- unlock: use flag to unlock levels and chests.\n- help <command>: Displays help for the specified command.\n",
        )
    } else {
        match get_command_help(cmd) {
            Some(t) => String::from_str(t),
            None => String::from_str("No help available for this command."),
        }
    }
}

// ---------------------------------------------------------------------------
// dev info
// ---------------------------------------------------------------------------

/// What `dev_info` answers for each argument list: reading hands back the
/// current directory's description or location; writing replaces the
/// description (the location is read-only).
pub open spec fn dev_info_spec(s: Sekai, args: Seq<Seq<char>>, cur: Seq<Seq<char>>)
    -> Result<Seq<char>, Seq<char>> {
    if args.len() == 0 {
        Err("Invalid option. Use -w/--write or -r/--read."@)
    } else if args[0] == "-r"@ || args[0] == "--read"@ {
        if args.len() < 2 {
            Err("Invalid field. Use -a/--about or -l/--location."@)
        } else if args[1] == "-a"@ || args[1] == "--about"@ {
            if s.has_node(cur) {
                Ok(s.node_at(cur).info.about@)
            } else {
                Err("Failed to read the directory's metadata."@)
            }
        } else if args[1] == "-l"@ || args[1] == "--location"@ {
            if s.has_node(cur) {
                Ok(s.node_at(cur).info.location@)
            } else {
                Err("Failed to read the directory's metadata."@)
            }
        } else {
            Err("Invalid field. Use -a/--about or -l/--location."@)
        }
    } else if args[0] == "-w"@ || args[0] == "--write"@ {
        if args.len() < 2 {
            Err("Invalid field. Use -a/--about or -l/--location."@)
        } else if args[1] == "-a"@ || args[1] == "--about"@ {
            if args.len() < 3 {
                Err("No value provided for about."@)
            } else if s.has_node(cur) {
                Ok("About updated successfully."@)
            } else {
                Err("Failed to read the directory's metadata."@)
            }
        } else if args[1] == "-l"@ || args[1] == "--location"@ {
            Err("Cannot write to location field."@)
        } else {
            Err("Invalid field. Use -a/--about or -l/--location."@)
        }
    } else {
        Err("Invalid option. Use -w/--write or -r/--read."@)
    }
}

/// Whether a `dev_info` call writes the description.
pub open spec fn dev_info_writes(s: Sekai, args: Seq<Seq<char>>, cur: Seq<Seq<char>>) -> bool {
    &&& args.len() >= 3
    &&& (args[0] == "-w"@ || args[0] == "--write"@)
    &&& (args[1] == "-a"@ || args[1] == "--about"@)
    &&& s.has_node(cur)
}

/// Join arguments with single spaces, from the given index on.
#[verifier::loop_isolation(false)]
fn join_from(args: &Vec<String>, from: usize) -> (r: String)
    requires
        from < args@.len(),
    ensures
        r@ == join_sp(args.deep_view().skip(from as int)),
{
    let ghost tail = args.deep_view().skip(from as int);
    let mut out = args[from].clone();
    let n = args.len();
    let mut k: usize = from + 1;
    while k < n
        invariant
            from + 1 <= k <= n,
            out@ == join_sp(args.deep_view().subrange(from as int, k as int)),
        decreases n - k,
    {
        push_char(&mut out, ' ');
        out.append(args[k].as_str());
        proof {
            let sub = args.deep_view().subrange(from as int, k + 1 as int);
            assert(sub.drop_last() =~= args.deep_view().subrange(from as int, k as int));
            assert(sub.last() == args.deep_view()[k as int]);
            assert(out@ =~= join_sp(sub));
        }
        k += 1;
    }
    proof {
        assert(args.deep_view().subrange(from as int, n as int) =~= tail);
        assert(args.deep_view().subrange(from as int, from + 1 as int)
            =~= seq![args.deep_view()[from as int]]);
    }
    out
}

/// The operator's `dev info` command: read or write the current
/// directory's metadata.
pub fn dev_info(sekai: &mut Sekai, args: &Vec<String>, current_dir: &Vec<String>)
    -> (r: Result<String, String>)
    requires
        old(sekai).wf(),
    ensures
        final(sekai).wf(),
        final(sekai).has_restore == old(sekai).has_restore,
        final(sekai).has_save == old(sekai).has_save,
        res_str_view(r) == dev_info_spec(*old(sekai), args.deep_view(), current_dir.deep_view()),
        !dev_info_writes(*old(sekai), args.deep_view(), current_dir.deep_view()) ==>
            *final(sekai) == *old(sekai),
        dev_info_writes(*old(sekai), args.deep_view(), current_dir.deep_view()) ==> {
            let i = old(sekai).node_idx(current_dir.deep_view());
            &&& final(sekai).nodes@.len() == old(sekai).nodes@.len()
            &&& (forall|t: int| 0 <= t < old(sekai).nodes@.len() && t != i ==>
                (#[trigger] final(sekai).nodes@[t]) == old(sekai).nodes@[t])
            &&& final(sekai).nodes@[i].path == old(sekai).nodes@[i].path
            &&& final(sekai).nodes@[i].is_dir == old(sekai).nodes@[i].is_dir
            &&& final(sekai).nodes@[i].info.location == old(sekai).nodes@[i].info.location
            &&& final(sekai).nodes@[i].info.objects == old(sekai).nodes@[i].info.objects
            &&& final(sekai).nodes@[i].info.about@
                == join_sp(args.deep_view().skip(2))
        },
{
    proof {
        reveal_strlit("-r");
        reveal_strlit("--read");
        reveal_strlit("-w");
        reveal_strlit("--write");
        reveal_strlit("-a");
        reveal_strlit("--about");
        reveal_strlit("-l");
        reveal_strlit("--location");
        assert("-r"@[1] == 'r' && "-w"@[1] == 'w' && "-a"@[1] == 'a' && "-l"@[1] == 'l');
        assert("--read"@[2] == 'r' && "--write"@[2] == 'w' && "--about"@[2] == 'a'
            && "--location"@[2] == 'l');
    }
    if args.len() == 0 {
        return Err(String::from_str("Invalid option. Use -w/--write or -r/--read."));
    }
    if str_eq(args[0].as_str(), "-r") || str_eq(args[0].as_str(), "--read") {
        if args.len() < 2 {
            return Err(String::from_str("Invalid field. Use -a/--about or -l/--location."));
        }
        if str_eq(args[1].as_str(), "-a") || str_eq(args[1].as_str(), "--about") {
            return match sekai.about_at(current_dir) {
                Some(a) => Ok(a),
                None => Err(String::from_str("Failed to read the directory's metadata.")),
            };
        }
        if str_eq(args[1].as_str(), "-l") || str_eq(args[1].as_str(), "--location") {
            return match sekai.location_at(current_dir) {
                Some(l) => Ok(l),
                None => Err(String::from_str("Failed to read the directory's metadata.")),
            };
        }
        return Err(String::from_str("Invalid field. Use -a/--about or -l/--location."));
    }
    if str_eq(args[0].as_str(), "-w") || str_eq(args[0].as_str(), "--write") {
        if args.len() < 2 {
            return Err(String::from_str("Invalid field. Use -a/--about or -l/--location."));
        }
        if str_eq(args[1].as_str(), "-a") || str_eq(args[1].as_str(), "--about") {
            if args.len() < 3 {
                return Err(String::from_str("No value provided for about."));
            }
            let value = join_from(args, 2);
            return if sekai.set_about(current_dir, value) {
                Ok(String::from_str("About updated successfully."))
            } else {
                Err(String::from_str("Failed to read the directory's metadata."))
            };
        }
        if str_eq(args[1].as_str(), "-l") || str_eq(args[1].as_str(), "--location") {
            return Err(String::from_str("Cannot write to location field."));
        }
        return Err(String::from_str("Invalid field. Use -a/--about or -l/--location."));
    }
    Err(String::from_str("Invalid option. Use -w/--write or -r/--read."))
}

// ---------------------------------------------------------------------------
// dev lock
// ---------------------------------------------------------------------------

/// The failure answer for a lock operation: the command's prefix and the
/// error's description.
pub open spec fn dev_lock_err(e: DeemakError) -> Seq<char> {
    "dev lock: "@ + e.message_spec()
}

/// What `dev lock` answers for each argument list. The world it acts on
/// appears twice: as it was, which decides every structural branch, and
/// as it ends, which carries the salt a chest lock may have had to
/// assign.
pub open spec fn dev_lock_spec(
    s: Sekai,
    s_new: Sekai,
    args: Seq<Seq<char>>,
    cur: Seq<Seq<char>>,
    solution: Seq<char>,
    flag: Seq<char>,
    uv: Option<(Seq<char>, Seq<char>)>,
) -> Result<Seq<char>, Seq<char>> {
    if args.len() == 0 {
        Err("dev lock: Invalid option. Use -t, --type, -s, --status, -ll, --level-lock or -rm, --rm-level-lock"@)
    } else if args[0] == "-t"@ || args[0] == "--type"@ {
        if args.len() < 2 {
            Err("dev lock: Type not provided. Expected -l for level or -c for chest."@)
        } else if args[1] == "-l"@ || args[1] == "--level"@ {
            if args.len() < 3 {
                Err("dev lock: No path provided."@)
            } else {
                match resolve_spec(cur, split_slash_spec(args[2])) {
                    None => Err(dev_lock_err(DeemakError::PathInvalid)),
                    Some(p) => match make_level_outcome(s, p) {
                        Ok(_) => Ok("Level created successfully"@),
                        Err(e) => Err(dev_lock_err(e)),
                    },
                }
            }
        } else if args[1] == "-c"@ || args[1] == "--chest"@ {
            if args.len() < 3 {
                Err("dev lock: No path provided."@)
            } else {
                match resolve_spec(cur, split_slash_spec(args[2])) {
                    None => Err(dev_lock_err(DeemakError::PathInvalid)),
                    Some(p) => match make_chest_outcome(s, p) {
                        Ok(true) => Ok("Chest created from level successfully"@),
                        Ok(false) => Ok("Object is already a chest."@),
                        Err(e) => Err(dev_lock_err(e)),
                    },
                }
            }
        } else {
            Err("dev lock: Invalid type provided. Expected -l for level or -c for chest."@)
        }
    } else if args[0] == "-s"@ || args[0] == "--status"@ {
        if args.len() < 2 {
            Err("dev lock: Status not provided. Expected -l for lock or -u for unlock."@)
        } else if args[1] == "-l"@ || args[1] == "--lock"@ {
            if args.len() < 3 {
                Err("dev lock: No path provided."@)
            } else {
                match resolve_spec(cur, split_slash_spec(args[2])) {
                    None => Err(dev_lock_err(DeemakError::PathInvalid)),
                    Some(p) => match lock_chest_precheck(s, p) {
                        Some(e) => Err(dev_lock_err(e)),
                        None => {
                            let salt = s_new.prop_at(p, PropKey::ObjSalt)->Some_0;
                            if chest_verifier(p.last(), salt, solution) is Some {
                                Ok("Chest "@ + display_path_spec(p) + " locked successfully."@)
                            } else {
                                Err(dev_lock_err(DeemakError::CryptoFormatError))
                            }
                        },
                    },
                }
            }
        } else if args[1] == "-u"@ || args[1] == "--unlock"@ {
            if args.len() < 3 {
                Err("dev lock: No path provided."@)
            } else {
                match resolve_spec(cur, split_slash_spec(args[2])) {
                    None => Err(dev_lock_err(DeemakError::PathInvalid)),
                    Some(p) => match unlock_chest_outcome(s, p) {
                        Ok(true) => Ok("Chest "@ + display_path_spec(p) + " unlocked successfully."@),
                        Ok(false) => Ok("Chest "@ + display_path_spec(p) + " is already unlocked."@),
                        Err(e) => Err(dev_lock_err(e)),
                    },
                }
            }
        } else {
            Err("dev lock: Invalid status provided. Expected -l for lock or -u for unlock."@)
        }
    } else if args[0] == "-ll"@ || args[0] == "--level-lock"@ {
        if args.len() < 3 {
            Err("dev lock: Not enough arguments for level lock. Expected <solve_from_path> <set_lock_to_path> <solution> <flag>"@)
        } else {
            match (resolve_spec(cur, split_slash_spec(args[1])),
                   resolve_spec(cur, split_slash_spec(args[2]))) {
                (Some(p1), Some(p2)) => match chain_outcome(s, p1, p2, solution, flag, uv) {
                    Ok(_) => Ok("created lock successfully"@),
                    Err(e) => Err(dev_lock_err(e)),
                },
                _ => Err(dev_lock_err(DeemakError::PathInvalid)),
            }
        }
    } else if args[0] == "-rm"@ || args[0] == "--rm-level-lock"@ {
        if args.len() < 2 {
            Err("dev lock: Not enough arguments for removing level lock. Expected <path_to_level>"@)
        } else {
            match resolve_spec(cur, split_slash_spec(args[1])) {
                None => Err(dev_lock_err(DeemakError::PathInvalid)),
                Some(p) => match remove_level_lock_outcome(s, p) {
                    Ok(_) => Ok("Removed level lock from "@ + display_path_spec(p)
                        + " successfully."@),
                    Err(e) => Err(dev_lock_err(e)),
                },
            }
        }
    } else {
        Err("dev lock: Invalid option. Use -t, --type, -s, --status, -ll, --level-lock or -rm, --rm-level-lock"@)
    }
}

fn dev_lock_error(e: DeemakError) -> (r: String)
    ensures
        r@ == dev_lock_err(e),
{
    let mut m = String::from_str("dev lock: ");
    m.append(e.message());
    m
}

/// The operator's `dev lock` command: parse the options, resolve the
/// path arguments against the current directory, and dispatch to the
/// lock-management operation they name. The solution and flag are the
/// operator's entries, prompted by the shell before the call.
#[verifier::rlimit(100)]
pub fn dev_lock(
    sekai: &mut Sekai,
    args: &Vec<String>,
    current_dir: &Vec<String>,
    solution: &str,
    flag: &str,
    user: Option<&UserIdentity>,
) -> (r: Result<String, String>)
    requires
        old(sekai).wf(),
    ensures
        final(sekai).wf(),
        old(sekai).same_shape(*final(sekai)),
        final(sekai).has_restore == old(sekai).has_restore,
        final(sekai).has_save == old(sekai).has_save,
        res_str_view(r) == dev_lock_spec(
            *old(sekai), *final(sekai), args.deep_view(), current_dir.deep_view(),
            solution@, flag@, user_view(user),
        ),
{
    proof {
        reveal_strlit("-t");
        reveal_strlit("--type");
        reveal_strlit("-s");
        reveal_strlit("--status");
        reveal_strlit("-ll");
        reveal_strlit("--level-lock");
        reveal_strlit("-rm");
        reveal_strlit("--rm-level-lock");
        reveal_strlit("-l");
        reveal_strlit("--level");
        reveal_strlit("-c");
        reveal_strlit("--chest");
        reveal_strlit("-u");
        reveal_strlit("--unlock");
    }
    if args.len() == 0 {
        return Err(String::from_str(
            "dev lock: Invalid option. Use -t, --type, -s, --status, -ll, --level-lock or -rm, --rm-level-lock",
        ));
    }
    if str_eq(args[0].as_str(), "-t") || str_eq(args[0].as_str(), "--type") {
        if args.len() < 2 {
            return Err(String::from_str(
                "dev lock: Type not provided. Expected -l for level or -c for chest.",
            ));
        }
        if str_eq(args[1].as_str(), "-l") || str_eq(args[1].as_str(), "--level") {
            if args.len() < 3 {
                return Err(String::from_str("dev lock: No path provided."));
            }
            return match resolve_path(current_dir, args[2].as_str()) {
                None => Err(dev_lock_error(DeemakError::PathInvalid)),
                Some(p) => match dev_make_level(sekai, &p) {
                    Ok(m) => Ok(m),
                    Err(e) => Err(dev_lock_error(e)),
                },
            };
        }
        if str_eq(args[1].as_str(), "-c") || str_eq(args[1].as_str(), "--chest") {
            if args.len() < 3 {
                return Err(String::from_str("dev lock: No path provided."));
            }
            return match resolve_path(current_dir, args[2].as_str()) {
                None => Err(dev_lock_error(DeemakError::PathInvalid)),
                Some(p) => match dev_make_chest(sekai, &p) {
                    Ok(m) => Ok(m),
                    Err(e) => Err(dev_lock_error(e)),
                },
            };
        }
        return Err(String::from_str(
            "dev lock: Invalid type provided. Expected -l for level or -c for chest.",
        ));
    }
    if str_eq(args[0].as_str(), "-s") || str_eq(args[0].as_str(), "--status") {
        if args.len() < 2 {
            return Err(String::from_str(
                "dev lock: Status not provided. Expected -l for lock or -u for unlock.",
            ));
        }
        if str_eq(args[1].as_str(), "-l") || str_eq(args[1].as_str(), "--lock") {
            if args.len() < 3 {
                return Err(String::from_str("dev lock: No path provided."));
            }
            return match resolve_path(current_dir, args[2].as_str()) {
                None => Err(dev_lock_error(DeemakError::PathInvalid)),
                Some(p) => match dev_lock_chest(sekai, &p, solution) {
                    Ok(m) => Ok(m),
                    Err(e) => Err(dev_lock_error(e)),
                },
            };
        }
        if str_eq(args[1].as_str(), "-u") || str_eq(args[1].as_str(), "--unlock") {
            if args.len() < 3 {
                return Err(String::from_str("dev lock: No path provided."));
            }
            return match resolve_path(current_dir, args[2].as_str()) {
                None => Err(dev_lock_error(DeemakError::PathInvalid)),
                Some(p) => match dev_unlock_chest(sekai, &p) {
                    Ok(m) => Ok(m),
                    Err(e) => Err(dev_lock_error(e)),
                },
            };
        }
        return Err(String::from_str(
            "dev lock: Invalid status provided. Expected -l for lock or -u for unlock.",
        ));
    }
    if str_eq(args[0].as_str(), "-ll") || str_eq(args[0].as_str(), "--level-lock") {
        if args.len() < 3 {
            return Err(String::from_str(
                "dev lock: Not enough arguments for level lock. Expected <solve_from_path> <set_lock_to_path> <solution> <flag>",
            ));
        }
        let p1 = resolve_path(current_dir, args[1].as_str());
        let p2 = resolve_path(current_dir, args[2].as_str());
        return match (p1, p2) {
            (Some(p1), Some(p2)) => match dev_create_level_lock(sekai, &p1, &p2, solution, flag, user) {
                Ok(m) => Ok(m),
                Err(e) => Err(dev_lock_error(e)),
            },
            _ => Err(dev_lock_error(DeemakError::PathInvalid)),
        };
    }
    if str_eq(args[0].as_str(), "-rm") || str_eq(args[0].as_str(), "--rm-level-lock") {
        if args.len() < 2 {
            return Err(String::from_str(
                "dev lock: Not enough arguments for removing level lock. Expected <path_to_level>",
            ));
        }
        return match resolve_path(current_dir, args[1].as_str()) {
            None => Err(dev_lock_error(DeemakError::PathInvalid)),
            Some(p) => match dev_remove_level_lock(sekai, &p) {
                Ok(m) => Ok(m),
                Err(e) => Err(dev_lock_error(e)),
            },
        };
    }
    Err(String::from_str(
        "dev lock: Invalid option. Use -t, --type, -s, --status, -ll, --level-lock or -rm, --rm-level-lock",
    ))
}

// ---------------------------------------------------------------------------
// dev
// ---------------------------------------------------------------------------

/// What the `dev` command answers: its subcommands' answers, errors
/// included, flattened to one message.
pub open spec fn dev_spec(
    s: Sekai,
    s_new: Sekai,
    parts: Seq<Seq<char>>,
    cur: Seq<Seq<char>>,
    solution: Seq<char>,
    flag: Seq<char>,
    uv: Option<(Seq<char>, Seq<char>)>,
) -> Seq<char> {
    if parts.len() == 0 {
        "Command not found"@
    } else if parts[0] == "lock"@ {
        match dev_lock_spec(s, s_new, parts.skip(1), cur, solution, flag, uv) {
            Ok(m) => m,
            Err(m) => m,
        }
    } else if parts[0] == "info"@ {
        match dev_info_spec(s, parts.skip(1), cur) {
            Ok(m) => m,
            Err(m) => m,
        }
    } else {
        "Invalid dev command"@
    }
}

/// All arguments after the first.
#[verifier::loop_isolation(false)]
fn tail_of(args: &Vec<String>) -> (r: Vec<String>)
    requires
        args@.len() > 0,
    ensures
        r.deep_view() == args.deep_view().skip(1),
{
    let mut r: Vec<String> = Vec::new();
    let n = args.len();
    let mut i: usize = 1;
    while i < n
        invariant
            1 <= i <= n,
            r.deep_view() == args.deep_view().subrange(1, i as int),
        decreases n - i,
    {
        r.push(args[i].clone());
        proof {
            assert(r.deep_view() =~= args.deep_view().subrange(1, i + 1 as int));
        }
        i += 1;
    }
    proof {
        assert(args.deep_view().subrange(1, n as int) =~= args.deep_view().skip(1));
    }
    r
}

/// The operator's `dev` command: dispatch to `dev lock` or `dev info`.
pub fn dev(
    sekai: &mut Sekai,
    parts: &Vec<String>,
    current_dir: &Vec<String>,
    solution: &str,
    flag: &str,
    user: Option<&UserIdentity>,
) -> (r: String)
    requires
        old(sekai).wf(),
    ensures
        final(sekai).wf(),
        final(sekai).has_restore == old(sekai).has_restore,
        final(sekai).has_save == old(sekai).has_save,
        r@ == dev_spec(
            *old(sekai), *final(sekai), parts.deep_view(), current_dir.deep_view(),
            solution@, flag@, user_view(user),
        ),
{
    if parts.len() == 0 {
        return String::from_str("Command not found");
    }
    if str_eq(parts[0].as_str(), "lock") {
        let rest = tail_of(parts);
        return match dev_lock(sekai, &rest, current_dir, solution, flag, user) {
            Ok(m) => m,
            Err(m) => m,
        };
    }
    if str_eq(parts[0].as_str(), "info") {
        let rest = tail_of(parts);
        return match dev_info(sekai, &rest, current_dir) {
            Ok(m) => m,
            Err(m) => m,
        };
    }
    String::from_str("Invalid dev command")
}

} // verus!
