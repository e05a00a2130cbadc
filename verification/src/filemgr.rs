//! Managing a world handed to the shell: which operations the given world
//! file or directory allows, and the session bookkeeping around it.

use vstd::prelude::*;
use crate::logmsg::{log_line, Logger};
use crate::store::Sekai;

verus! {

/// What the shell can be asked to do with a world.
#[derive(Debug, Clone, PartialEq, Eq, Structural)]
pub enum SekaiOperation {
    /// Play the world.
    Play,
    /// Create a new world from a directory.
    Create,
    /// Restore a world from an archive file.
    Restore,
    /// Nothing: the world is not usable.
    Invalid,
}

impl SekaiOperation {
    /// Whether this operation is among the allowed ones.
    pub fn is_present(&self, set_opers: Vec<SekaiOperation>) -> (r: bool)
        ensures
            r == set_opers@.contains(*self),
    {
        let n = set_opers.len();
        let mut i: usize = 0;
        while i < n
            invariant
                i <= n,
                n == set_opers@.len(),
                forall|t: int| 0 <= t < i ==> set_opers@[t] != *self,
            decreases n - i,
        {
            if set_opers[i] == *self {
                return true;
            }
            i += 1;
        }
        false
    }

    /// The operation's name.
    pub open spec fn oper_to_string_spec(&self) -> Seq<char> {
        match self {
            SekaiOperation::Play => "Play"@,
            SekaiOperation::Create => "Create"@,
            SekaiOperation::Restore => "Restore"@,
            SekaiOperation::Invalid => "Invalid"@,
        }
    }

    /// The operation's name.
    pub fn oper_to_string(&self) -> (r: String)
        ensures
            r@ == self.oper_to_string_spec(),
    {
        match self {
            SekaiOperation::Play => String::from_str("Play"),
            SekaiOperation::Create => String::from_str("Create"),
            SekaiOperation::Restore => String::from_str("Restore"),
            SekaiOperation::Invalid => String::from_str("Invalid"),
        }
    }

    /// Record that this operation was refused.
    pub fn log_err(&self, logger: &mut Logger)
        ensures
            final(logger).dev_mode == old(logger).dev_mode,
            old(logger).dev_mode ==> final(logger).lines@.len() == old(logger).lines@.len() + 1
                && final(logger).lines@.last()@ == log_line("[ERROR] "@, "SEKAI"@,
                    self.oper_to_string_spec()
                        + " operation is not allowed. Criterion Failed."@)
                && final(logger).lines@.take(old(logger).lines@.len() as int)
                    == old(logger).lines@,
            !old(logger).dev_mode ==> *final(logger) == *old(logger),
    {
        let mut m = self.oper_to_string();
        m.append(" operation is not allowed. Criterion Failed.");
        logger.log_error("SEKAI", m.as_str());
    }
}

/// The session's handle on a world given to the shell: where it lies,
/// whether it is a directory or an archive file, whether it validated,
/// and where it is unpacked to play.
#[derive(Debug, Clone)]
pub struct DeemakSekaiMgr {
    /// The absolute location the shell was given.
    pub abs_path: String,
    /// The archive password, when one is known.
    pub password: Option<String>,
    /// Whether the location is a directory (as opposed to an archive).
    pub is_directory: bool,
    /// Whether the location validated as a world.
    pub valid_sekai: bool,
    /// Where the world is unpacked for playing.
    pub temp_location: String,
}

impl DeemakSekaiMgr {
    /// Take charge of a world at an absolute location. The caller reports
    /// what it found there: whether the location is a directory, and
    /// whether it validated.
    pub fn new(abs_path: String, password: Option<String>, is_directory: bool, valid_sekai: bool)
        -> (r: DeemakSekaiMgr)
        ensures
            r.abs_path@ == abs_path@,
            r.password == password,
            r.is_directory == is_directory,
            r.valid_sekai == valid_sekai,
            r.temp_location@ == abs_path@,
    {
        let temp = abs_path.clone();
        DeemakSekaiMgr {
            abs_path,
            password,
            is_directory,
            valid_sekai,
            temp_location: temp,
        }
    }

    /// Whether a world location is valid: an archive file must carry the
    /// world magic; a directory must validate as a world, home first and
    /// then the rest.
    pub fn check_validity(is_file: bool, magic_ok: bool, home_ok: bool, rest_ok: bool) -> (r: bool)
        ensures
            r == if is_file { magic_ok } else { home_ok && rest_ok },
    {
        if is_file {
            magic_ok
        } else {
            home_ok && rest_ok
        }
    }

    /// The operations this world allows.
    pub open spec fn oper_allowed_spec(self, dev_mode: bool) -> Seq<SekaiOperation> {
        if !self.valid_sekai {
            seq![SekaiOperation::Invalid]
        } else if self.is_directory {
            if dev_mode {
                seq![SekaiOperation::Create, SekaiOperation::Play]
            } else {
                seq![SekaiOperation::Create]
            }
        } else {
            if dev_mode {
                seq![SekaiOperation::Restore]
            } else {
                seq![SekaiOperation::Restore, SekaiOperation::Play]
            }
        }
    }

    /// Decide which operations the world allows. A directory can seed a
    /// new world, and in developer mode be played in place; an archive
    /// can be restored, and outside developer mode be played from a
    /// fresh temporary location, which the caller provides.
    pub fn oper_allowed(&mut self, dev_mode: bool, fresh_temp: String) -> (r: Vec<SekaiOperation>)
        ensures
            r@ == old(self).oper_allowed_spec(dev_mode),
            final(self).abs_path == old(self).abs_path,
            final(self).password == old(self).password,
            final(self).is_directory == old(self).is_directory,
            final(self).valid_sekai == old(self).valid_sekai,
            final(self).temp_location == if old(self).valid_sekai && !old(self).is_directory
                && !dev_mode { fresh_temp } else { old(self).temp_location },
    {
        let mut allowed: Vec<SekaiOperation> = Vec::new();
        if self.valid_sekai {
            if self.is_directory {
                allowed.push(SekaiOperation::Create);
                if dev_mode {
                    allowed.push(SekaiOperation::Play);
                }
            } else {
                allowed.push(SekaiOperation::Restore);
                if !dev_mode {
                    self.temp_location = fresh_temp;
                    allowed.push(SekaiOperation::Play);
                }
            }
        } else {
            allowed.push(SekaiOperation::Invalid);
        }
        proof {
            assert(allowed@ =~= old(self).oper_allowed_spec(dev_mode));
        }
        allowed
    }
}

/// Whether the world has a restore archive to go back to.
pub fn can_restore(sekai: &Sekai) -> (r: bool)
    ensures
        r == sekai.has_restore,
{
    sekai.has_restore
}

/// Whether the world has a save archive.
pub fn can_save(sekai: &Sekai) -> (r: bool)
    ensures
        r == sekai.has_save,
{
    sekai.has_save
}

} // verus!
