//! The lock-state codec.
//!
//! The lock status of every object is persisted as exactly two characters,
//! each `0` or `1`. The canonical assignment, used by every component of the
//! protocol, is: position 0 is the kind bit (`1` = level, `0` = chest) and
//! position 1 is the locked bit (`1` = locked, `0` = unlocked). So `"00"` is
//! an unlocked chest, `"01"` a locked chest, `"10"` an unlocked level and
//! `"11"` a locked level.

use vstd::prelude::*;
use crate::errors::DeemakError;

verus! {

/// The two kinds of lockable object in the world.
#[derive(Clone, Copy, Debug, PartialEq, Eq, Structural)]
pub enum ObjKind {
    /// Gates progress via a solvable challenge; may be the source or the
    /// target of a chain link.
    Level,
    /// Unlocked directly by redeeming a flag, with no onward challenge.
    Chest,
}

/// The two-character code for a `(kind, locked)` pair.
pub open spec fn encode_lock_spec(kind: ObjKind, locked: bool) -> Seq<char> {
    seq![
        if kind is Level { '1' } else { '0' },
        if locked { '1' } else { '0' },
    ]
}

/// Whether a string is a well-formed lock-state code: exactly two
/// characters, each `0` or `1`.
pub open spec fn valid_lock_str(s: Seq<char>) -> bool {
    &&& s.len() == 2
    &&& (s[0] == '0' || s[0] == '1')
    &&& (s[1] == '0' || s[1] == '1')
}

/// The `(kind, locked)` pair a well-formed code stands for.
pub open spec fn decode_lock_spec(s: Seq<char>) -> (ObjKind, bool) {
    (if s[0] == '1' { ObjKind::Level } else { ObjKind::Chest }, s[1] == '1')
}

/// Encode a `(kind, locked)` pair as its two-character code.
pub fn encode_lock(kind: ObjKind, locked: bool) -> (r: String)
    ensures
        r@ == encode_lock_spec(kind, locked),
        valid_lock_str(r@),
{
    proof {
        reveal_strlit("11");
        reveal_strlit("10");
        reveal_strlit("01");
        reveal_strlit("00");
    }
    let s = match (kind, locked) {
        (ObjKind::Level, true) => "11",
        (ObjKind::Level, false) => "10",
        (ObjKind::Chest, true) => "01",
        (ObjKind::Chest, false) => "00",
    };
    assert(s@ =~= encode_lock_spec(kind, locked));
    String::from_str(s)
}

/// Decode a two-character lock code into its `(kind, locked)` pair.
///
/// Any string that is not exactly two characters of `0`/`1` is rejected
/// with `FormatError`.
pub fn decode_lock(s: &str) -> (r: Result<(ObjKind, bool), DeemakError>)
    ensures
        r is Ok <==> valid_lock_str(s@),
        r matches Ok(kl) ==> kl == decode_lock_spec(s@),
        r matches Err(e) ==> e == DeemakError::FormatError,
{
    if s.unicode_len() != 2 {
        return Err(DeemakError::FormatError);
    }
    let c0 = s.get_char(0);
    let c1 = s.get_char(1);
    if !(c0 == '0' || c0 == '1') {
        return Err(DeemakError::FormatError);
    }
    if !(c1 == '0' || c1 == '1') {
        return Err(DeemakError::FormatError);
    }
    let kind = if c0 == '1' { ObjKind::Level } else { ObjKind::Chest };
    Ok((kind, c1 == '1'))
}

/// Law: decoding is the inverse of encoding. Every `(kind, locked)` pair
/// encodes to a well-formed code, and decoding that code returns the pair.
pub proof fn lemma_lock_codec_round_trip(kind: ObjKind, locked: bool)
    ensures
        valid_lock_str(encode_lock_spec(kind, locked)),
        decode_lock_spec(encode_lock_spec(kind, locked)) == (kind, locked),
{
}

} // verus!
