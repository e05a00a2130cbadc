use deemak::codec::{decode_lock, encode_lock, ObjKind};
use deemak::errors::DeemakError;

#[test]
fn codec_round_trip_all_pairs() {
    let pairs = [
        (ObjKind::Level, true),
        (ObjKind::Level, false),
        (ObjKind::Chest, true),
        (ObjKind::Chest, false),
    ];
    for (kind, locked) in pairs {
        let code = encode_lock(kind, locked);
        assert_eq!(decode_lock(code.as_str()), Ok((kind, locked)));
    }
}

#[test]
fn codec_fixed_values() {
    assert_eq!(encode_lock(ObjKind::Chest, false), "00");
    assert_eq!(encode_lock(ObjKind::Chest, true), "01");
    assert_eq!(encode_lock(ObjKind::Level, false), "10");
    assert_eq!(encode_lock(ObjKind::Level, true), "11");
    assert_eq!(decode_lock("11"), Ok((ObjKind::Level, true)));
    assert_eq!(decode_lock("10"), Ok((ObjKind::Level, false)));
    assert_eq!(decode_lock("01"), Ok((ObjKind::Chest, true)));
    assert_eq!(decode_lock("00"), Ok((ObjKind::Chest, false)));
}

#[test]
fn codec_rejects_malformed() {
    for bad in ["", "1", "111", "ab", "2x", "0 ", " 1", "0", "22", "1\u{0661}"] {
        assert_eq!(decode_lock(bad), Err(DeemakError::FormatError), "input {bad:?}");
    }
}
