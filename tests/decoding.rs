use silica::geometry::{decode_size, parse_size, tile_position, Size};
use silica::ns_archive::{
    decode_bool, decode_i32, decode_opt_string, decode_string, decode_u32, decode_u64,
    decode_uids, NsArchiveError, NsKeyedArchive,
};
use silica::value::{Dictionary, Integer, PlistValue};

fn uint(n: u64) -> PlistValue {
    let signed = if n <= i64::MAX as u64 { Some(n as i64) } else { None };
    PlistValue::Integer(Integer { signed, unsigned: Some(n) })
}

fn sint(n: i64) -> PlistValue {
    let unsigned = if n >= 0 { Some(n as u64) } else { None };
    PlistValue::Integer(Integer { signed: Some(n), unsigned })
}

fn text(s: &str) -> PlistValue {
    PlistValue::String(s.to_string())
}

fn dict(entries: Vec<(&str, PlistValue)>) -> Dictionary {
    Dictionary { entries: entries.into_iter().map(|(k, v)| (k.to_string(), v)).collect() }
}

fn archive(objects: Vec<PlistValue>) -> NsKeyedArchive {
    NsKeyedArchive { top: dict(vec![("root", PlistValue::Uid(1))]), objects }
}

#[test]
fn u32_of_two_to_the_32_is_a_mismatch() {
    let v = uint(1u64 << 32);
    assert_eq!(decode_u32(Some(&v)), Err(NsArchiveError::TypeMismatch));
    let w = uint(u32::MAX as u64);
    assert_eq!(decode_u32(Some(&w)), Ok(u32::MAX));
}

#[test]
fn i32_range_is_checked() {
    assert_eq!(decode_i32(Some(&sint(-5))), Ok(-5));
    assert_eq!(decode_i32(Some(&sint(i32::MAX as i64 + 1))), Err(NsArchiveError::TypeMismatch));
    assert_eq!(decode_i32(Some(&sint(i32::MIN as i64 - 1))), Err(NsArchiveError::TypeMismatch));
}

#[test]
fn primitive_errors() {
    assert_eq!(decode_bool(None), Err(NsArchiveError::MissingKey));
    assert_eq!(decode_bool(Some(&text("x"))), Err(NsArchiveError::TypeMismatch));
    assert_eq!(decode_bool(Some(&PlistValue::Boolean(true))), Ok(true));
    assert_eq!(decode_u64(Some(&sint(-1))), Err(NsArchiveError::TypeMismatch));
    assert_eq!(decode_u64(Some(&uint(7))), Ok(7));
}

#[test]
fn resolve_index_round_trip() {
    let nka = archive(vec![text("$null"), text("first"), uint(9)]);
    assert!(matches!(nka.resolve_index(0), Ok(None)));
    match nka.resolve_index(1) {
        Ok(Some(PlistValue::String(s))) => assert_eq!(s, "first"),
        _ => panic!("handle 1 should resolve to the string"),
    }
    match nka.resolve_index(2) {
        Ok(Some(PlistValue::Integer(i))) => assert_eq!(i.unsigned, Some(9)),
        _ => panic!("handle 2 should resolve to the integer"),
    }
    assert!(matches!(nka.resolve_index(3), Err(NsArchiveError::BadIndex)));
}

#[test]
fn decode_value_follows_handles() {
    let nka = archive(vec![text("$null"), text("named")]);
    let coder = dict(vec![
        ("direct", text("inline")),
        ("linked", PlistValue::Uid(1)),
        ("nil", PlistValue::Uid(0)),
        ("broken", PlistValue::Uid(5)),
    ]);
    assert_eq!(decode_string(nka.decode_value(&coder, "direct").unwrap()), Ok("inline".to_string()));
    assert_eq!(decode_string(nka.decode_value(&coder, "linked").unwrap()), Ok("named".to_string()));
    assert!(matches!(nka.decode_value(&coder, "nil"), Ok(None)));
    assert!(matches!(nka.decode_value(&coder, "absent"), Ok(None)));
    assert!(matches!(nka.decode_value(&coder, "broken"), Err(NsArchiveError::BadIndex)));
}

#[test]
fn optional_decoding_law() {
    assert_eq!(decode_opt_string(None), Ok(None));
    assert_eq!(decode_opt_string(Some(&text("a"))), Ok(Some("a".to_string())));
    assert_eq!(decode_opt_string(Some(&uint(1))), Err(NsArchiveError::TypeMismatch));
    assert_eq!(decode_string(Some(&uint(1))), Err(NsArchiveError::TypeMismatch));
}

#[test]
fn uid_arrays() {
    let a = PlistValue::Array(vec![PlistValue::Uid(3), PlistValue::Uid(1)]);
    assert_eq!(decode_uids(Some(&a)), Ok(vec![3, 1]));
    let b = PlistValue::Array(vec![PlistValue::Uid(3), text("x")]);
    assert_eq!(decode_uids(Some(&b)), Err(NsArchiveError::TypeMismatch));
    assert_eq!(decode_uids(None), Err(NsArchiveError::MissingKey));
}

#[test]
fn geometry_strings() {
    assert_eq!(parse_size("{64, 64}"), Some(Size { width: 64, height: 64 }));
    assert_eq!(parse_size("{100,200}"), Some(Size { width: 100, height: 200 }));
    assert_eq!(parse_size("{1,  2}"), None);
    assert_eq!(parse_size("{1 ,2}"), None);
    assert_eq!(parse_size("{,2}"), None);
    assert_eq!(parse_size("1, 2"), None);
    assert_eq!(parse_size("{4294967296, 1}"), None);
    assert_eq!(parse_size("{4294967295, 0}"), Some(Size { width: u32::MAX, height: 0 }));
    assert_eq!(decode_size(Some(&text("{a, 1}"))), Err(NsArchiveError::TypeMismatch));
    assert_eq!(decode_size(None), Err(NsArchiveError::MissingKey));
}

#[test]
fn tile_names() {
    assert_eq!(tile_position("ABC", "ABC0~0"), Ok(Some((0, 0))));
    assert_eq!(tile_position("ABC", "ABC12~3.chunk"), Ok(Some((12, 3))));
    assert_eq!(tile_position("ABC", "XYZ1~1"), Ok(None));
    assert_eq!(tile_position("ABC", "Document.archive"), Ok(None));
    assert_eq!(tile_position("ABC", "ABCx~1"), Err(NsArchiveError::TypeMismatch));
    assert_eq!(tile_position("ABC", "ABC1-1"), Err(NsArchiveError::TypeMismatch));
    assert_eq!(tile_position("ABC", "ABC"), Err(NsArchiveError::TypeMismatch));
}
