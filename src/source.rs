use plist::Value as Pv;
use vstd::prelude::*;

use crate::document::{doc_decodes, ProcreateFile};
use crate::ns_archive::{spec_archive, NsArchiveError, NsKeyedArchive};
use crate::value::{Dictionary, Integer, PlistValue};

verus! {

#[verifier::external_type_specification]
#[verifier::external_body]
pub struct ExPlistValue(plist::Value);

/// The value that a property-list blob holds, or `None` when it is not one.
pub uninterp spec fn plist_parsed(bytes: Seq<u8>) -> Option<PlistValue>;

/// Relies on the variants of `plist::Value`: each becomes the same kind of
/// value here, a real as its bits, an integer in the 64-bit forms that
/// `plist::Integer::as_signed` and `as_unsigned` give, a date as `Other`.
#[verifier::external_body]
fn from_plist(v: plist::Value) -> PlistValue {
    match v {
        Pv::Array(a) => PlistValue::Array(a.into_iter().map(from_plist).collect()),
        Pv::Dictionary(d) => PlistValue::Dictionary(Dictionary {
            entries: d.into_iter().map(|(k, v)| (k, from_plist(v))).collect(),
        }),
        Pv::Boolean(b) => PlistValue::Boolean(b),
        Pv::Data(d) => PlistValue::Data(d),
        Pv::Real(r) => PlistValue::Real(r.to_bits()),
        Pv::Integer(i) => PlistValue::Integer(Integer { signed: i.as_signed(), unsigned: i.as_unsigned() }),
        Pv::String(s) => PlistValue::String(s),
        Pv::Uid(u) => PlistValue::Uid(u.get()),
        _ => PlistValue::Other,
    }
}

/// Relies on `plist::Value::from_reader`: it reads a property list of any
/// encoding, and what it reads depends on the bytes alone.
#[verifier::external_body]
fn parse_plist(bytes: &[u8]) -> (r: Option<PlistValue>)
    ensures
        r == plist_parsed(bytes@),
{
    plist::Value::from_reader(std::io::Cursor::new(bytes)).ok().map(from_plist)
}

/// What decoding a document from the bytes of its archive member yields.
pub open spec fn archive_bytes_decode(bytes: Seq<u8>, r: Result<ProcreateFile, NsArchiveError>) -> bool {
    match plist_parsed(bytes) {
        None => r == Err::<ProcreateFile, _>(NsArchiveError::Plist),
        Some(v) => match spec_archive(v) {
            None => r == Err::<ProcreateFile, _>(NsArchiveError::Plist),
            Some(a) => doc_decodes(a, r),
        },
    }
}

impl ProcreateFile {
    /// Decodes a document from the bytes of its `Document.archive` member;
    /// layers hold no raster yet.
    pub fn from_archive_bytes(bytes: &[u8]) -> (r: Result<ProcreateFile, NsArchiveError>)
        ensures
            archive_bytes_decode(bytes@, r),
            r matches Ok(d) ==> d.wf(),
    {
        let v = match parse_plist(bytes) {
            Some(v) => v,
            None => { return Err(NsArchiveError::Plist); },
        };
        let nka = NsKeyedArchive::from_value(v)?;
        ProcreateFile::from_ns(&nka)
    }
}

} // verus!
