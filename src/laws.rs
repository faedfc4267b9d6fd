use vstd::prelude::*;

use crate::ns_archive::{
    spec_decode_i32, spec_decode_opt_string, spec_decode_string, spec_decode_u32, NsArchiveError,
    NsKeyedArchive,
};
use crate::value::{Integer, PlistValue};

verus! {

/// An unsigned integer wider than 32 bits does not decode as one: the
/// decoder reports `TypeMismatch` (so `2^32` is refused).
pub proof fn lemma_u32_rejects_wide(i: Integer, n: u64)
    requires
        i.unsigned == Some(n),
        n > u32::MAX,
    ensures
        spec_decode_u32(Some(PlistValue::Integer(i))) == Err::<u32, _>(NsArchiveError::TypeMismatch),
{
}

/// A signed integer outside the 32-bit range does not decode as one.
pub proof fn lemma_i32_rejects_wide(i: Integer, n: i64)
    requires
        i.signed == Some(n),
        n < i32::MIN || n > i32::MAX,
    ensures
        spec_decode_i32(Some(PlistValue::Integer(i))) == Err::<i32, _>(NsArchiveError::TypeMismatch),
{
}

/// Resolving a handle: `0` is nil, and any other handle within the pool is
/// the object stored at that index.
pub proof fn lemma_resolve_round_trip(nka: NsKeyedArchive, u: int)
    requires
        0 < u < nka.objects@.len(),
    ensures
        nka.spec_resolve(u) == Ok::<_, NsArchiveError>(Some(nka.objects@[u])),
        nka.spec_resolve(0) == Ok::<_, NsArchiveError>(None::<PlistValue>),
{
}

/// Decoding an optional string: an absent value is `None`; a present one
/// decodes exactly as a required string would.
pub proof fn lemma_optional_decoding(val: Option<PlistValue>)
    ensures
        val.is_none() ==> spec_decode_opt_string(val) == Ok::<_, NsArchiveError>(None::<Seq<char>>),
        val matches Some(v) ==> match spec_decode_string(Some(v)) {
            Ok(s) => spec_decode_opt_string(val) == Ok::<_, NsArchiveError>(Some(s)),
            Err(e) => spec_decode_opt_string(val) == Err::<Option<Seq<char>>, _>(e),
        },
{
}

} // verus!
