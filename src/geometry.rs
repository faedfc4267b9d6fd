use vstd::prelude::*;

use crate::ns_archive::{decode_str, spec_decode_string, NsArchiveError};
use crate::text::{find_char, find_in, spec_u32_of, starts_with, u32_of};
use crate::value::{opt_deref, PlistValue};

verus! {

/// Width and height of a pixel rectangle.
#[derive(Debug, Clone, Copy, PartialEq, Eq)]
pub struct Size {
    pub width: u32,
    pub height: u32,
}

/// The size that a geometry string `{W, H}` or `{W,H}` spells, where both
/// numbers are decimal digits that fit in 32 bits.
pub open spec fn spec_parse_size(s: Seq<char>) -> Option<Size> {
    if s.len() >= 2 && s[0] == '{' && s.last() == '}' {
        let inner = s.subrange(1, s.len() - 1);
        match find_char(inner, ',') {
            Some(k) => {
                let rest = inner.subrange(k + 1, inner.len() as int);
                let h = if rest.len() > 0 && rest[0] == ' ' {
                    rest.subrange(1, rest.len() as int)
                } else {
                    rest
                };
                match (spec_u32_of(inner.subrange(0, k)), spec_u32_of(h)) {
                    (Some(w), Some(h)) => Some(Size { width: w, height: h }),
                    _ => None,
                }
            },
            None => None,
        }
    } else {
        None
    }
}

/// Decoding a geometry string.
pub open spec fn spec_decode_size(val: Option<PlistValue>) -> Result<Size, NsArchiveError> {
    match spec_decode_string(val) {
        Ok(s) => match spec_parse_size(s) {
            Some(size) => Ok(size),
            None => Err(NsArchiveError::TypeMismatch),
        },
        Err(e) => Err(e),
    }
}

/// Parses a geometry string `{W, H}`.
pub fn parse_size(s: &str) -> (r: Option<Size>)
    ensures
        r == spec_parse_size(s@),
{
    let n = s.unicode_len();
    if n < 2 || s.get_char(0) != '{' || s.get_char(n - 1) != '}' {
        return None;
    }
    let ghost inner = s@.subrange(1, n - 1);
    let k = match find_in(s, 1, n - 1, ',') {
        Some(k) => k,
        None => { return None; },
    };
    let ghost rest = inner.subrange(k - 1 + 1, inner.len() as int);
    assert(rest =~= s@.subrange(k + 1, n - 1));
    assert(inner.subrange(0, k - 1) =~= s@.subrange(1, k as int));
    let w = u32_of(s, 1, k);
    let hstart: usize = if k + 1 < n - 1 && s.get_char(k + 1) == ' ' {
        assert(rest.subrange(1, rest.len() as int) =~= s@.subrange(k + 2, n - 1));
        k + 2
    } else {
        k + 1
    };
    let h = u32_of(s, hstart, n - 1);
    match (w, h) {
        (Some(w), Some(h)) => Some(Size { width: w, height: h }),
        _ => None,
    }
}

/// Decodes a geometry string into a size.
pub fn decode_size(val: Option<&PlistValue>) -> (r: Result<Size, NsArchiveError>)
    ensures
        r == spec_decode_size(opt_deref(val)),
{
    let s = decode_str(val)?;
    match parse_size(s) {
        Some(size) => Ok(size),
        None => Err(NsArchiveError::TypeMismatch),
    }
}

/// Where a container member sits in a layer's tile grid.
///
/// `None` when the name does not begin with the layer's uuid. Otherwise the
/// part after the uuid, up to the first `.`, must read `col~row` in decimal
/// digits; `Some(None)` when it does not.
pub open spec fn spec_tile_position(uuid: Seq<char>, name: Seq<char>) -> Option<Option<(u32, u32)>> {
    if uuid.len() <= name.len() && name.subrange(0, uuid.len() as int) == uuid {
        let rest = name.subrange(uuid.len() as int, name.len() as int);
        let stem = match find_char(rest, '.') {
            Some(d) => rest.subrange(0, d),
            None => rest,
        };
        Some(
            match find_char(stem, '~') {
                Some(t) => match (
                    spec_u32_of(stem.subrange(0, t)),
                    spec_u32_of(stem.subrange(t + 1, stem.len() as int)),
                ) {
                    (Some(c), Some(r)) => Some((c, r)),
                    _ => None,
                },
                None => None,
            },
        )
    } else {
        None
    }
}

/// Reads the tile grid position of a container member of the layer `uuid`.
///
/// `Ok(None)` when the member belongs to another layer; `TypeMismatch` when it
/// belongs to this one but its name is malformed.
pub fn tile_position(uuid: &str, name: &str) -> (r: Result<Option<(u32, u32)>, NsArchiveError>)
    ensures
        match spec_tile_position(uuid@, name@) {
            None => r == Ok::<_, NsArchiveError>(None::<(u32, u32)>),
            Some(Some(p)) => r == Ok::<_, NsArchiveError>(Some(p)),
            Some(None) => r == Err::<Option<(u32, u32)>, _>(NsArchiveError::TypeMismatch),
        },
{
    if !starts_with(name, uuid) {
        return Ok(None);
    }
    let u = uuid.unicode_len();
    let n = name.unicode_len();
    let ghost rest = name@.subrange(u as int, n as int);
    let end: usize = match find_in(name, u, n, '.') {
        Some(d) => {
            assert(rest.subrange(0, d - u) =~= name@.subrange(u as int, d as int));
            d
        },
        None => n,
    };
    let ghost stem = name@.subrange(u as int, end as int);
    let t = match find_in(name, u, end, '~') {
        Some(t) => t,
        None => { return Err(NsArchiveError::TypeMismatch); },
    };
    assert(stem.subrange(0, t - u) =~= name@.subrange(u as int, t as int));
    assert(stem.subrange(t - u + 1, stem.len() as int) =~= name@.subrange(t + 1, end as int));
    let col = u32_of(name, u, t);
    let row = u32_of(name, t + 1, end);
    match (col, row) {
        (Some(c), Some(r)) => Ok(Some((c, r))),
        _ => Err(NsArchiveError::TypeMismatch),
    }
}

} // verus!
