use vstd::prelude::*;

use crate::value::{opt_deref, Dictionary, PlistValue};

verus! {

/// Why decoding a document failed.
#[derive(Debug, Clone, Copy, PartialEq, Eq)]
pub enum NsArchiveError {
    /// A handle points outside the object pool, or is nil where an object is needed.
    BadIndex,
    /// A required key is absent or resolves to nil.
    MissingKey,
    /// A value has the wrong shape or does not fit its target.
    TypeMismatch,
    /// The container could not be opened or read.
    Io,
    /// The archive blob is not a keyed-archive property list.
    Plist,
    /// A tile did not decompress to its expected size.
    Decompress,
}

/// A keyed archive: a top dictionary and a pool of objects addressed by handle.
#[derive(Debug)]
pub struct NsKeyedArchive {
    pub top: Dictionary,
    pub objects: Vec<PlistValue>,
}

/// What reading a property list as a keyed archive yields.
pub open spec fn spec_archive(v: PlistValue) -> Option<NsKeyedArchive> {
    match v {
        PlistValue::Dictionary(d) => match (d.spec_get("$top"@), d.spec_get("$objects"@)) {
            (Some(PlistValue::Dictionary(top)), Some(PlistValue::Array(objects))) => Some(NsKeyedArchive { top, objects }),
            _ => None,
        },
        _ => None,
    }
}

impl NsKeyedArchive {
    /// Reads a property-list value as a keyed archive: a dictionary with a
    /// dictionary under `$top` and an array under `$objects`.
    pub fn from_value(v: PlistValue) -> (r: Result<NsKeyedArchive, NsArchiveError>)
        ensures
            match r {
                Ok(a) => spec_archive(v) == Some(a),
                Err(e) => e == NsArchiveError::Plist && spec_archive(v).is_none(),
            },
    {
        match v {
            PlistValue::Dictionary(d) => {
                let pt = d.position("$top");
                let po = d.position("$objects");
                match (pt, po) {
                    (Some(it), Some(io)) => {
                        proof {
                            reveal_strlit("$top");
                            reveal_strlit("$objects");
                            assert("$top"@.len() != "$objects"@.len());
                        }
                        let mut entries = d.entries;
                        let (first, second) = if it < io {
                            let (_, o) = entries.remove(io);
                            let (_, t) = entries.remove(it);
                            (t, o)
                        } else {
                            let (_, t) = entries.remove(it);
                            let (_, o) = entries.remove(io);
                            (t, o)
                        };
                        match (first, second) {
                            (PlistValue::Dictionary(top), PlistValue::Array(objects)) => {
                                Ok(NsKeyedArchive { top, objects })
                            },
                            _ => Err(NsArchiveError::Plist),
                        }
                    },
                    _ => Err(NsArchiveError::Plist),
                }
            },
            _ => Err(NsArchiveError::Plist),
        }
    }
}

impl NsKeyedArchive {
    /// What handle `idx` denotes: nil for 0, else the pooled object.
    pub open spec fn spec_resolve(&self, idx: int) -> Result<Option<PlistValue>, NsArchiveError> {
        if idx == 0 {
            Ok(None)
        } else if idx < self.objects@.len() {
            Ok(Some(self.objects@[idx]))
        } else {
            Err(NsArchiveError::BadIndex)
        }
    }

    /// What `coder[key]` reads as: a handle is followed, any other value is itself.
    pub open spec fn spec_decode_value(&self, coder: Dictionary, key: Seq<char>) -> Result<
        Option<PlistValue>,
        NsArchiveError,
    > {
        match coder.spec_get(key) {
            Some(PlistValue::Uid(u)) => self.spec_resolve(u as int),
            other => Ok(other),
        }
    }

    /// Resolves a handle into the object pool.
    pub fn resolve_index(&self, idx: usize) -> (r: Result<Option<&PlistValue>, NsArchiveError>)
        ensures
            res_deref(r) == self.spec_resolve(idx as int),
    {
        if idx == 0 {
            Ok(None)
        } else if idx < self.objects.len() {
            Ok(Some(&self.objects[idx]))
        } else {
            Err(NsArchiveError::BadIndex)
        }
    }

    /// Reads `coder[key]`, following a handle into the pool.
    pub fn decode_value<'a>(&'a self, coder: &'a Dictionary, key: &str) -> (r: Result<
        Option<&'a PlistValue>,
        NsArchiveError,
    >)
        ensures
            res_deref(r) == self.spec_decode_value(*coder, key@),
    {
        match coder.get(key) {
            Some(PlistValue::Uid(uid)) => {
                if *uid <= usize::MAX as u64 {
                    self.resolve_index(*uid as usize)
                } else {
                    let n = self.objects.len();
                    assert(n < *uid);
                    Err(NsArchiveError::BadIndex)
                }
            },
            value => Ok(value),
        }
    }
}

/// An optional-reference result seen as an optional-value result.
pub open spec fn res_deref(r: Result<Option<&PlistValue>, NsArchiveError>) -> Result<
    Option<PlistValue>,
    NsArchiveError,
> {
    match r {
        Ok(o) => Ok(opt_deref(o)),
        Err(e) => Err(e),
    }
}

/// The value a decoder reads: absent is `MissingKey`.
pub open spec fn required(val: Option<PlistValue>) -> Result<PlistValue, NsArchiveError> {
    match val {
        Some(v) => Ok(v),
        None => Err(NsArchiveError::MissingKey),
    }
}

/// Decoding a boolean.
pub open spec fn spec_decode_bool(val: Option<PlistValue>) -> Result<bool, NsArchiveError> {
    match required(val) {
        Ok(PlistValue::Boolean(b)) => Ok(b),
        Ok(_) => Err(NsArchiveError::TypeMismatch),
        Err(e) => Err(e),
    }
}

/// Decoding an unsigned 64-bit integer.
pub open spec fn spec_decode_u64(val: Option<PlistValue>) -> Result<u64, NsArchiveError> {
    match required(val) {
        Ok(PlistValue::Integer(i)) => match i.unsigned {
            Some(n) => Ok(n),
            None => Err(NsArchiveError::TypeMismatch),
        },
        Ok(_) => Err(NsArchiveError::TypeMismatch),
        Err(e) => Err(e),
    }
}

/// Decoding a signed 64-bit integer.
pub open spec fn spec_decode_i64(val: Option<PlistValue>) -> Result<i64, NsArchiveError> {
    match required(val) {
        Ok(PlistValue::Integer(i)) => match i.signed {
            Some(n) => Ok(n),
            None => Err(NsArchiveError::TypeMismatch),
        },
        Ok(_) => Err(NsArchiveError::TypeMismatch),
        Err(e) => Err(e),
    }
}

/// Decoding an unsigned 32-bit integer: an unsigned 64-bit one that fits.
pub open spec fn spec_decode_u32(val: Option<PlistValue>) -> Result<u32, NsArchiveError> {
    match spec_decode_u64(val) {
        Ok(n) => if n <= u32::MAX {
            Ok(n as u32)
        } else {
            Err(NsArchiveError::TypeMismatch)
        },
        Err(e) => Err(e),
    }
}

/// Decoding a signed 32-bit integer: a signed 64-bit one that fits.
pub open spec fn spec_decode_i32(val: Option<PlistValue>) -> Result<i32, NsArchiveError> {
    match spec_decode_i64(val) {
        Ok(n) => if i32::MIN <= n <= i32::MAX {
            Ok(n as i32)
        } else {
            Err(NsArchiveError::TypeMismatch)
        },
        Err(e) => Err(e),
    }
}

/// Decoding a real, as the bits of its binary64 form.
pub open spec fn spec_decode_real(val: Option<PlistValue>) -> Result<u64, NsArchiveError> {
    match required(val) {
        Ok(PlistValue::Real(bits)) => Ok(bits),
        Ok(_) => Err(NsArchiveError::TypeMismatch),
        Err(e) => Err(e),
    }
}

/// Decoding a uid handle.
pub open spec fn spec_decode_uid(val: Option<PlistValue>) -> Result<u64, NsArchiveError> {
    match required(val) {
        Ok(PlistValue::Uid(u)) => Ok(u),
        Ok(_) => Err(NsArchiveError::TypeMismatch),
        Err(e) => Err(e),
    }
}

/// Decoding a string, as its characters.
pub open spec fn spec_decode_string(val: Option<PlistValue>) -> Result<Seq<char>, NsArchiveError> {
    match required(val) {
        Ok(PlistValue::String(s)) => Ok(s@),
        Ok(_) => Err(NsArchiveError::TypeMismatch),
        Err(e) => Err(e),
    }
}

/// Decoding an optional string: absent is `None`, present is decoded as a string.
pub open spec fn spec_decode_opt_string(val: Option<PlistValue>) -> Result<
    Option<Seq<char>>,
    NsArchiveError,
> {
    match val {
        None => Ok(None),
        Some(v) => match spec_decode_string(Some(v)) {
            Ok(s) => Ok(Some(s)),
            Err(e) => Err(e),
        },
    }
}

/// Decoding a byte string.
pub open spec fn spec_decode_data(val: Option<PlistValue>) -> Result<Seq<u8>, NsArchiveError> {
    match required(val) {
        Ok(PlistValue::Data(d)) => Ok(d@),
        Ok(_) => Err(NsArchiveError::TypeMismatch),
        Err(e) => Err(e),
    }
}

/// Decoding a dictionary.
pub open spec fn spec_decode_dict(val: Option<PlistValue>) -> Result<Dictionary, NsArchiveError> {
    match required(val) {
        Ok(PlistValue::Dictionary(d)) => Ok(d),
        Ok(_) => Err(NsArchiveError::TypeMismatch),
        Err(e) => Err(e),
    }
}

/// Decodes a boolean.
pub fn decode_bool(val: Option<&PlistValue>) -> (r: Result<bool, NsArchiveError>)
    ensures
        r == spec_decode_bool(opt_deref(val)),
{
    match val {
        None => Err(NsArchiveError::MissingKey),
        Some(PlistValue::Boolean(b)) => Ok(*b),
        Some(_) => Err(NsArchiveError::TypeMismatch),
    }
}

/// Decodes an unsigned 64-bit integer.
pub fn decode_u64(val: Option<&PlistValue>) -> (r: Result<u64, NsArchiveError>)
    ensures
        r == spec_decode_u64(opt_deref(val)),
{
    match val {
        None => Err(NsArchiveError::MissingKey),
        Some(PlistValue::Integer(i)) => match i.unsigned {
            Some(n) => Ok(n),
            None => Err(NsArchiveError::TypeMismatch),
        },
        Some(_) => Err(NsArchiveError::TypeMismatch),
    }
}

/// Decodes a signed 64-bit integer.
pub fn decode_i64(val: Option<&PlistValue>) -> (r: Result<i64, NsArchiveError>)
    ensures
        r == spec_decode_i64(opt_deref(val)),
{
    match val {
        None => Err(NsArchiveError::MissingKey),
        Some(PlistValue::Integer(i)) => match i.signed {
            Some(n) => Ok(n),
            None => Err(NsArchiveError::TypeMismatch),
        },
        Some(_) => Err(NsArchiveError::TypeMismatch),
    }
}

/// Decodes an unsigned 32-bit integer; a wider value is a mismatch.
pub fn decode_u32(val: Option<&PlistValue>) -> (r: Result<u32, NsArchiveError>)
    ensures
        r == spec_decode_u32(opt_deref(val)),
{
    let n = decode_u64(val)?;
    if n <= u32::MAX as u64 {
        Ok(n as u32)
    } else {
        Err(NsArchiveError::TypeMismatch)
    }
}

/// Decodes a signed 32-bit integer; a wider value is a mismatch.
pub fn decode_i32(val: Option<&PlistValue>) -> (r: Result<i32, NsArchiveError>)
    ensures
        r == spec_decode_i32(opt_deref(val)),
{
    let n = decode_i64(val)?;
    if i32::MIN as i64 <= n && n <= i32::MAX as i64 {
        Ok(n as i32)
    } else {
        Err(NsArchiveError::TypeMismatch)
    }
}

/// Decodes a real, as the bits of its binary64 form.
pub fn decode_real(val: Option<&PlistValue>) -> (r: Result<u64, NsArchiveError>)
    ensures
        r == spec_decode_real(opt_deref(val)),
{
    match val {
        None => Err(NsArchiveError::MissingKey),
        Some(PlistValue::Real(bits)) => Ok(*bits),
        Some(_) => Err(NsArchiveError::TypeMismatch),
    }
}

/// Decodes a uid handle.
pub fn decode_uid(val: Option<&PlistValue>) -> (r: Result<u64, NsArchiveError>)
    ensures
        r == spec_decode_uid(opt_deref(val)),
{
    match val {
        None => Err(NsArchiveError::MissingKey),
        Some(PlistValue::Uid(u)) => Ok(*u),
        Some(_) => Err(NsArchiveError::TypeMismatch),
    }
}

/// Decodes a string.
pub fn decode_str(val: Option<&PlistValue>) -> (r: Result<&str, NsArchiveError>)
    ensures
        match r {
            Ok(s) => spec_decode_string(opt_deref(val)) == Ok::<_, NsArchiveError>(s@),
            Err(e) => spec_decode_string(opt_deref(val)) == Err::<Seq<char>, _>(e),
        },
{
    match val {
        None => Err(NsArchiveError::MissingKey),
        Some(PlistValue::String(s)) => Ok(s.as_str()),
        Some(_) => Err(NsArchiveError::TypeMismatch),
    }
}

/// Decodes a string into an owned one.
pub fn decode_string(val: Option<&PlistValue>) -> (r: Result<String, NsArchiveError>)
    ensures
        match r {
            Ok(s) => spec_decode_string(opt_deref(val)) == Ok::<_, NsArchiveError>(s@),
            Err(e) => spec_decode_string(opt_deref(val)) == Err::<Seq<char>, _>(e),
        },
{
    let s = decode_str(val)?;
    Ok(s.to_owned())
}

/// Decodes an optional string: absent gives `None`.
pub fn decode_opt_string(val: Option<&PlistValue>) -> (r: Result<Option<String>, NsArchiveError>)
    ensures
        match r {
            Ok(Some(s)) => spec_decode_opt_string(opt_deref(val)) == Ok::<_, NsArchiveError>(Some(s@)),
            Ok(None) => spec_decode_opt_string(opt_deref(val)) == Ok::<_, NsArchiveError>(None::<Seq<char>>),
            Err(e) => spec_decode_opt_string(opt_deref(val)) == Err::<Option<Seq<char>>, _>(e),
        },
{
    match val {
        None => Ok(None),
        Some(v) => {
            let s = decode_string(Some(v))?;
            Ok(Some(s))
        },
    }
}

/// Decodes a byte string.
pub fn decode_data(val: Option<&PlistValue>) -> (r: Result<&Vec<u8>, NsArchiveError>)
    ensures
        match r {
            Ok(d) => spec_decode_data(opt_deref(val)) == Ok::<_, NsArchiveError>(d@),
            Err(e) => spec_decode_data(opt_deref(val)) == Err::<Seq<u8>, _>(e),
        },
{
    match val {
        None => Err(NsArchiveError::MissingKey),
        Some(PlistValue::Data(d)) => Ok(d),
        Some(_) => Err(NsArchiveError::TypeMismatch),
    }
}

/// Decodes a dictionary.
pub fn decode_dict(val: Option<&PlistValue>) -> (r: Result<&Dictionary, NsArchiveError>)
    ensures
        match r {
            Ok(d) => spec_decode_dict(opt_deref(val)) == Ok::<_, NsArchiveError>(*d),
            Err(e) => spec_decode_dict(opt_deref(val)) == Err::<Dictionary, _>(e),
        },
{
    match val {
        None => Err(NsArchiveError::MissingKey),
        Some(PlistValue::Dictionary(d)) => Ok(d),
        Some(_) => Err(NsArchiveError::TypeMismatch),
    }
}

/// Decoding an array of uid handles.
pub open spec fn spec_decode_uids(val: Option<PlistValue>) -> Result<Seq<u64>, NsArchiveError> {
    match required(val) {
        Ok(PlistValue::Array(a)) => if forall|i: int| 0 <= i < a@.len() ==> (#[trigger] a@[i]) is Uid {
            Ok(Seq::new(a@.len(), |i: int| a@[i]->Uid_0))
        } else {
            Err(NsArchiveError::TypeMismatch)
        },
        Ok(_) => Err(NsArchiveError::TypeMismatch),
        Err(e) => Err(e),
    }
}

/// Decoding an array of strings.
pub open spec fn spec_decode_strings(val: Option<PlistValue>) -> Result<Seq<Seq<char>>, NsArchiveError> {
    match required(val) {
        Ok(PlistValue::Array(a)) => if forall|i: int| 0 <= i < a@.len() ==> (#[trigger] a@[i]) is String {
            Ok(Seq::new(a@.len(), |i: int| a@[i]->String_0@))
        } else {
            Err(NsArchiveError::TypeMismatch)
        },
        Ok(_) => Err(NsArchiveError::TypeMismatch),
        Err(e) => Err(e),
    }
}

/// Decodes an array of uid handles.
pub fn decode_uids(val: Option<&PlistValue>) -> (r: Result<Vec<u64>, NsArchiveError>)
    ensures
        match r {
            Ok(v) => spec_decode_uids(opt_deref(val)) == Ok::<_, NsArchiveError>(v@),
            Err(e) => spec_decode_uids(opt_deref(val)) == Err::<Seq<u64>, _>(e),
        },
{
    match val {
        None => Err(NsArchiveError::MissingKey),
        Some(PlistValue::Array(a)) => uids_of(a),
        Some(_) => Err(NsArchiveError::TypeMismatch),
    }
}

fn uids_of(array: &Vec<PlistValue>) -> (r: Result<Vec<u64>, NsArchiveError>)
    ensures
        match r {
            Ok(v) => spec_decode_uids(Some(PlistValue::Array(*array))) == Ok::<_, NsArchiveError>(v@),
            Err(e) => spec_decode_uids(Some(PlistValue::Array(*array))) == Err::<Seq<u64>, _>(e),
        },
{
    let mut out: Vec<u64> = Vec::new();
    let mut i: usize = 0;
    while i < array.len()
        invariant
            i <= array@.len(),
            out@.len() == i,
            forall|j: int| 0 <= j < i ==> (#[trigger] array@[j]) is Uid && out@[j] == array@[j]->Uid_0,
        decreases array@.len() - i,
    {
        match &array[i] {
            PlistValue::Uid(u) => out.push(*u),
            _ => {
                assert(!(array@[i as int] is Uid));
                return Err(NsArchiveError::TypeMismatch);
            },
        }
        i = i + 1;
    }
    assert(out@ =~= Seq::new(array@.len(), |i: int| array@[i]->Uid_0));
    Ok(out)
}

/// Decodes an array of strings.
pub fn decode_strings(val: Option<&PlistValue>) -> (r: Result<Vec<String>, NsArchiveError>)
    ensures
        match r {
            Ok(v) => spec_decode_strings(opt_deref(val)) == Ok::<_, NsArchiveError>(
                v@.map_values(|s: String| s@),
            ),
            Err(e) => spec_decode_strings(opt_deref(val)) == Err::<Seq<Seq<char>>, _>(e),
        },
{
    match val {
        None => Err(NsArchiveError::MissingKey),
        Some(PlistValue::Array(a)) => strings_of(a),
        Some(_) => Err(NsArchiveError::TypeMismatch),
    }
}

fn strings_of(array: &Vec<PlistValue>) -> (r: Result<Vec<String>, NsArchiveError>)
    ensures
        match r {
            Ok(v) => spec_decode_strings(Some(PlistValue::Array(*array))) == Ok::<_, NsArchiveError>(v@.map_values(|s: String| s@)),
            Err(e) => spec_decode_strings(Some(PlistValue::Array(*array))) == Err::<Seq<Seq<char>>, _>(e),
        },
{
    let mut out: Vec<String> = Vec::new();
    let mut i: usize = 0;
    while i < array.len()
        invariant
            i <= array@.len(),
            out@.len() == i,
            forall|j: int| 0 <= j < i ==> (#[trigger] array@[j]) is String && out@[j]@ == array@[j]->String_0@,
        decreases array@.len() - i,
    {
        match &array[i] {
            PlistValue::String(s) => out.push(s.clone()),
            _ => {
                assert(!(array@[i as int] is String));
                return Err(NsArchiveError::TypeMismatch);
            },
        }
        i = i + 1;
    }
    assert(out@.map_values(|s: String| s@) =~= Seq::new(array@.len(), |i: int| array@[i]->String_0@));
    Ok(out)
}

/// The decoded elements of an array wrapped in a dictionary under `NS.objects`.
#[derive(Debug)]
pub struct WrappedArray<T> {
    pub objects: Vec<T>,
}

/// The handles of an array wrapped in a dictionary under `NS.objects`.
#[derive(Debug)]
pub struct WrappedRawArray {
    pub inner: Vec<u64>,
}

/// The class tag of an archived object.
#[derive(Debug)]
pub struct NsClass {
    pub class_name: String,
    pub classes: Vec<String>,
}

impl NsKeyedArchive {
    /// Decoding a wrapped array's handles.
    pub open spec fn spec_wrapped_raw(&self, val: Option<PlistValue>) -> Result<Seq<u64>, NsArchiveError> {
        match spec_decode_dict(val) {
            Ok(coder) => match self.spec_decode_value(coder, "NS.objects"@) {
                Ok(v) => spec_decode_uids(v),
                Err(e) => Err(e),
            },
            Err(e) => Err(e),
        }
    }

    /// Decoding a class tag: its name and its class chain.
    pub open spec fn spec_class(&self, val: Option<PlistValue>) -> Result<
        (Seq<char>, Seq<Seq<char>>),
        NsArchiveError,
    > {
        match spec_decode_dict(val) {
            Ok(coder) => match self.spec_decode_value(coder, "$classname"@) {
                Ok(v) => match spec_decode_string(v) {
                    Ok(name) => match self.spec_decode_value(coder, "$classes"@) {
                        Ok(w) => match spec_decode_strings(w) {
                            Ok(classes) => Ok((name, classes)),
                            Err(e) => Err(e),
                        },
                        Err(e) => Err(e),
                    },
                    Err(e) => Err(e),
                },
                Err(e) => Err(e),
            },
            Err(e) => Err(e),
        }
    }

    /// Decodes the handles of a wrapped array.
    pub fn decode_wrapped_raw(&self, val: Option<&PlistValue>) -> (r: Result<WrappedRawArray, NsArchiveError>)
        ensures
            match r {
                Ok(w) => self.spec_wrapped_raw(opt_deref(val)) == Ok::<_, NsArchiveError>(w.inner@),
                Err(e) => self.spec_wrapped_raw(opt_deref(val)) == Err::<Seq<u64>, _>(e),
            },
    {
        let coder = decode_dict(val)?;
        let objects = decode_uids(self.decode_value(coder, "NS.objects")?)?;
        Ok(WrappedRawArray { inner: objects })
    }

    /// Decodes a class tag.
    pub fn decode_class(&self, val: Option<&PlistValue>) -> (r: Result<NsClass, NsArchiveError>)
        ensures
            match r {
                Ok(c) => self.spec_class(opt_deref(val)) == Ok::<_, NsArchiveError>(
                    (c.class_name@, c.classes@.map_values(|s: String| s@)),
                ),
                Err(e) => self.spec_class(opt_deref(val)) == Err::<(Seq<char>, Seq<Seq<char>>), _>(e),
            },
    {
        let coder = decode_dict(val)?;
        let class_name = decode_string(self.decode_value(coder, "$classname")?)?;
        let classes = decode_strings(self.decode_value(coder, "$classes")?)?;
        Ok(NsClass { class_name, classes })
    }
}

impl NsKeyedArchive {
    /// Reading `coder[key]` as a boolean.
    pub open spec fn field_bool(&self, coder: Dictionary, key: Seq<char>) -> Result<bool, NsArchiveError> {
        match self.spec_decode_value(coder, key) {
            Ok(v) => spec_decode_bool(v),
            Err(e) => Err(e),
        }
    }

    /// Reading `coder[key]` as an unsigned 64-bit integer.
    pub open spec fn field_u64(&self, coder: Dictionary, key: Seq<char>) -> Result<u64, NsArchiveError> {
        match self.spec_decode_value(coder, key) {
            Ok(v) => spec_decode_u64(v),
            Err(e) => Err(e),
        }
    }

    /// Reading `coder[key]` as an unsigned 32-bit integer.
    pub open spec fn field_u32(&self, coder: Dictionary, key: Seq<char>) -> Result<u32, NsArchiveError> {
        match self.spec_decode_value(coder, key) {
            Ok(v) => spec_decode_u32(v),
            Err(e) => Err(e),
        }
    }

    /// Reading `coder[key]` as a real.
    pub open spec fn field_real(&self, coder: Dictionary, key: Seq<char>) -> Result<u64, NsArchiveError> {
        match self.spec_decode_value(coder, key) {
            Ok(v) => spec_decode_real(v),
            Err(e) => Err(e),
        }
    }

    /// Reading `coder[key]` as a string.
    pub open spec fn field_string(&self, coder: Dictionary, key: Seq<char>) -> Result<Seq<char>, NsArchiveError> {
        match self.spec_decode_value(coder, key) {
            Ok(v) => spec_decode_string(v),
            Err(e) => Err(e),
        }
    }

    /// Reading `coder[key]` as an optional string.
    pub open spec fn field_opt_string(&self, coder: Dictionary, key: Seq<char>) -> Result<
        Option<Seq<char>>,
        NsArchiveError,
    > {
        match self.spec_decode_value(coder, key) {
            Ok(v) => spec_decode_opt_string(v),
            Err(e) => Err(e),
        }
    }

    /// Reading `coder[key]` as a byte string.
    pub open spec fn field_data(&self, coder: Dictionary, key: Seq<char>) -> Result<Seq<u8>, NsArchiveError> {
        match self.spec_decode_value(coder, key) {
            Ok(v) => spec_decode_data(v),
            Err(e) => Err(e),
        }
    }

    /// Reading `coder[key]` as a dictionary.
    pub open spec fn field_dict(&self, coder: Dictionary, key: Seq<char>) -> Result<Dictionary, NsArchiveError> {
        match self.spec_decode_value(coder, key) {
            Ok(v) => spec_decode_dict(v),
            Err(e) => Err(e),
        }
    }

    /// Reading `coder[key]` as a wrapped array's handles.
    pub open spec fn field_wrapped(&self, coder: Dictionary, key: Seq<char>) -> Result<Seq<u64>, NsArchiveError> {
        match self.spec_decode_value(coder, key) {
            Ok(v) => self.spec_wrapped_raw(v),
            Err(e) => Err(e),
        }
    }

    /// Reading the class name tagged on `coder` under `$class`.
    pub open spec fn spec_class_name(&self, coder: Dictionary) -> Result<Seq<char>, NsArchiveError> {
        match self.spec_decode_value(coder, "$class"@) {
            Ok(v) => match self.spec_class(v) {
                Ok(c) => Ok(c.0),
                Err(e) => Err(e),
            },
            Err(e) => Err(e),
        }
    }

    /// The root dictionary: `top["root"]`, followed if it is a handle.
    pub open spec fn spec_root(&self) -> Result<Dictionary, NsArchiveError> {
        self.field_dict(self.top, "root"@)
    }

    /// Finds the root dictionary.
    pub fn root(&self) -> (r: Result<&Dictionary, NsArchiveError>)
        ensures
            match r {
                Ok(d) => self.spec_root() == Ok::<_, NsArchiveError>(*d),
                Err(e) => self.spec_root() == Err::<Dictionary, _>(e),
            },
    {
        decode_dict(self.decode_value(&self.top, "root")?)
    }
}

} // verus!
