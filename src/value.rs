use vstd::prelude::*;

verus! {

/// An integer of a property list, with the 64-bit forms in which it fits.
///
/// A property-list integer may be read as signed, as unsigned, or both when
/// its value lies in the range of both.
#[derive(Debug, Clone, Copy, PartialEq, Eq)]
pub struct Integer {
    pub signed: Option<i64>,
    pub unsigned: Option<u64>,
}

/// A generic property-list value.
///
/// A real is held as the bit pattern of its IEEE-754 binary64 form; `Other`
/// stands for a kind of value that no decoder reads (a date).
#[derive(Debug)]
pub enum PlistValue {
    Array(Vec<PlistValue>),
    Dictionary(Dictionary),
    Boolean(bool),
    Data(Vec<u8>),
    Other,
    Real(u64),
    Integer(Integer),
    String(String),
    Uid(u64),
}

/// A property-list dictionary: string keys in insertion order.
#[derive(Debug)]
pub struct Dictionary {
    pub entries: Vec<(String, PlistValue)>,
}

/// The value of the first entry of `entries` whose key is `key`.
pub open spec fn lookup(entries: Seq<(String, PlistValue)>, key: Seq<char>) -> Option<PlistValue>
    decreases entries.len(),
{
    if entries.len() == 0 {
        None
    } else if entries[0].0@ == key {
        Some(entries[0].1)
    } else {
        lookup(entries.drop_first(), key)
    }
}

/// Whether two strings hold the same characters.
pub fn str_eq(a: &str, b: &str) -> (r: bool)
    ensures
        r == (a@ == b@),
{
    let n = a.unicode_len();
    if n != b.unicode_len() {
        return false;
    }
    let mut i: usize = 0;
    while i < n
        invariant
            n == a@.len(),
            n == b@.len(),
            i <= n,
            forall|j: int| 0 <= j < i ==> a@[j] == b@[j],
        decreases n - i,
    {
        if a.get_char(i) != b.get_char(i) {
            return false;
        }
        i = i + 1;
    }
    assert(a@ =~= b@);
    true
}

impl Dictionary {
    /// The value of the first entry named `key`, if any.
    pub open spec fn spec_get(&self, key: Seq<char>) -> Option<PlistValue> {
        lookup(self.entries@, key)
    }

    /// The index of the first entry named `key`, if any.
    pub fn position(&self, key: &str) -> (r: Option<usize>)
        ensures
            match r {
                Some(i) => i < self.entries@.len() && self.entries@[i as int].0@ == key@
                    && self.spec_get(key@) == Some(self.entries@[i as int].1),
                None => self.spec_get(key@).is_none(),
            },
    {
        let mut i: usize = 0;
        assert(self.entries@.subrange(0, self.entries@.len() as int) =~= self.entries@);
        while i < self.entries.len()
            invariant
                i <= self.entries@.len(),
                lookup(self.entries@, key@) == lookup(
                    self.entries@.subrange(i as int, self.entries@.len() as int),
                    key@,
                ),
            decreases self.entries@.len() - i,
        {
            let ghost rest = self.entries@.subrange(i as int, self.entries@.len() as int);
            if str_eq(self.entries[i].0.as_str(), key) {
                return Some(i);
            }
            assert(rest.drop_first() =~= self.entries@.subrange(i + 1, self.entries@.len() as int));
            i = i + 1;
        }
        None
    }

    /// Looks up `key`.
    pub fn get(&self, key: &str) -> (r: Option<&PlistValue>)
        ensures
            opt_deref(r) == self.spec_get(key@),
    {
        match self.position(key) {
            Some(i) => Some(&self.entries[i].1),
            None => None,
        }
    }
}

/// An optional reference seen as an optional value.
pub open spec fn opt_deref(o: Option<&PlistValue>) -> Option<PlistValue> {
    match o {
        Some(v) => Some(*v),
        None => None,
    }
}

} // verus!
