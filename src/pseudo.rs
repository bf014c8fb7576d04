//! The pseudo-structures that carry dates and uids through a generic
//! materialization interface, which has neither: each is handed over as a
//! one-entry map whose key is a private field name.
use vstd::prelude::*;
use vstd::slice::slice_to_vec;

verus! {

/// Name of the date pseudo-structure.
pub const DATE_STRUCT_NAME: &'static str = "$__bplist_private_Date";

/// Name of the field of the date pseudo-structure.
pub const DATE_STRUCT_FIELD: &'static str = "$__bplist_private_Date_absolute_time";

/// Name of the uid pseudo-structure.
pub const UID_STRUCT_NAME: &'static str = "$__bplist_private_Uid";

/// Name of the field of the uid pseudo-structure.
pub const UID_STRUCT_FIELD: &'static str = "$__bplist_private_Uid_data";

/// A uid: an opaque big-endian blob of identifier data.
#[derive(Debug, Clone, PartialEq, Eq, PartialOrd, Ord, Hash)]
pub struct Uid {
    /// A blob of identifier data.
    pub data: Vec<u8>,
}

/// The value of the uid field of the uid pseudo-structure.
#[derive(Debug)]
pub struct UidFromBytes {
    pub value: Uid,
}

impl UidFromBytes {
    /// Takes the uid from the bytes of the field.
    pub fn from_bytes(v: &[u8]) -> (r: UidFromBytes)
        ensures
            r.value.data@ == v@,
    {
        UidFromBytes { value: Uid { data: slice_to_vec(v) } }
    }
}

/// The one-entry map that stands for a date: the date field, then the bits
/// of its CFAbsoluteTime value.
#[derive(Debug)]
pub struct DateDeserializer {
    pub visited: bool,
    pub absolute_time: u64,
}

impl DateDeserializer {
    /// A map whose single entry has not been read yet.
    pub fn new(absolute_time: u64) -> (r: Self)
        ensures
            !r.visited,
            r.absolute_time == absolute_time,
    {
        DateDeserializer { absolute_time, visited: false }
    }

    /// The key of the next entry: the date field the first time, then none.
    pub fn next_key(&mut self) -> (r: Option<&'static str>)
        ensures
            old(self).visited ==> r is None,
            !old(self).visited ==> r == Some(DATE_STRUCT_FIELD),
            final(self).visited,
            final(self).absolute_time == old(self).absolute_time,
    {
        if self.visited {
            None
        } else {
            self.visited = true;
            Some(DATE_STRUCT_FIELD)
        }
    }

    /// The value of the entry: the bits of the date.
    pub fn next_value(&self) -> (r: u64)
        ensures
            r == self.absolute_time,
    {
        self.absolute_time
    }
}

/// The one-entry map that stands for a uid: the uid field, then its bytes.
#[derive(Debug)]
pub struct UidDeserializer {
    pub visited: bool,
    pub data: Vec<u8>,
}

impl UidDeserializer {
    /// A map whose single entry has not been read yet.
    pub fn new(data: Vec<u8>) -> (r: Self)
        ensures
            !r.visited,
            r.data@ == data@,
    {
        UidDeserializer { data, visited: false }
    }

    /// The key of the next entry: the uid field the first time, then none.
    pub fn next_key(&mut self) -> (r: Option<&'static str>)
        ensures
            old(self).visited ==> r is None,
            !old(self).visited ==> r == Some(UID_STRUCT_FIELD),
            final(self).visited,
            final(self).data@ == old(self).data@,
    {
        if self.visited {
            None
        } else {
            self.visited = true;
            Some(UID_STRUCT_FIELD)
        }
    }

    /// The value of the entry: hands over the bytes of the uid, leaving none.
    pub fn next_value(&mut self) -> (r: Vec<u8>)
        ensures
            r@ == old(self).data@,
            final(self).data@ == Seq::<u8>::empty(),
            final(self).visited == old(self).visited,
    {
        let mut data: Vec<u8> = Vec::new();
        std::mem::swap(&mut data, &mut self.data);
        data
    }
}

} // verus!
