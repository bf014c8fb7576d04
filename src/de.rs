//! Random access to the objects of a document, and the walker that decodes
//! the object tree from its root.
use vstd::prelude::*;
use vstd::slice::slice_subrange;

use crate::document::{
    ObjectFormat, HEADER_SIZE, HEADER_VERSION_00_MAJOR, HEADER_VERSION_00_MINOR, TRAILER_SIZE,
};
use crate::envelope::{header, offset_table, spec_header, spec_offset_table, spec_trailer, trailer};
use crate::error::Error;
use crate::event::{events_view, Event, EventModel};
use crate::object::{
    any_marker, array, ascii_string, boolean, data, date, dictionary, fill, float32, float64,
    sint64, spec_any_marker, spec_array, spec_ascii_string, spec_data, spec_dictionary,
    spec_fixed, spec_marker, spec_uid, spec_utf16_string, uid, uint16, uint32, uint8,
    utf16_string,
};

verus! {

/// What the envelope of a document says: the offset of each object, the size
/// of object references, the root object, and where the object table ends.
/// The object table starts right after the header.
pub struct DocumentModel {
    pub offsets: Seq<usize>,
    pub reference_size: usize,
    pub root: usize,
    pub table_end: usize,
}

/// The envelope of the document `s`, or the first failure met in validating
/// it: length, header, version, trailer, root object, offset table, and the
/// size of object references.
pub open spec fn spec_metadata(s: Seq<u8>) -> Result<DocumentModel, Error> {
    if s.len() < HEADER_SIZE + 2 + TRAILER_SIZE {
        Err(Error::Eof)
    } else {
        match spec_header(s.subrange(0, HEADER_SIZE as int)) {
            None => Err(Error::MissingOrInvalidHeader),
            Some(h) => if h.version != (HEADER_VERSION_00_MAJOR, HEADER_VERSION_00_MINOR) {
                Err(Error::UnsupportedVersion)
            } else {
                match spec_trailer(s.subrange(s.len() - TRAILER_SIZE, s.len() as int)) {
                    None => Err(Error::MissingOrInvalidTrailer),
                    Some(t) => {
                        let n = t.number_of_objects as nat;
                        let es = t.offset_table_entry_size as nat;
                        let start = t.offset_table_offset as nat;
                        if t.root_object >= t.number_of_objects {
                            Err(Error::InvalidRootObject)
                        } else if !(1 <= es <= 8) || start + n * es > s.len() - TRAILER_SIZE {
                            Err(Error::MissingOrInvalidOffsetTable)
                        } else {
                            match spec_offset_table(s.subrange(start as int, (start + n * es) as int), n, es) {
                                None => Err(Error::MissingOrInvalidOffsetTable),
                                Some(offsets) => if !(1 <= t.object_reference_size <= 8) {
                                    Err(Error::MissingOrInvalidTrailer)
                                } else {
                                    Ok(DocumentModel {
                                        offsets,
                                        reference_size: t.object_reference_size,
                                        root: t.root_object,
                                        table_end: t.offset_table_offset,
                                    })
                                },
                            }
                        }
                    },
                }
            },
        }
    }
}

/// The bytes from object `id` to the end of the input: the id must be in the
/// offset table, and its offset inside the object table.
pub open spec fn spec_data_for(s: Seq<u8>, m: DocumentModel, id: int) -> Result<Seq<u8>, Error> {
    if !(0 <= id < m.offsets.len()) {
        Err(Error::InvalidObjectReference)
    } else if !(HEADER_SIZE <= m.offsets[id] < m.table_end) {
        Err(Error::InvalidOffsetToObject)
    } else {
        Ok(s.subrange(m.offsets[id] as int, s.len() as int))
    }
}

/// The format of object `id`.
pub open spec fn spec_kind_of(s: Seq<u8>, m: DocumentModel, id: int) -> Result<ObjectFormat, Error> {
    match spec_data_for(s, m, id) {
        Err(e) => Err(e),
        Ok(d) => match spec_any_marker(d) {
            Some((f, _)) => Ok(f),
            None => Err(Error::InvalidOrUnsupportedObjectFormat),
        },
    }
}

/// The single event of a non-collection object of format `f` whose bytes
/// start `d`, or the error for that format when its payload is malformed.
pub open spec fn spec_primitive(d: Seq<u8>, f: ObjectFormat) -> Result<EventModel, Error> {
    match f {
        ObjectFormat::Boolean => match spec_marker(d, f) {
            Some(v) => Ok(EventModel::Bool(v == 1)),
            None => Err(Error::ExpectedBool),
        },
        ObjectFormat::Fill => match spec_marker(d, f) {
            Some(_) => Ok(EventModel::Unit),
            None => Err(Error::ExpectedFill),
        },
        ObjectFormat::UInt8 => match spec_fixed(d, f, 1) {
            Some(v) => Ok(EventModel::UInt8(v as u8)),
            None => Err(Error::ExpectedUInt8),
        },
        ObjectFormat::UInt16 => match spec_fixed(d, f, 2) {
            Some(v) => Ok(EventModel::UInt16(v as u16)),
            None => Err(Error::ExpectedUInt16),
        },
        ObjectFormat::UInt32 => match spec_fixed(d, f, 4) {
            Some(v) => Ok(EventModel::UInt32(v as u32)),
            None => Err(Error::ExpectedUInt32),
        },
        ObjectFormat::SInt64 => match spec_fixed(d, f, 8) {
            Some(v) => Ok(EventModel::SInt64((v as u64) as i64)),
            None => Err(Error::ExpectedSInt64),
        },
        ObjectFormat::Float32 => match spec_fixed(d, f, 4) {
            Some(v) => Ok(EventModel::Float32(v as u32)),
            None => Err(Error::ExpectedFloat32),
        },
        ObjectFormat::Float64 => match spec_fixed(d, f, 8) {
            Some(v) => Ok(EventModel::Float64(v as u64)),
            None => Err(Error::ExpectedFloat64),
        },
        ObjectFormat::Date => match spec_fixed(d, f, 8) {
            Some(v) => Ok(EventModel::Date(v as u64)),
            None => Err(Error::ExpectedDate),
        },
        ObjectFormat::Data => match spec_data(d) {
            Some((b, _)) => Ok(EventModel::Bytes(b)),
            None => Err(Error::ExpectedData),
        },
        ObjectFormat::AsciiString => match spec_ascii_string(d) {
            Some((t, _)) => Ok(EventModel::Str(t)),
            None => Err(Error::ExpectedAsciiString),
        },
        ObjectFormat::Utf16String => match spec_utf16_string(d) {
            Some((t, _)) => Ok(EventModel::String(t)),
            None => Err(Error::ExpectedUtf16String),
        },
        ObjectFormat::Uid => match spec_uid(d) {
            Some((b, _)) => Ok(EventModel::Uid(b)),
            None => Err(Error::ExpectedUid),
        },
        ObjectFormat::Array => Err(Error::ExpectedArray),
        ObjectFormat::Dictionary => Err(Error::ExpectedDictionary),
    }
}

/// The decoded envelope of a document.
#[derive(Debug)]
pub struct Metadata {
    /// The offset from the start of the input of each object.
    pub offset_table: Vec<usize>,
    /// The byte length of an object reference.
    pub object_reference_size: usize,
    /// The index of the root object to decode.
    pub root_object: usize,
    /// The first byte of the input where objects may reside.
    pub object_table_start: usize,
    /// The byte after the last one where objects may reside.
    pub object_table_end: usize,
}

impl View for Metadata {
    type V = DocumentModel;

    open spec fn view(&self) -> DocumentModel {
        DocumentModel {
            offsets: self.offset_table@,
            reference_size: self.object_reference_size,
            root: self.root_object,
            table_end: self.object_table_end,
        }
    }
}

impl Metadata {
    /// Uses the offset table to find the offset of the given object.
    pub fn offset_of(&self, object: usize) -> (r: Result<usize, Error>)
        ensures
            r == (if object < self.offset_table@.len() {
                Ok::<usize, Error>(self.offset_table@[object as int])
            } else {
                Err(Error::InvalidObjectReference)
            }),
    {
        if object >= self.offset_table.len() {
            Err(Error::InvalidObjectReference)
        } else {
            Ok(self.offset_table[object])
        }
    }
}

/// Access to the objects of the object table.
#[derive(Debug)]
pub struct ObjectTable<'a> {
    /// The whole document.
    pub input: &'a [u8],
    /// Its decoded envelope.
    pub metadata: Metadata,
}

impl<'a> ObjectTable<'a> {
    /// The envelope describes this input: the object table lies inside it, it
    /// starts after the header, and object references are 1 to 8 bytes long.
    pub open spec fn wf(&self) -> bool {
        &&& self.metadata.object_table_end <= self.input@.len()
        &&& self.metadata.object_table_start == HEADER_SIZE
        &&& 1 <= self.metadata.object_reference_size <= 8
    }

    /// Returns the bytes of the input from the start of the object on.
    pub fn data_for(&self, object: usize) -> (r: Result<&'a [u8], Error>)
        requires
            self.wf(),
        ensures
            match spec_data_for(self.input@, self.metadata@, object as int) {
                Ok(d) => r matches Ok(x) && x@ == d,
                Err(e) => r == Err::<&[u8], Error>(e),
            },
    {
        let offset = match self.metadata.offset_of(object) {
            Ok(offset) => offset,
            Err(e) => return Err(e),
        };
        if !(self.metadata.object_table_start <= offset && offset < self.metadata.object_table_end) {
            return Err(Error::InvalidOffsetToObject);
        }
        Ok(slice_subrange(self.input, offset, self.input.len()))
    }

    /// Parses the marker byte of the object and returns its format.
    pub fn kind_of(&self, object: usize) -> (r: Result<ObjectFormat, Error>)
        requires
            self.wf(),
        ensures
            r == spec_kind_of(self.input@, self.metadata@, object as int),
    {
        let d = match self.data_for(object) {
            Ok(d) => d,
            Err(e) => return Err(e),
        };
        match any_marker(d) {
            Some((format, _)) => Ok(format),
            None => Err(Error::InvalidOrUnsupportedObjectFormat),
        }
    }

    /// Decodes an object of a non-collection format into its event; fails
    /// with the error for that format when the object is not a valid one.
    pub fn parse_primitive(&self, object: usize, format: ObjectFormat) -> (r: Result<Event<'a>, Error>)
        requires
            self.wf(),
        ensures
            match spec_data_for(self.input@, self.metadata@, object as int) {
                Err(e) => r == Err::<Event, Error>(e),
                Ok(d) => match spec_primitive(d, format) {
                    Ok(ev) => r matches Ok(x) && x@ == ev,
                    Err(e) => r == Err::<Event, Error>(e),
                },
            },
    {
        let d = match self.data_for(object) {
            Ok(d) => d,
            Err(e) => return Err(e),
        };
        match format {
            ObjectFormat::Boolean => match boolean(d) {
                Some((v, _)) => Ok(Event::Bool(v)),
                None => Err(Error::ExpectedBool),
            },
            ObjectFormat::Fill => match fill(d) {
                Some(_) => Ok(Event::Unit),
                None => Err(Error::ExpectedFill),
            },
            ObjectFormat::UInt8 => match uint8(d) {
                Some((v, _)) => Ok(Event::UInt8(v)),
                None => Err(Error::ExpectedUInt8),
            },
            ObjectFormat::UInt16 => match uint16(d) {
                Some((v, _)) => Ok(Event::UInt16(v)),
                None => Err(Error::ExpectedUInt16),
            },
            ObjectFormat::UInt32 => match uint32(d) {
                Some((v, _)) => Ok(Event::UInt32(v)),
                None => Err(Error::ExpectedUInt32),
            },
            ObjectFormat::SInt64 => match sint64(d) {
                Some((v, _)) => Ok(Event::SInt64(v)),
                None => Err(Error::ExpectedSInt64),
            },
            ObjectFormat::Float32 => match float32(d) {
                Some((v, _)) => Ok(Event::Float32(v)),
                None => Err(Error::ExpectedFloat32),
            },
            ObjectFormat::Float64 => match float64(d) {
                Some((v, _)) => Ok(Event::Float64(v)),
                None => Err(Error::ExpectedFloat64),
            },
            ObjectFormat::Date => match date(d) {
                Some((v, _)) => Ok(Event::Date(v)),
                None => Err(Error::ExpectedDate),
            },
            ObjectFormat::Data => match data(d) {
                Some((b, _)) => Ok(Event::Bytes(b)),
                None => Err(Error::ExpectedData),
            },
            ObjectFormat::AsciiString => match ascii_string(d) {
                Some((t, _)) => Ok(Event::Str(t)),
                None => Err(Error::ExpectedAsciiString),
            },
            ObjectFormat::Utf16String => match utf16_string(d) {
                Some((t, _)) => Ok(Event::String(t)),
                None => Err(Error::ExpectedUtf16String),
            },
            ObjectFormat::Uid => match uid(d) {
                Some((b, _)) => Ok(Event::Uid(b)),
                None => Err(Error::ExpectedUid),
            },
            ObjectFormat::Array => Err(Error::ExpectedArray),
            ObjectFormat::Dictionary => Err(Error::ExpectedDictionary),
        }
    }

    /// Parses an array object and returns the ids of its elements.
    pub fn parse_array(&self, object: usize) -> (r: Result<Vec<usize>, Error>)
        requires
            self.wf(),
        ensures
            match spec_data_for(self.input@, self.metadata@, object as int) {
                Err(e) => r == Err::<Vec<usize>, Error>(e),
                Ok(d) => match spec_array(d, self.metadata.object_reference_size as nat) {
                    Some((ids, _)) => r matches Ok(x) && x@ == ids,
                    None => r == Err::<Vec<usize>, Error>(Error::ExpectedArray),
                },
            },
    {
        let d = match self.data_for(object) {
            Ok(d) => d,
            Err(e) => return Err(e),
        };
        match array(d, self.metadata.object_reference_size) {
            Some((ids, _)) => Ok(ids),
            None => Err(Error::ExpectedArray),
        }
    }

    /// Parses a dictionary object and returns the ids of its (key, value) pairs.
    pub fn parse_dictionary(&self, object: usize) -> (r: Result<Vec<(usize, usize)>, Error>)
        requires
            self.wf(),
        ensures
            match spec_data_for(self.input@, self.metadata@, object as int) {
                Err(e) => r == Err::<Vec<(usize, usize)>, Error>(e),
                Ok(d) => match spec_dictionary(d, self.metadata.object_reference_size as nat) {
                    Some((pairs, _)) => r matches Ok(x) && x@ == pairs,
                    None => r == Err::<Vec<(usize, usize)>, Error>(Error::ExpectedDictionary),
                },
            },
    {
        let d = match self.data_for(object) {
            Ok(d) => d,
            Err(e) => return Err(e),
        };
        match dictionary(d, self.metadata.object_reference_size) {
            Some((pairs, _)) => Ok(pairs),
            None => Err(Error::ExpectedDictionary),
        }
    }
}

/// The events of object `id` and of all it contains, in document order, or
/// the first error met on the way. `entered` lists the collections being
/// decoded around it; entering one of them again is a cycle.
pub open spec fn spec_events(s: Seq<u8>, m: DocumentModel, id: usize, entered: Seq<usize>) -> Result<Seq<EventModel>, Error>
    decreases m.offsets.len() - entered.len(), 0int, 0int,
{
    match spec_kind_of(s, m, id as int) {
        Err(e) => Err(e),
        Ok(f) => {
            let d = s.subrange(m.offsets[id as int] as int, s.len() as int);
            if f == ObjectFormat::Array {
                match spec_array(d, m.reference_size as nat) {
                    None => Err(Error::ExpectedArray),
                    Some((ids, _)) => if is_reentry(m, id, entered) {
                        Err(Error::CycleDetected)
                    } else {
                        match spec_list_events(s, m, ids, entered.push(id)) {
                            Ok(evs) => Ok(seq![EventModel::SeqStart(ids.len() as usize)] + evs + seq![EventModel::SeqEnd]),
                            Err(e) => Err(e),
                        }
                    },
                }
            } else if f == ObjectFormat::Dictionary {
                match spec_dictionary(d, m.reference_size as nat) {
                    None => Err(Error::ExpectedDictionary),
                    Some((pairs, _)) => if is_reentry(m, id, entered) {
                        Err(Error::CycleDetected)
                    } else {
                        match spec_pair_events(s, m, pairs, entered.push(id)) {
                            Ok(evs) => Ok(seq![EventModel::MapStart(pairs.len() as usize)] + evs + seq![EventModel::MapEnd]),
                            Err(e) => Err(e),
                        }
                    },
                }
            } else {
                match spec_primitive(d, f) {
                    Ok(ev) => Ok(seq![ev]),
                    Err(e) => Err(e),
                }
            }
        },
    }
}

/// Entering collection `id` would enter one already entered. (A stack as long
/// as the offset table already holds every id; see `lemma_reentry_is_member`.)
pub open spec fn is_reentry(m: DocumentModel, id: usize, entered: Seq<usize>) -> bool {
    entered.contains(id) || entered.len() >= m.offsets.len()
}

/// The events of the objects `ids`, one after the other.
pub open spec fn spec_list_events(s: Seq<u8>, m: DocumentModel, ids: Seq<usize>, entered: Seq<usize>) -> Result<Seq<EventModel>, Error>
    decreases m.offsets.len() - entered.len(), 1int, ids.len(),
{
    if ids.len() == 0 {
        Ok(seq![])
    } else {
        match spec_list_events(s, m, ids.drop_last(), entered) {
            Err(e) => Err(e),
            Ok(a) => match spec_events(s, m, ids.last(), entered) {
                Err(e) => Err(e),
                Ok(b) => Ok(a + b),
            },
        }
    }
}

/// The events of the (key, value) pairs `pairs`: each key, then its value.
pub open spec fn spec_pair_events(s: Seq<u8>, m: DocumentModel, pairs: Seq<(usize, usize)>, entered: Seq<usize>) -> Result<Seq<EventModel>, Error>
    decreases m.offsets.len() - entered.len(), 1int, pairs.len(),
{
    if pairs.len() == 0 {
        Ok(seq![])
    } else {
        match spec_pair_events(s, m, pairs.drop_last(), entered) {
            Err(e) => Err(e),
            Ok(a) => match spec_events(s, m, pairs.last().0, entered) {
                Err(e) => Err(e),
                Ok(k) => match spec_events(s, m, pairs.last().1, entered) {
                    Err(e) => Err(e),
                    Ok(v) => Ok(a + k + v),
                },
            },
        }
    }
}

/// The events of the whole document `s`: its envelope is decoded, and its
/// root, which must be an array or a dictionary, is walked.
pub open spec fn spec_decode(s: Seq<u8>) -> Result<Seq<EventModel>, Error> {
    match spec_metadata(s) {
        Err(e) => Err(e),
        Ok(m) => match spec_kind_of(s, m, m.root as int) {
            Err(e) => Err(e),
            Ok(f) => if f == ObjectFormat::Array || f == ObjectFormat::Dictionary {
                spec_events(s, m, m.root, seq![])
            } else {
                Err(Error::RootObjectNotArrayOrDictionary)
            },
        },
    }
}

/// A deserializer for a whole binary property list document.
#[derive(Debug)]
pub struct Deserializer<'de> {
    /// The bytes of the whole input document.
    pub input: &'de [u8],
}

impl<'de> Deserializer<'de> {
    /// Creates a deserializer for the given document.
    pub fn from_bytes(input: &'de [u8]) -> (r: Self)
        ensures
            r.input@ == input@,
    {
        Deserializer { input }
    }

    /// Parses the envelope that is needed to interpret the document.
    ///
    /// The smallest document holds the header, a one-byte object, a one-byte
    /// offset table and the trailer.
    pub fn parse_metadata(&self) -> (r: Result<Metadata, Error>)
        ensures
            match spec_metadata(self.input@) {
                Ok(m) => r matches Ok(x) && x@ == m && (ObjectTable { input: self.input, metadata: x }).wf(),
                Err(e) => r == Err::<Metadata, Error>(e),
            },
    {
        let len = self.input.len();
        if len < HEADER_SIZE + 2 + TRAILER_SIZE {
            return Err(Error::Eof);
        }
        let header_slice = slice_subrange(self.input, 0, HEADER_SIZE);
        let h = match header(header_slice) {
            Some((h, _)) => h,
            None => return Err(Error::MissingOrInvalidHeader),
        };
        if h.version.0 != HEADER_VERSION_00_MAJOR || h.version.1 != HEADER_VERSION_00_MINOR {
            return Err(Error::UnsupportedVersion);
        }
        let trailer_slice = slice_subrange(self.input, len - TRAILER_SIZE, len);
        let t = match trailer(trailer_slice) {
            Some((t, _)) => t,
            None => return Err(Error::MissingOrInvalidTrailer),
        };
        if t.root_object >= t.number_of_objects {
            return Err(Error::InvalidRootObject);
        }
        let n = t.number_of_objects;
        let es = t.offset_table_entry_size;
        let start = t.offset_table_offset;
        if es < 1 || es > 8 {
            return Err(Error::MissingOrInvalidOffsetTable);
        }
        assert(n as u128 * es as u128 <= 0xFFFF_FFFF_FFFF_FFFF * 8) by (nonlinear_arith)
            requires
                n <= 0xFFFF_FFFF_FFFF_FFFF,
                es <= 8,
        ;
        if start as u128 + n as u128 * es as u128 > (len - TRAILER_SIZE) as u128 {
            return Err(Error::MissingOrInvalidOffsetTable);
        }
        let length = n * es;
        let table_slice = slice_subrange(self.input, start, start + length);
        let offsets = match offset_table(table_slice, n, es) {
            Some((offsets, _)) => offsets,
            None => return Err(Error::MissingOrInvalidOffsetTable),
        };
        if t.object_reference_size < 1 || t.object_reference_size > 8 {
            return Err(Error::MissingOrInvalidTrailer);
        }
        Ok(Metadata {
            offset_table: offsets,
            object_reference_size: t.object_reference_size,
            root_object: t.root_object,
            object_table_start: HEADER_SIZE,
            object_table_end: start,
        })
    }
}

impl<'de> Deserializer<'de> {
    /// Decodes the whole document: its envelope, then the tree under its
    /// root, which must be an array or a dictionary. Returns the events of the
    /// root in document order.
    pub fn deserialize_any(&self) -> (r: Result<Vec<Event<'de>>, Error>)
        ensures
            match spec_decode(self.input@) {
                Ok(evs) => r matches Ok(v) && events_view(v@) == evs,
                Err(e) => r matches Err(x) && x == e,
            },
    {
        let metadata = match self.parse_metadata() {
            Ok(m) => m,
            Err(e) => return Err(e),
        };
        let object_table = ObjectTable { input: self.input, metadata };
        let root_object = object_table.metadata.root_object;
        let root_object_type = match object_table.kind_of(root_object) {
            Ok(f) => f,
            Err(e) => return Err(e),
        };
        if root_object_type != ObjectFormat::Array && root_object_type != ObjectFormat::Dictionary {
            return Err(Error::RootObjectNotArrayOrDictionary);
        }
        let mut deserializer = ObjectDeserializer::new(object_table, root_object);
        let mut out: Vec<Event<'de>> = Vec::new();
        proof {
            assert(events_view(out@) =~= Seq::<EventModel>::empty());
        }
        match deserializer.deserialize_any(&mut out) {
            Ok(()) => {
                assert(events_view(out@) =~= spec_decode(self.input@).unwrap());
                Ok(out)
            },
            Err(e) => Err(e),
        }
    }
}

/// Once a prefix of a list fails, the whole list fails with the same error.
proof fn lemma_list_error_persists(s: Seq<u8>, m: DocumentModel, ids: Seq<usize>, k: int, entered: Seq<usize>)
    requires
        0 <= k <= ids.len(),
        spec_list_events(s, m, ids.subrange(0, k), entered) is Err,
    ensures
        spec_list_events(s, m, ids, entered) == spec_list_events(s, m, ids.subrange(0, k), entered),
    decreases ids.len(),
{
    if ids.len() > k {
        assert(ids.drop_last().subrange(0, k) =~= ids.subrange(0, k));
        lemma_list_error_persists(s, m, ids.drop_last(), k, entered);
    } else {
        assert(ids.subrange(0, k) =~= ids);
    }
}

/// Once a prefix of a list of pairs fails, the whole list fails with the same error.
proof fn lemma_pairs_error_persists(s: Seq<u8>, m: DocumentModel, pairs: Seq<(usize, usize)>, k: int, entered: Seq<usize>)
    requires
        0 <= k <= pairs.len(),
        spec_pair_events(s, m, pairs.subrange(0, k), entered) is Err,
    ensures
        spec_pair_events(s, m, pairs, entered) == spec_pair_events(s, m, pairs.subrange(0, k), entered),
    decreases pairs.len(),
{
    if pairs.len() > k {
        assert(pairs.drop_last().subrange(0, k) =~= pairs.subrange(0, k));
        lemma_pairs_error_persists(s, m, pairs.drop_last(), k, entered);
    } else {
        assert(pairs.subrange(0, k) =~= pairs);
    }
}

/// Appending one event appends its value.
proof fn lemma_events_push<'a>(v: Seq<Event<'a>>, e: Event<'a>)
    ensures
        events_view(v.push(e)) == events_view(v).push(e@),
{
    assert(events_view(v.push(e)) =~= events_view(v).push(e@));
}

/// The walker over the object tree: decodes the next object and everything
/// it contains, keeping the stack of the collections being decoded.
#[derive(Debug)]
pub struct ObjectDeserializer<'de> {
    /// The objects of the document.
    pub object_table: ObjectTable<'de>,
    /// The id of the next object to decode.
    pub next_object: usize,
    /// The ids of the collections being decoded, innermost last.
    pub collection_stack: Vec<usize>,
}

impl<'de> ObjectDeserializer<'de> {
    /// The object table is well formed, and the stack holds ids of the offset
    /// table, none of them twice.
    pub open spec fn wf(&self) -> bool {
        &&& self.object_table.wf()
        &&& self.collection_stack@.no_duplicates()
        &&& forall|i: int| 0 <= i < self.collection_stack@.len()
            ==> #[trigger] self.collection_stack@[i] < self.object_table.metadata.offset_table@.len()
    }

    /// Creates a walker that starts at the given object with an empty stack.
    pub fn new(object_table: ObjectTable<'de>, next_object: usize) -> (r: Self)
        ensures
            r.object_table == object_table,
            r.next_object == next_object,
            r.collection_stack@ == Seq::<usize>::empty(),
    {
        ObjectDeserializer { object_table, next_object, collection_stack: Vec::new() }
    }

    /// Sets the next object to decode.
    pub fn set_next_object(&mut self, object: usize)
        ensures
            final(self).next_object == object,
            final(self).object_table == old(self).object_table,
            final(self).collection_stack@ == old(self).collection_stack@,
    {
        self.next_object = object;
    }

    /// Pushes a collection onto the stack; fails with `CycleDetected` when it
    /// is already there.
    #[must_use]
    pub fn enter_collection(&mut self, object: usize) -> (r: Result<(), Error>)
        ensures
            final(self).next_object == old(self).next_object,
            final(self).object_table == old(self).object_table,
            is_reentry(old(self).object_table.metadata@, object, old(self).collection_stack@) ==> {
                &&& r == Err::<(), Error>(Error::CycleDetected)
                &&& final(self).collection_stack@ == old(self).collection_stack@
            },
            !is_reentry(old(self).object_table.metadata@, object, old(self).collection_stack@) ==> {
                &&& r is Ok
                &&& final(self).collection_stack@ == old(self).collection_stack@.push(object)
            },
            old(self).collection_stack@.no_duplicates() ==> final(self).collection_stack@.no_duplicates(),
    {
        let n = self.collection_stack.len();
        if n >= self.object_table.metadata.offset_table.len() {
            return Err(Error::CycleDetected);
        }
        let mut i: usize = 0;
        while i < n
            invariant
                n == self.collection_stack@.len(),
                i <= n,
                forall|j: int| 0 <= j < i ==> self.collection_stack@[j] != object,
            decreases n - i,
        {
            if self.collection_stack[i] == object {
                return Err(Error::CycleDetected);
            }
            i = i + 1;
        }
        self.collection_stack.push(object);
        Ok(())
    }

    /// Pops the most recently entered collection from the stack.
    pub fn exit_collection(&mut self)
        requires
            old(self).collection_stack@.len() > 0,
        ensures
            final(self).next_object == old(self).next_object,
            final(self).object_table == old(self).object_table,
            final(self).collection_stack@ == old(self).collection_stack@.drop_last(),
    {
        self.collection_stack.pop();
    }

    /// Decodes the next object and all it contains, appending its events to
    /// `out` in document order. The stack is as it was when this returns.
    pub fn deserialize_any(&mut self, out: &mut Vec<Event<'de>>) -> (r: Result<(), Error>)
        requires
            old(self).wf(),
        ensures
            final(self).object_table == old(self).object_table,
            final(self).collection_stack@ == old(self).collection_stack@,
            match spec_events(old(self).object_table.input@, old(self).object_table.metadata@, old(self).next_object, old(self).collection_stack@) {
                Ok(evs) => r is Ok && events_view(final(out)@) == events_view(old(out)@) + evs,
                Err(e) => r == Err::<(), Error>(e),
            },
        decreases old(self).object_table.metadata.offset_table@.len() - old(self).collection_stack@.len(), 0int,
    {
        let ghost out0 = events_view(out@);
        let ghost stack0 = self.collection_stack@;
        let object = self.next_object;
        let format = match self.object_table.kind_of(object) {
            Ok(f) => f,
            Err(e) => return Err(e),
        };
        match format {
            ObjectFormat::Array => {
                let ids = match self.object_table.parse_array(object) {
                    Ok(ids) => ids,
                    Err(e) => return Err(e),
                };
                match self.enter_collection(object) {
                    Ok(()) => {},
                    Err(e) => return Err(e),
                }
                proof { lemma_events_push(out@, Event::SeqStart(ids.len())); }
                out.push(Event::SeqStart(ids.len()));
                let elements = self.deserialize_elements(&ids, out);
                match elements {
                    Ok(()) => {},
                    Err(e) => {
                        self.exit_collection();
                        assert(self.collection_stack@ =~= stack0);
                        return Err(e);
                    },
                }
                proof { lemma_events_push(out@, Event::SeqEnd); }
                out.push(Event::SeqEnd);
                self.exit_collection();
                assert(self.collection_stack@ =~= stack0);
                proof {
                    let evs = spec_list_events(self.object_table.input@, self.object_table.metadata@, ids@, stack0.push(object)).unwrap();
                    assert(events_view(out@) =~= out0 + (seq![EventModel::SeqStart(ids@.len() as usize)] + evs + seq![EventModel::SeqEnd]));
                }
                Ok(())
            },
            ObjectFormat::Dictionary => {
                let pairs = match self.object_table.parse_dictionary(object) {
                    Ok(pairs) => pairs,
                    Err(e) => return Err(e),
                };
                match self.enter_collection(object) {
                    Ok(()) => {},
                    Err(e) => return Err(e),
                }
                proof { lemma_events_push(out@, Event::MapStart(pairs.len())); }
                out.push(Event::MapStart(pairs.len()));
                let entries = self.deserialize_entries(&pairs, out);
                match entries {
                    Ok(()) => {},
                    Err(e) => {
                        self.exit_collection();
                        assert(self.collection_stack@ =~= stack0);
                        return Err(e);
                    },
                }
                proof { lemma_events_push(out@, Event::MapEnd); }
                out.push(Event::MapEnd);
                self.exit_collection();
                assert(self.collection_stack@ =~= stack0);
                proof {
                    let evs = spec_pair_events(self.object_table.input@, self.object_table.metadata@, pairs@, stack0.push(object)).unwrap();
                    assert(events_view(out@) =~= out0 + (seq![EventModel::MapStart(pairs@.len() as usize)] + evs + seq![EventModel::MapEnd]));
                }
                Ok(())
            },
            _ => {
                let ev = match self.object_table.parse_primitive(object, format) {
                    Ok(ev) => ev,
                    Err(e) => return Err(e),
                };
                proof { lemma_events_push(out@, ev); }
                out.push(ev);
                assert(events_view(out@) =~= out0 + seq![ev@]);
                Ok(())
            },
        }
    }

    /// Decodes the elements of the array on top of the stack, in order,
    /// appending their events to `out`; stops at the first error.
    #[verifier::loop_isolation(false)]
    fn deserialize_elements(&mut self, ids: &Vec<usize>, out: &mut Vec<Event<'de>>) -> (r: Result<(), Error>)
        requires
            old(self).wf(),
        ensures
            final(self).object_table == old(self).object_table,
            final(self).collection_stack@ == old(self).collection_stack@,
            match spec_list_events(old(self).object_table.input@, old(self).object_table.metadata@, ids@, old(self).collection_stack@) {
                Ok(evs) => r is Ok && events_view(final(out)@) == events_view(old(out)@) + evs,
                Err(e) => r == Err::<(), Error>(e),
            },
        decreases old(self).object_table.metadata.offset_table@.len() - old(self).collection_stack@.len(), 1int,
    {
        let ghost s = self.object_table.input@;
        let ghost m = self.object_table.metadata@;
        let ghost table0 = self.object_table;
        let ghost st = self.collection_stack@;
        let ghost start = events_view(out@);
        let mut i: usize = 0;
        assert(events_view(out@) =~= start + Seq::<EventModel>::empty());
        while i < ids.len()
            invariant
                self.object_table == table0,
                self.collection_stack@ == st,
                i <= ids@.len(),
                match spec_list_events(s, m, ids@.subrange(0, i as int), st) {
                    Ok(evs) => events_view(out@) == start + evs,
                    Err(_) => false,
                },
            decreases ids@.len() - i,
        {
            let ghost prefix = spec_list_events(s, m, ids@.subrange(0, i as int), st);
            proof {
                assert(ids@.subrange(0, i + 1).drop_last() =~= ids@.subrange(0, i as int));
            }
            self.set_next_object(ids[i]);
            match self.deserialize_any(out) {
                Ok(()) => {
                    proof {
                        let b = spec_events(s, m, ids@[i as int], st).unwrap();
                        assert(events_view(out@) =~= start + (prefix.unwrap() + b));
                    }
                },
                Err(e) => {
                    proof {
                        lemma_list_error_persists(s, m, ids@, i + 1, st);
                        assert(ids@.subrange(0, ids@.len() as int) =~= ids@);
                    }
                    return Err(e);
                },
            }
            i = i + 1;
        }
        assert(ids@.subrange(0, i as int) =~= ids@);
        Ok(())
    }

    /// Decodes the (key, value) pairs of the dictionary on top of the stack,
    /// each key before its value, appending their events to `out`; stops at
    /// the first error.
    #[verifier::loop_isolation(false)]
    fn deserialize_entries(&mut self, pairs: &Vec<(usize, usize)>, out: &mut Vec<Event<'de>>) -> (r: Result<(), Error>)
        requires
            old(self).wf(),
        ensures
            final(self).object_table == old(self).object_table,
            final(self).collection_stack@ == old(self).collection_stack@,
            match spec_pair_events(old(self).object_table.input@, old(self).object_table.metadata@, pairs@, old(self).collection_stack@) {
                Ok(evs) => r is Ok && events_view(final(out)@) == events_view(old(out)@) + evs,
                Err(e) => r == Err::<(), Error>(e),
            },
        decreases old(self).object_table.metadata.offset_table@.len() - old(self).collection_stack@.len(), 1int,
    {
        let ghost s = self.object_table.input@;
        let ghost m = self.object_table.metadata@;
        let ghost table0 = self.object_table;
        let ghost st = self.collection_stack@;
        let ghost start = events_view(out@);
        let mut i: usize = 0;
        assert(events_view(out@) =~= start + Seq::<EventModel>::empty());
        while i < pairs.len()
            invariant
                self.object_table == table0,
                self.collection_stack@ == st,
                i <= pairs@.len(),
                match spec_pair_events(s, m, pairs@.subrange(0, i as int), st) {
                    Ok(evs) => events_view(out@) == start + evs,
                    Err(_) => false,
                },
            decreases pairs@.len() - i,
        {
            let ghost prefix = spec_pair_events(s, m, pairs@.subrange(0, i as int), st);
            proof {
                assert(pairs@.subrange(0, i + 1).drop_last() =~= pairs@.subrange(0, i as int));
            }
            let (key, value) = pairs[i];
            self.set_next_object(key);
            match self.deserialize_any(out) {
                Ok(()) => {},
                Err(e) => {
                    proof {
                        lemma_pairs_error_persists(s, m, pairs@, i + 1, st);
                        assert(pairs@.subrange(0, pairs@.len() as int) =~= pairs@);
                    }
                    return Err(e);
                },
            }
            self.set_next_object(value);
            match self.deserialize_any(out) {
                Ok(()) => {
                    proof {
                        let k = spec_events(s, m, key, st).unwrap();
                        let v = spec_events(s, m, value, st).unwrap();
                        assert(events_view(out@) =~= start + (prefix.unwrap() + k + v));
                    }
                },
                Err(e) => {
                    proof {
                        lemma_pairs_error_persists(s, m, pairs@, i + 1, st);
                        assert(pairs@.subrange(0, pairs@.len() as int) =~= pairs@);
                    }
                    return Err(e);
                },
            }
            i = i + 1;
        }
        assert(pairs@.subrange(0, i as int) =~= pairs@);
        Ok(())
    }
}

} // verus!
