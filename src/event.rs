//! The materialization events that a decode produces, in document order.
use vstd::prelude::*;

verus! {

/// One materialization callback, as the object-tree walker emits it.
///
/// Floating-point values are carried as the bits of their IEEE-754 encoding.
/// Strings and byte blobs borrow from the input where the wire format allows.
#[derive(Debug, PartialEq)]
pub enum Event<'a> {
    /// A boolean.
    Bool(bool),
    /// An 8-bit unsigned integer.
    UInt8(u8),
    /// A 16-bit unsigned integer.
    UInt16(u16),
    /// A 32-bit unsigned integer.
    UInt32(u32),
    /// A 64-bit signed integer.
    SInt64(i64),
    /// The bits of a single-precision floating point value.
    Float32(u32),
    /// The bits of a double-precision floating point value.
    Float64(u64),
    /// A byte blob borrowed from the input.
    Bytes(&'a [u8]),
    /// An ASCII string borrowed from the input.
    Str(&'a str),
    /// A string decoded from UTF-16.
    String(String),
    /// A fill object.
    Unit,
    /// The bits of a date's CFAbsoluteTime value.
    Date(u64),
    /// The opaque bytes of a uid.
    Uid(&'a [u8]),
    /// The start of an array of the given length.
    SeqStart(usize),
    /// The end of the array last started.
    SeqEnd,
    /// The start of a dictionary with the given number of entries.
    MapStart(usize),
    /// The end of the dictionary last started.
    MapEnd,
}

/// The mathematical value of an [`Event`].
pub enum EventModel {
    Bool(bool),
    UInt8(u8),
    UInt16(u16),
    UInt32(u32),
    SInt64(i64),
    Float32(u32),
    Float64(u64),
    Bytes(Seq<u8>),
    Str(Seq<char>),
    String(Seq<char>),
    Unit,
    Date(u64),
    Uid(Seq<u8>),
    SeqStart(usize),
    SeqEnd,
    MapStart(usize),
    MapEnd,
}

impl<'a> View for Event<'a> {
    type V = EventModel;

    open spec fn view(&self) -> EventModel {
        match self {
            Event::Bool(b) => EventModel::Bool(*b),
            Event::UInt8(v) => EventModel::UInt8(*v),
            Event::UInt16(v) => EventModel::UInt16(*v),
            Event::UInt32(v) => EventModel::UInt32(*v),
            Event::SInt64(v) => EventModel::SInt64(*v),
            Event::Float32(v) => EventModel::Float32(*v),
            Event::Float64(v) => EventModel::Float64(*v),
            Event::Bytes(b) => EventModel::Bytes(b@),
            Event::Str(s) => EventModel::Str(s@),
            Event::String(s) => EventModel::String(s@),
            Event::Unit => EventModel::Unit,
            Event::Date(v) => EventModel::Date(*v),
            Event::Uid(b) => EventModel::Uid(b@),
            Event::SeqStart(n) => EventModel::SeqStart(*n),
            Event::SeqEnd => EventModel::SeqEnd,
            Event::MapStart(n) => EventModel::MapStart(*n),
            Event::MapEnd => EventModel::MapEnd,
        }
    }
}

/// The values of a sequence of events.
pub open spec fn events_view<'a>(v: Seq<Event<'a>>) -> Seq<EventModel> {
    v.map_values(|e: Event<'a>| e@)
}

} // verus!
