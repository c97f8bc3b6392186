//! Connection and stream identifiers, the length-prefixed framing of
//! messages, size formatting, values carrying string attributes, and string
//! maps as JSON.

use vstd::prelude::*;
use vstd::utf8::{decode_utf8, encode_utf8, valid_utf8};
use std::sync::Arc;
use std::sync::atomic::AtomicU64;
use crate::decimal::{
    decimal_text, is_digit, lemma_decimal_text, lemma_parse_u64_text, parse_u64, parse_u64_spec,
    push_decimal,
};
use crate::stringmap::{entries_map, keys_distinct, lemma_view_finite, StringMap};
use crate::text::{
    chars_of, find_first, find_from, first_index_of, lemma_first_index_facts, lemma_first_index_unique,
    push_str,
};

verus! {

// ---------------------------------------------------------------------------
// Identifiers

/// Why a text is not an identifier.
#[derive(Clone, Copy, Debug, PartialEq, Eq, Structural)]
pub enum IdError {
    /// The text does not have the identifier's shape.
    InvalidFormat,
    /// A number in it is not a `u64` numeral.
    InvalidNumber,
}

/// The text of a connection identifier: `conn-` and the number.
pub open spec fn connection_id_text(id: u64) -> Seq<char> {
    "conn-"@ + decimal_text(id as nat)
}

/// The text of a stream identifier: `stream-`, the connection number, `-`,
/// and the stream number.
pub open spec fn stream_id_text(connection: u64, stream: u64) -> Seq<char> {
    "stream-"@ + decimal_text(connection as nat) + "-"@ + decimal_text(stream as nat)
}

/// A connection identifier read from text: `conn-` followed by a `u64` numeral.
pub open spec fn connection_id_from_text(s: Seq<char>) -> Result<u64, IdError> {
    if s.len() >= 5 && s.subrange(0, 5) == "conn-"@ {
        match parse_u64_spec(s.subrange(5, s.len() as int)) {
            Some(n) => Ok(n),
            None => Err(IdError::InvalidNumber),
        }
    } else {
        Err(IdError::InvalidFormat)
    }
}

/// A stream identifier read from text: exactly three `-`-separated parts,
/// the second and third `u64` numerals (the first part is not looked at).
pub open spec fn stream_id_from_text(s: Seq<char>) -> Result<(u64, u64), IdError> {
    match first_index_of(s, '-') {
        None => Err(IdError::InvalidFormat),
        Some(i) => match first_index_of(s.subrange(i + 1, s.len() as int), '-') {
            None => Err(IdError::InvalidFormat),
            Some(d) => {
                let j = i + 1 + d;
                if s.subrange(j + 1, s.len() as int).contains('-') {
                    Err(IdError::InvalidFormat)
                } else {
                    match parse_u64_spec(s.subrange(i + 1, j)) {
                        None => Err(IdError::InvalidNumber),
                        Some(c) => match parse_u64_spec(s.subrange(j + 1, s.len() as int)) {
                            None => Err(IdError::InvalidNumber),
                            Some(t) => Ok((c, t)),
                        },
                    }
                }
            },
        },
    }
}

/// Reading the text of a connection identifier gives back its number.
pub proof fn law_connection_id_text_roundtrip(id: u64)
    ensures
        connection_id_from_text(connection_id_text(id)) == Ok::<u64, IdError>(id),
{
    reveal_strlit("conn-");
    let t = connection_id_text(id);
    assert(t.subrange(0, 5) =~= "conn-"@);
    assert(t.subrange(5, t.len() as int) =~= decimal_text(id as nat));
    lemma_parse_u64_text(id);
}

/// Reading the text of a stream identifier gives back both numbers.
pub proof fn law_stream_id_text_roundtrip(connection: u64, stream: u64)
    ensures
        stream_id_from_text(stream_id_text(connection, stream)) == Ok::<(u64, u64), IdError>((connection, stream)),
{
    reveal_strlit("stream-");
    reveal_strlit("-");
    let dc = decimal_text(connection as nat);
    let ds = decimal_text(stream as nat);
    lemma_decimal_text(connection as nat);
    lemma_decimal_text(stream as nat);
    let t = stream_id_text(connection, stream);
    assert(t =~= "stream-"@ + dc + "-"@ + ds);
    assert(t[6] == '-');
    lemma_first_index_unique(t, '-', 6);
    let rest = t.subrange(7, t.len() as int);
    assert(rest =~= dc + "-"@ + ds);
    assert forall|j: int| 0 <= j < dc.len() implies rest[j] != '-' by {
        assert(rest[j] == dc[j]);
        assert(is_digit(dc[j]));
    }
    assert(rest[dc.len() as int] == '-');
    lemma_first_index_unique(rest, '-', dc.len() as int);
    let j: int = 7 + dc.len() as int;
    assert(t.subrange(j + 1, t.len() as int) =~= ds);
    assert(t.subrange(7, j) =~= dc);
    assert(!ds.contains('-')) by {
        assert forall|k: int| 0 <= k < ds.len() implies ds[k] != '-' by {
            assert(is_digit(ds[k]));
        }
    }
    lemma_parse_u64_text(connection);
    lemma_parse_u64_text(stream);
}

/// A source of successive identifier numbers, wrapping at `u64::MAX`.
#[derive(Debug)]
pub struct IdCounter {
    next: u64,
}

impl View for IdCounter {
    type V = u64;

    closed spec fn view(&self) -> u64 {
        self.next
    }
}

impl IdCounter {
    /// A counter whose first number is 0.
    pub fn new() -> (r: IdCounter)
        ensures
            r@ == 0,
    {
        IdCounter { next: 0 }
    }

    /// Hands out the current number and advances (wrapping).
    pub fn take_next(&mut self) -> (r: u64)
        ensures
            r == old(self)@,
            final(self)@ == (if old(self)@ == u64::MAX { 0 } else { (old(self)@ + 1) as u64 }),
    {
        let r = self.next;
        self.next = if self.next == u64::MAX { 0 } else { self.next + 1 };
        r
    }
}

/// Identifies a QUIC connection; clones share the counter that numbers the
/// connection's streams.
#[derive(Debug)]
pub struct ConnectionId {
    id: u64,
    next_stream: Arc<AtomicU64>,
}

impl View for ConnectionId {
    type V = u64;

    closed spec fn view(&self) -> u64 {
        self.id
    }
}

/// `Arc::clone`: another handle to the same value.
#[verifier::external_body]
pub(crate) fn share_arc<T>(value: &Arc<T>) -> (r: Arc<T>)
    ensures
        r == *value,
{
    Arc::clone(value)
}

impl Clone for ConnectionId {
    fn clone(&self) -> (r: Self)
        ensures
            r@ == self@,
    {
        ConnectionId { id: self.id, next_stream: share_arc(&self.next_stream) }
    }
}

impl ConnectionId {
    /// The identifier numbered `id`, with its stream counter at 0.
    pub fn new(id: u64) -> (r: ConnectionId)
        ensures
            r@ == id,
    {
        ConnectionId { id, next_stream: Arc::new(AtomicU64::new(0)) }
    }

    /// Reads `conn-N`.
    pub fn from_string(connection_id: String) -> (r: Result<ConnectionId, IdError>)
        ensures
            match connection_id_from_text(connection_id@) {
                Ok(n) => r matches Ok(c) && c@ == n,
                Err(e) => r == Err::<ConnectionId, IdError>(e),
            },
    {
        let v = chars_of(connection_id.as_str());
        proof { reveal_strlit("conn-"); }
        if v.len() >= 5 && v[0] == 'c' && v[1] == 'o' && v[2] == 'n' && v[3] == 'n' && v[4] == '-' {
            assert(v@.subrange(0, 5) =~= "conn-"@);
            match parse_u64(&v, 5, v.len()) {
                Some(n) => Ok(ConnectionId::new(n)),
                None => Err(IdError::InvalidNumber),
            }
        } else {
            proof {
                if v@.len() >= 5 && v@.subrange(0, 5) == "conn-"@ {
                    assert(v@[0] == v@.subrange(0, 5)[0]);
                    assert(v@[1] == v@.subrange(0, 5)[1]);
                    assert(v@[2] == v@.subrange(0, 5)[2]);
                    assert(v@[3] == v@.subrange(0, 5)[3]);
                    assert(v@[4] == v@.subrange(0, 5)[4]);
                }
            }
            Err(IdError::InvalidFormat)
        }
    }

    /// The number, as a decimal numeral.
    pub fn get(&self) -> (r: String)
        ensures
            r@ == decimal_text(self@ as nat),
    {
        let mut s = String::new();
        push_decimal(&mut s, self.id);
        assert(s@ =~= decimal_text(self@ as nat));
        s
    }

    /// The text `conn-N`.
    pub fn display_text(&self) -> (r: String)
        ensures
            r@ == connection_id_text(self@),
    {
        let mut s = String::new();
        push_str(&mut s, "conn-");
        push_decimal(&mut s, self.id);
        s
    }

    /// The next stream of this connection. Stream numbers come from a counter
    /// shared by all clones of this identifier and by concurrent callers, so
    /// only the connection number of the result is stated.
    pub fn next_stream_id(&self) -> (r: StreamId)
        ensures
            r.connection_id_spec() == self@,
    {
        let n = self.next_stream.fetch_add(1, std::sync::atomic::Ordering::Relaxed);
        StreamId::new(self.id, n)
    }
}

fn stream_numbers(v: &Vec<char>) -> (r: Result<(u64, u64), IdError>)
    ensures
        r == stream_id_from_text(v@),
{
    let n = v.len();
    let i = match find_first(v, '-') {
        Some(i) => i,
        None => return Err(IdError::InvalidFormat),
    };
    let j = match find_from(v, '-', i + 1) {
        Some(j) => j,
        None => return Err(IdError::InvalidFormat),
    };
    proof { lemma_first_index_facts(v@.subrange(j + 1, n as int), '-'); }
    match find_from(v, '-', j + 1) {
        Some(k) => {
            assert(v@.subrange(j + 1, n as int)[k - j - 1] == '-');
            return Err(IdError::InvalidFormat);
        },
        None => {},
    }
    assert(!v@.subrange(j + 1, n as int).contains('-'));
    let c = match parse_u64(v, i + 1, j) {
        Some(c) => c,
        None => return Err(IdError::InvalidNumber),
    };
    let t = match parse_u64(v, j + 1, n) {
        Some(t) => t,
        None => return Err(IdError::InvalidNumber),
    };
    Ok((c, t))
}

/// Identifies a stream: the connection number and the stream number.
#[derive(Clone, Copy, Debug, PartialEq, Eq, Structural)]
pub struct StreamId(u64, u64);

impl StreamId {
    pub closed spec fn connection_id_spec(&self) -> u64 {
        self.0
    }

    pub closed spec fn stream_id_spec(&self) -> u64 {
        self.1
    }

    pub fn new(connection_id: u64, stream_id: u64) -> (r: StreamId)
        ensures
            r.connection_id_spec() == connection_id,
            r.stream_id_spec() == stream_id,
    {
        StreamId(connection_id, stream_id)
    }

    /// Reads `stream-C-S`.
    pub fn from_string(stream_id: String) -> (r: Result<StreamId, IdError>)
        ensures
            match stream_id_from_text(stream_id@) {
                Ok((c, s)) => r matches Ok(id) && id.connection_id_spec() == c && id.stream_id_spec() == s,
                Err(e) => r == Err::<StreamId, IdError>(e),
            },
    {
        let v = chars_of(stream_id.as_str());
        match stream_numbers(&v) {
            Ok((c, t)) => Ok(StreamId(c, t)),
            Err(e) => Err(e),
        }
    }

    pub fn connection_id(&self) -> (r: u64)
        ensures
            r == self.connection_id_spec(),
    {
        self.0
    }

    pub fn stream_id(&self) -> (r: u64)
        ensures
            r == self.stream_id_spec(),
    {
        self.1
    }

    /// The text `stream-C-S`.
    pub fn display_text(&self) -> (r: String)
        ensures
            r@ == stream_id_text(self.connection_id_spec(), self.stream_id_spec()),
    {
        let mut s = String::new();
        push_str(&mut s, "stream-");
        push_decimal(&mut s, self.0);
        push_str(&mut s, "-");
        push_decimal(&mut s, self.1);
        s
    }
}

// ---------------------------------------------------------------------------
// Length-prefixed framing: a 4-byte big-endian length, then the payload.

/// Why a frame cannot be written or read.
#[derive(Clone, Copy, Debug, PartialEq, Eq, Structural)]
pub enum FrameError {
    /// The payload is longer than a 32-bit length can say.
    PayloadTooLarge,
    /// The receiving buffer cannot hold the 4-byte length.
    BufferTooSmallForPrefix,
    /// The receiving buffer cannot hold the announced payload.
    BufferTooSmall,
    /// A string frame with no bytes.
    EmptyString,
    /// A string frame whose bytes are not UTF-8.
    InvalidUtf8,
}

/// The 4 big-endian bytes of `n`.
pub open spec fn be_u32_bytes(n: u32) -> Seq<u8> {
    seq![
        (n / 0x1000000) as u8,
        ((n / 0x10000) % 0x100) as u8,
        ((n / 0x100) % 0x100) as u8,
        (n % 0x100) as u8,
    ]
}

/// The number that the first 4 bytes of `b` denote, big-endian.
pub open spec fn be_u32_value(b: Seq<u8>) -> nat {
    (b[0] * 0x1000000 + b[1] * 0x10000 + b[2] * 0x100 + b[3]) as nat
}

/// A length prefix read back gives the length that was written.
pub proof fn law_length_prefix_roundtrip(n: u32)
    ensures
        be_u32_value(be_u32_bytes(n)) == n,
{
    let x = n as int;
    assert(x == (x / 0x100) * 0x100 + x % 0x100);
    assert(x / 0x100 == (x / 0x10000) * 0x100 + (x / 0x100) % 0x100);
    assert(x / 0x10000 == (x / 0x1000000) * 0x100 + (x / 0x10000) % 0x100);
}

/// The length prefix of a payload of `payload_len` bytes.
pub fn length_prefix(payload_len: usize) -> (r: Result<Vec<u8>, FrameError>)
    ensures
        payload_len <= u32::MAX ==> (r matches Ok(v) && v@ == be_u32_bytes(payload_len as u32)),
        payload_len > u32::MAX ==> r == Err::<Vec<u8>, FrameError>(FrameError::PayloadTooLarge),
{
    if payload_len > 4294967295 {
        return Err(FrameError::PayloadTooLarge);
    }
    let n = payload_len as u32;
    let v = vec![(n / 0x1000000) as u8, ((n / 0x10000) % 0x100) as u8, ((n / 0x100) % 0x100) as u8, (n % 0x100) as u8];
    assert(v@ =~= be_u32_bytes(n));
    Ok(v)
}

/// The length that a 4-byte prefix announces.
pub fn frame_length(header: &[u8]) -> (r: u32)
    requires
        header@.len() >= 4,
    ensures
        r == be_u32_value(header@),
{
    (header[0] as u32) * 0x1000000 + (header[1] as u32) * 0x10000 + (header[2] as u32) * 0x100 + (header[3] as u32)
}

/// A buffer must hold at least the 4-byte prefix.
pub fn check_prefix_room(capacity: usize) -> (r: Result<(), FrameError>)
    ensures
        r == (if capacity < 4 { Err(FrameError::BufferTooSmallForPrefix) } else { Ok::<(), FrameError>(()) }),
{
    if capacity < 4 {
        Err(FrameError::BufferTooSmallForPrefix)
    } else {
        Ok(())
    }
}

/// The announced payload must fit in the buffer; gives its length.
pub fn check_payload_room(length: u32, capacity: usize) -> (r: Result<usize, FrameError>)
    ensures
        capacity < length ==> r == Err::<usize, FrameError>(FrameError::BufferTooSmall),
        capacity >= length ==> r == Ok::<usize, FrameError>(length as usize),
{
    if (capacity as u64) < (length as u64) {
        Err(FrameError::BufferTooSmall)
    } else {
        Ok(length as usize)
    }
}

/// The text a string frame carries: Err when empty or not UTF-8.
pub open spec fn string_payload_value(b: Seq<u8>) -> Result<Seq<char>, FrameError> {
    if b.len() == 0 {
        Err(FrameError::EmptyString)
    } else if valid_utf8(b) {
        Ok(decode_utf8(b))
    } else {
        Err(FrameError::InvalidUtf8)
    }
}

/// `String::from_utf8`: the text of the bytes when they are UTF-8.
#[verifier::external_body]
fn string_from_utf8(bytes: Vec<u8>) -> (r: Option<String>)
    ensures
        r is Some <==> valid_utf8(bytes@),
        r matches Some(s) ==> s@ == decode_utf8(bytes@),
{
    String::from_utf8(bytes).ok()
}

/// Reads the text of a string frame's payload.
pub fn decode_string_payload(payload: Vec<u8>) -> (r: Result<String, FrameError>)
    ensures
        match string_payload_value(payload@) {
            Ok(t) => r matches Ok(s) && s@ == t,
            Err(e) => r == Err::<String, FrameError>(e),
        },
{
    if payload.len() == 0 {
        return Err(FrameError::EmptyString);
    }
    match string_from_utf8(payload) {
        Some(s) => Ok(s),
        None => Err(FrameError::InvalidUtf8),
    }
}

/// A non-empty text sent as a string frame (its UTF-8 bytes) is read back unchanged.
pub proof fn law_string_payload_roundtrip(text: Seq<char>)
    requires
        text.len() > 0,
    ensures
        string_payload_value(encode_utf8(text)) == Ok::<Seq<char>, FrameError>(text),
{
    vstd::utf8::encode_utf8_valid_utf8(text);
    vstd::utf8::encode_utf8_decode_utf8(text);
    assert(encode_utf8(text).len() > 0);
}

// ---------------------------------------------------------------------------
// Sizes

/// What `humansize::format_size` with the `BINARY` options gives for a size.
pub uninterp spec fn binary_size_text(size: usize) -> Seq<char>;

/// `humansize::format_size(size, humansize::BINARY)`: the size in B, KiB,
/// MiB, ... with up to two decimals. Its rounding is left to the name
/// `binary_size_text`.
#[verifier::external_body]
fn format_size_binary(size: usize) -> (r: String)
    ensures
        r@ == binary_size_text(size),
{
    humansize::format_size(size, humansize::BINARY)
}

/// A byte count in binary units, such as `5.46 GiB`.
pub fn bytes_str(size: usize) -> (r: String)
    ensures
        r@ == binary_size_text(size),
{
    format_size_binary(size)
}

// ---------------------------------------------------------------------------
// Values with string attributes

/// A value together with named string attributes.
pub struct Extendable<T> {
    data: T,
    attributes: StringMap,
}

impl<T> Extendable<T> {
    /// The attributes have distinct names.
    pub closed spec fn wf(&self) -> bool {
        self.attributes.wf()
    }

    /// The value carried.
    pub closed spec fn data_spec(&self) -> T {
        self.data
    }

    /// The attributes, by name.
    pub closed spec fn attributes_spec(&self) -> Map<Seq<char>, Seq<char>> {
        self.attributes@
    }

    /// `data` with no attributes.
    pub fn new(data: T) -> (r: Extendable<T>)
        ensures
            r.wf(),
            r.data_spec() == data,
            r.attributes_spec() == Map::<Seq<char>, Seq<char>>::empty(),
            r.attributes_spec().dom().finite(),
    {
        Extendable { data, attributes: StringMap::new() }
    }

    pub fn get_attributes(&self) -> (r: &StringMap)
        ensures
            r@ == self.attributes_spec(),
            self.wf() ==> r.wf(),
    {
        &self.attributes
    }

    pub fn count_attributes(&self) -> (n: usize)
        requires
            self.wf(),
        ensures
            n == self.attributes_spec().len(),
            self.attributes_spec().dom().finite(),
    {
        proof { lemma_view_finite(&self.attributes); }
        self.attributes.len()
    }

    /// Sets the attribute `key` to `value`.
    pub fn set_attribute(&mut self, key: String, value: String)
        requires
            old(self).wf(),
        ensures
            final(self).wf(),
            final(self).data_spec() == old(self).data_spec(),
            final(self).attributes_spec() == old(self).attributes_spec().insert(key@, value@),
            final(self).attributes_spec().len() == old(self).attributes_spec().len()
                + if old(self).attributes_spec().contains_key(key@) { 0int } else { 1int },
            old(self).attributes_spec().dom().finite(),
            final(self).attributes_spec().dom().finite(),
    {
        proof { lemma_view_finite(&self.attributes); }
        self.attributes.insert(key, value);
        proof { lemma_view_finite(&self.attributes); }
    }

    /// The attribute `key`, if set.
    pub fn get_attribute(&self, key: &str) -> (r: Option<&String>)
        requires
            self.wf(),
        ensures
            match r {
                Some(v) => self.attributes_spec().contains_key(key@) && v@ == self.attributes_spec()[key@],
                None => !self.attributes_spec().contains_key(key@),
            },
    {
        self.attributes.get(key)
    }

    /// Removes the attribute `key`.
    pub fn delete_attribute(&mut self, key: String)
        requires
            old(self).wf(),
        ensures
            final(self).wf(),
            final(self).data_spec() == old(self).data_spec(),
            final(self).attributes_spec() == old(self).attributes_spec().remove(key@),
            final(self).attributes_spec().len() == old(self).attributes_spec().len()
                - if old(self).attributes_spec().contains_key(key@) { 1int } else { 0int },
            old(self).attributes_spec().dom().finite(),
            final(self).attributes_spec().dom().finite(),
    {
        proof { lemma_view_finite(&self.attributes); }
        self.attributes.remove(key.as_str());
        proof { lemma_view_finite(&self.attributes); }
    }

    /// Removes every attribute.
    pub fn clear_attributes(&mut self)
        ensures
            final(self).wf(),
            final(self).data_spec() == old(self).data_spec(),
            final(self).attributes_spec() == Map::<Seq<char>, Seq<char>>::empty(),
            final(self).attributes_spec().dom().finite(),
    {
        self.attributes.clear();
    }

    /// The value carried.
    pub fn as_ref(&self) -> (r: &T)
        ensures
            *r == self.data_spec(),
    {
        &self.data
    }

    /// The value carried, for changing it.
    pub fn as_mut(&mut self) -> (r: &mut T)
        ensures
            *r == old(self).data_spec(),
            final(self).data_spec() == *final(r),
            final(self).attributes_spec() == old(self).attributes_spec(),
            final(self).wf() == old(self).wf(),
    {
        &mut self.data
    }

    /// The value and the attributes.
    pub fn unwrap(self) -> (r: (T, StringMap))
        ensures
            r.0 == self.data_spec(),
            r.1@ == self.attributes_spec(),
            self.wf() ==> r.1.wf(),
    {
        (self.data, self.attributes)
    }
}

// ---------------------------------------------------------------------------
// String maps as JSON objects

/// Why a JSON text could not be produced or read.
#[derive(Clone, Copy, Debug, PartialEq, Eq, Structural)]
pub enum JsonError {
    /// The text is not a JSON object whose values are all strings.
    NotAStringObject,
    /// The map could not be written.
    EncodingFailed,
}

/// What `serde_json::from_str::<HashMap<String, String>>` reads from a text,
/// when it succeeds.
pub uninterp spec fn json_string_object(text: Seq<char>) -> Option<Map<Seq<char>, Seq<char>>>;

/// `serde_json::from_str::<HashMap<String, String>>`, the entries handed out
/// in the map's iteration order. The JSON grammar, and which of repeated keys
/// is kept, are left to the name `json_string_object`.
#[verifier::external_body]
fn json_object_entries(json: &str) -> (r: Option<Vec<(String, String)>>)
    ensures
        match json_string_object(json@) {
            Some(m) => r matches Some(v) && keys_distinct(v@) && entries_map(v@) == m,
            None => r is None,
        },
{
    match serde_json::from_str::<std::collections::HashMap<String, String>>(json) {
        Ok(map) => Some(map.into_iter().collect()),
        Err(_) => None,
    }
}

/// `serde_json::to_string` of a `HashMap<String, String>` collected from the
/// entries (a later entry replaces an earlier one with the same key).
/// Serializing a map with string keys does not fail, and reading the text
/// back with `serde_json::from_str::<HashMap<String, String>>` gives that map
/// again: that is what the contract claims. The order of the keys in the text
/// follows the hash map's iteration order, which varies between runs, so the
/// text itself is not stated.
#[verifier::external_body]
fn json_of_entries(entries: &Vec<(String, String)>) -> (r: Option<String>)
    ensures
        r is Some,
        json_string_object(r.unwrap()@) == Some(entries_map(entries@)),
{
    let map: std::collections::HashMap<String, String> = entries.iter().cloned().collect();
    serde_json::to_string(&map).ok()
}

/// Writes a map as a JSON object of strings: the text reads back as the map.
pub fn encode_map_as_json(map: &StringMap) -> (r: Result<String, JsonError>)
    requires
        map.wf(),
    ensures
        r matches Ok(t) && json_string_object(t@) == Some(map@),
{
    match json_of_entries(map.entries()) {
        Some(text) => Ok(text),
        None => Err(JsonError::EncodingFailed),
    }
}

/// Reads a JSON object of strings into a map.
pub fn decode_json_as_map(json: &str) -> (r: Result<StringMap, JsonError>)
    ensures
        match json_string_object(json@) {
            Some(m) => r matches Ok(map) && map.wf() && map@ == m,
            None => r == Err::<StringMap, JsonError>(JsonError::NotAStringObject),
        },
{
    let entries = match json_object_entries(json) {
        Some(v) => v,
        None => return Err(JsonError::NotAStringObject),
    };
    let mut map = StringMap::new();
    let mut i: usize = 0;
    while i < entries.len()
        invariant
            i <= entries@.len(),
            map.wf(),
            map@ == entries_map(entries@.subrange(0, i as int)),
        decreases entries@.len() - i,
    {
        let key = entries[i].0.clone();
        let value = entries[i].1.clone();
        map.insert(key, value);
        assert(entries@.subrange(0, i + 1).drop_last() =~= entries@.subrange(0, i as int));
        i = i + 1;
    }
    assert(entries@.subrange(0, entries@.len() as int) =~= entries@);
    Ok(map)
}

} // verus!
