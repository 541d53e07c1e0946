//! The boundary record and the way a parsed candidate is laid out in it.
//!
//! The record owns each buffer that a C reader will be given the address of. Next to a
//! buffer stands the length under which the reader sees it, and the release of the buffer
//! goes by that length alone. So every length here equals the length of its buffer, and
//! every string buffer ends at its first NUL.
//!
//! The related address and the related port are one pair. A record has both, with a port
//! other than `0`, or it has neither: a null address beside the port `0`. The parser takes
//! lines that give only one of the two, or the port `0`; such a half pair is not laid out,
//! and the record is that of a candidate without a related pair.

use vstd::prelude::*;
use crate::c_string::{
    c_alloc_len, c_string_of, c_text, contains_nul, copy_bytes, is_c_string,
    lemma_c_string_is_terminated_text, lemma_c_string_round_trip, to_c_string,
};
use crate::candidate::{
    distinct_keys, extension_map, lemma_extension_map_contents, CandidateView, ParsedCandidate,
};

verus! {

/// One extension attribute: a key buffer and a value buffer, each with its length.
#[derive(Debug)]
pub struct KeyValuePair {
    pub key: Vec<u8>,
    pub key_len: usize,
    pub val: Vec<u8>,
    pub val_len: usize,
}

/// The extension attributes as an array with its element count.
///
/// `len` is the length of `values`; a record without extension attributes has an
/// empty array and the count 0.
#[derive(Debug)]
pub struct KeyValueMap {
    pub values: Vec<KeyValuePair>,
    pub len: usize,
}

/// An ICE candidate in the layout that crosses the boundary.
#[derive(Debug)]
pub struct IceCandidateFFI {
    pub foundation: Vec<u8>,
    pub component_id: u32,
    pub transport: Vec<u8>,
    pub priority: u64,
    pub connection_address: Vec<u8>,
    pub port: u16,
    pub candidate_type: Vec<u8>,
    /// The related address; `None` stands for the null pointer of a candidate without a
    /// related pair.
    pub rel_addr: Option<Vec<u8>>,
    /// The related port; `0` exactly where the related address is `None`.
    pub rel_port: u16,
    /// Always there, possibly empty.
    pub extensions: KeyValueMap,
}

/// The related port that a reader takes a record's port field to mean.
pub open spec fn port_of_sentinel(field: u16) -> Option<u16> {
    if field == 0 {
        None
    } else {
        Some(field)
    }
}

impl KeyValuePair {
    /// Both lengths are those of their buffers.
    pub open spec fn wf(self) -> bool {
        &&& self.key_len == self.key@.len()
        &&& self.val_len == self.val@.len()
    }

    /// The key and the value that a reader finds, going by the two lengths.
    pub open spec fn entry(self) -> (Seq<u8>, Seq<u8>) {
        (self.key@.take(self.key_len as int), self.val@.take(self.val_len as int))
    }

    /// A pair that owns a copy of `key` and a copy of `val`.
    pub fn new(key: &[u8], val: &[u8]) -> (pair: KeyValuePair)
        ensures
            pair.wf(),
            pair.key@ == key@,
            pair.val@ == val@,
            pair.entry() == (key@, val@),
    {
        let key_copy = copy_bytes(key);
        let val_copy = copy_bytes(val);
        let key_len = key_copy.len();
        let val_len = val_copy.len();
        assert(key@.take(key_len as int) =~= key@);
        assert(val@.take(val_len as int) =~= val@);
        KeyValuePair { key: key_copy, key_len, val: val_copy, val_len }
    }
}

impl KeyValueMap {
    /// The count is the length of the array, and every pair is well formed.
    pub open spec fn wf(self) -> bool {
        &&& self.len == self.values@.len()
        &&& forall|i: int| 0 <= i < self.values@.len() ==> (#[trigger] self.values@[i]).wf()
    }

    /// The pairs that a reader finds, going by the count.
    pub open spec fn entries(self) -> Seq<(Seq<u8>, Seq<u8>)> {
        Seq::new(self.len as nat, |i: int| self.values@[i].entry())
    }

    /// The array holds the map `m`, each entry once and nothing else: the count is the
    /// size of `m`, no key stands twice, every pair that a reader finds is an entry of `m`,
    /// and every key of `m` is the key of a pair.
    pub open spec fn holds(self, m: Map<Seq<u8>, Seq<u8>>) -> bool {
        &&& m.dom().finite()
        &&& self.len == m.dom().len()
        &&& distinct_keys(self.entries())
        &&& forall|i: int|
            0 <= i < self.len ==> m.contains_pair(
                (#[trigger] self.entries()[i]).0,
                self.entries()[i].1,
            )
        &&& forall|k: Seq<u8>| #[trigger]
            m.dom().contains(k) ==> exists|i: int|
                0 <= i < self.len && (#[trigger] self.entries()[i]).0 == k
    }

    /// The array for a list of extension attributes: one pair for each, in the same order,
    /// each buffer a copy of its own.
    pub fn from_pairs(pairs: &Vec<(Vec<u8>, Vec<u8>)>) -> (map: KeyValueMap)
        ensures
            map.wf(),
            map.len == pairs@.len(),
            map.entries() == Seq::new(pairs@.len(), |i: int| (pairs@[i].0@, pairs@[i].1@)),
            forall|i: int|
                0 <= i < pairs@.len() ==> (#[trigger] map.values@[i]).key@ == pairs@[i].0@
                    && map.values@[i].val@ == pairs@[i].1@,
    {
        let mut values: Vec<KeyValuePair> = Vec::with_capacity(pairs.len());
        let mut i: usize = 0;
        while i < pairs.len()
            invariant
                i <= pairs.len(),
                values@.len() == i,
                forall|j: int|
                    0 <= j < i ==> {
                        &&& (#[trigger] values@[j]).wf()
                        &&& values@[j].key@ == pairs@[j].0@
                        &&& values@[j].val@ == pairs@[j].1@
                        &&& values@[j].entry() == (pairs@[j].0@, pairs@[j].1@)
                    },
            decreases pairs.len() - i,
        {
            let pair = KeyValuePair::new(pairs[i].0.as_slice(), pairs[i].1.as_slice());
            values.push(pair);
            i += 1;
        }
        let len = values.len();
        let map = KeyValueMap { values, len };
        assert(map.entries() =~= Seq::new(pairs@.len(), |i: int| (pairs@[i].0@, pairs@[i].1@)));
        map
    }
}

impl IceCandidateFFI {
    /// The invariant of a record: each string buffer is a C string, the related address
    /// is null exactly where the related port is `0`, and the extension array is well
    /// formed.
    pub open spec fn wf(self) -> bool {
        &&& is_c_string(self.foundation@)
        &&& is_c_string(self.transport@)
        &&& is_c_string(self.connection_address@)
        &&& is_c_string(self.candidate_type@)
        &&& self.rel_addr matches Some(addr) ==> is_c_string(addr@)
        &&& self.rel_addr is None <==> self.rel_port == 0
        &&& self.extensions.wf()
    }

    /// The record holds the candidate `c`: each text with its terminator, the related pair
    /// of `c` as an address with its port or, where `c` has no such pair, as a null address
    /// beside the port `0`, and extension attributes that make up the map of `c`.
    pub open spec fn represents(self, c: CandidateView) -> bool {
        &&& self.foundation@ == c_string_of(c.foundation)
        &&& self.component_id == c.component_id
        &&& self.transport@ == c_string_of(c.transport)
        &&& self.priority == c.priority
        &&& self.connection_address@ == c_string_of(c.connection_address)
        &&& self.port == c.port
        &&& self.candidate_type@ == c_string_of(c.candidate_type)
        &&& match c.related_pair() {
            Some(pair) => self.rel_addr matches Some(buf) && buf@ == c_string_of(pair.0)
                && self.rel_port == pair.1,
            None => self.rel_addr is None && self.rel_port == 0,
        }
        &&& extension_map(self.extensions.entries()) == c.extensions
    }

    /// The candidate that a reader on the C side takes the record to hold: each string up
    /// to its first NUL, a null related address as none, a related port of `0` as none, and
    /// as many pairs as the count says, each as long as its lengths say.
    pub open spec fn decoded(self) -> CandidateView {
        CandidateView {
            foundation: c_text(self.foundation@),
            component_id: self.component_id,
            transport: c_text(self.transport@),
            priority: self.priority,
            connection_address: c_text(self.connection_address@),
            port: self.port,
            candidate_type: c_text(self.candidate_type@),
            rel_addr: match self.rel_addr {
                Some(buf) => Some(c_text(buf@)),
                None => None,
            },
            rel_port: port_of_sentinel(self.rel_port),
            extensions: extension_map(self.extensions.entries()),
        }
    }

    /// Lays out a parsed candidate as a boundary record.
    ///
    /// Every buffer of the record is a fresh copy. A candidate with a NUL byte inside one
    /// of its texts has no faithful record, and none is built for it; that holds of a
    /// related address too, whether or not it would have been laid out.
    ///
    /// The related address and port are laid out as a pair or not at all: where the
    /// candidate has an address but no port, a port but no address, or the port `0`, the
    /// record has a null address and the port `0`.
    pub fn from_parsed(parsed: &ParsedCandidate) -> (out: Option<IceCandidateFFI>)
        ensures
            out is None <==> parsed@.has_embedded_nul(),
            out matches Some(record) ==> {
                &&& record.wf()
                &&& record.represents(parsed@)
                &&& record.extensions.entries() == parsed.extension_pairs()
                &&& record.rel_addr is None <==> record.rel_port == 0
                &&& parsed.rel_addr is None ==> record.rel_addr is None && record.rel_port == 0
                &&& parsed.rel_port is None ==> record.rel_addr is None && record.rel_port == 0
                &&& parsed.extensions@.len() == 0 ==> record.extensions.len == 0
                    && record.extensions.values@.len() == 0
            },
    {
        let foundation = match to_c_string(parsed.foundation.as_slice()) {
            Some(buf) => buf,
            None => { return None; },
        };
        let transport = match to_c_string(parsed.transport.as_slice()) {
            Some(buf) => buf,
            None => { return None; },
        };
        let connection_address = match to_c_string(parsed.connection_address.as_slice()) {
            Some(buf) => buf,
            None => { return None; },
        };
        let candidate_type = match to_c_string(parsed.candidate_type.as_slice()) {
            Some(buf) => buf,
            None => { return None; },
        };
        let mut rel_addr: Option<Vec<u8>> = None;
        let mut rel_port: u16 = 0;
        match &parsed.rel_addr {
            Some(addr) => {
                if contains_nul(addr.as_slice()) {
                    return None;
                }
                match parsed.rel_port {
                    Some(port) => {
                        if port != 0 {
                            rel_addr = to_c_string(addr.as_slice());
                            rel_port = port;
                        }
                    },
                    None => {},
                }
            },
            None => {},
        }
        let extensions = KeyValueMap::from_pairs(&parsed.extensions);
        Some(
            IceCandidateFFI {
                foundation,
                component_id: parsed.component_id,
                transport,
                priority: parsed.priority,
                connection_address,
                port: parsed.port,
                candidate_type,
                rel_addr,
                rel_port,
                extensions,
            },
        )
    }
}

/// Reading a record gives back the candidate it was built for, field for field: every text
/// without its terminator, the related address, the related port, and the extension
/// attributes. This is said of a candidate whose related pair is whole; of a half pair
/// the record shows nothing.
pub proof fn lemma_read_back(record: IceCandidateFFI, c: CandidateView)
    requires
        record.represents(c),
        !c.has_embedded_nul(),
        c.related_pair_is_whole(),
    ensures
        record.decoded() == c,
{
    lemma_c_string_round_trip(c.foundation);
    lemma_c_string_round_trip(c.transport);
    lemma_c_string_round_trip(c.connection_address);
    lemma_c_string_round_trip(c.candidate_type);
    match c.related_pair() {
        Some(pair) => {
            lemma_c_string_round_trip(pair.0);
        },
        None => {},
    }
    assert(record.decoded().extensions == c.extensions);
}

/// A record is determined by what is read from it: two well-formed records that read as
/// the same candidate, with the same pairs in the same order, hold the same bytes in
/// every buffer and the same number in every field.
pub proof fn lemma_reading_determines_record(a: IceCandidateFFI, b: IceCandidateFFI)
    requires
        a.wf(),
        b.wf(),
        a.decoded() == b.decoded(),
        a.extensions.entries() == b.extensions.entries(),
    ensures
        a.foundation@ == b.foundation@,
        a.component_id == b.component_id,
        a.transport@ == b.transport@,
        a.priority == b.priority,
        a.connection_address@ == b.connection_address@,
        a.port == b.port,
        a.candidate_type@ == b.candidate_type@,
        a.rel_addr is None <==> b.rel_addr is None,
        a.rel_addr matches Some(x) ==> b.rel_addr matches Some(y) && x@ == y@,
        a.rel_port == b.rel_port,
        a.extensions.len == b.extensions.len,
        forall|i: int|
            0 <= i < a.extensions.len ==> (#[trigger] a.extensions.values@[i]).key@
                == b.extensions.values@[i].key@ && a.extensions.values@[i].val@
                == b.extensions.values@[i].val@,
{
    lemma_c_string_is_terminated_text(a.foundation@);
    lemma_c_string_is_terminated_text(b.foundation@);
    lemma_c_string_is_terminated_text(a.transport@);
    lemma_c_string_is_terminated_text(b.transport@);
    lemma_c_string_is_terminated_text(a.connection_address@);
    lemma_c_string_is_terminated_text(b.connection_address@);
    lemma_c_string_is_terminated_text(a.candidate_type@);
    lemma_c_string_is_terminated_text(b.candidate_type@);
    match (a.rel_addr, b.rel_addr) {
        (Some(x), Some(y)) => {
            lemma_c_string_is_terminated_text(x@);
            lemma_c_string_is_terminated_text(y@);
        },
        _ => {},
    }
    assert(a.extensions.entries().len() == b.extensions.entries().len());
    assert forall|i: int| 0 <= i < a.extensions.len implies (#[trigger] a.extensions.values@[i]).key@
        == b.extensions.values@[i].key@ && a.extensions.values@[i].val@
        == b.extensions.values@[i].val@ by {
        let x = a.extensions.values@[i];
        let y = b.extensions.values@[i];
        assert(x.wf() && y.wf());
        assert(a.extensions.entries()[i] == x.entry());
        assert(b.extensions.entries()[i] == y.entry());
        assert(x.key@.take(x.key_len as int) =~= x.key@);
        assert(y.key@.take(y.key_len as int) =~= y.key@);
        assert(x.val@.take(x.val_len as int) =~= x.val@);
        assert(y.val@.take(y.val_len as int) =~= y.val@);
    }
}

/// Release goes by what the record shows: a string is given back up to and with its first
/// NUL, the array by its count, a key and a value by their lengths. In a well-formed
/// record each of these is the length that the buffer was allocated with, so release
/// gives back all of every buffer and nothing beyond it.
pub proof fn lemma_release_lengths(record: IceCandidateFFI)
    requires
        record.wf(),
    ensures
        c_alloc_len(record.foundation@) == record.foundation@.len(),
        c_alloc_len(record.transport@) == record.transport@.len(),
        c_alloc_len(record.connection_address@) == record.connection_address@.len(),
        c_alloc_len(record.candidate_type@) == record.candidate_type@.len(),
        record.rel_addr matches Some(addr) ==> c_alloc_len(addr@) == addr@.len(),
        record.extensions.len == record.extensions.values@.len(),
        forall|i: int|
            0 <= i < record.extensions.values@.len() ==> (
            #[trigger] record.extensions.values@[i]).key_len
                == record.extensions.values@[i].key@.len() && record.extensions.values@[i].val_len
                == record.extensions.values@[i].val@.len(),
{
    lemma_c_string_is_terminated_text(record.foundation@);
    lemma_c_string_is_terminated_text(record.transport@);
    lemma_c_string_is_terminated_text(record.connection_address@);
    lemma_c_string_is_terminated_text(record.candidate_type@);
    match record.rel_addr {
        Some(addr) => {
            lemma_c_string_is_terminated_text(addr@);
        },
        None => {},
    }
    assert forall|i: int| 0 <= i < record.extensions.values@.len() implies (
    #[trigger] record.extensions.values@[i]).key_len == record.extensions.values@[i].key@.len()
        && record.extensions.values@[i].val_len == record.extensions.values@[i].val@.len() by {
        assert(record.extensions.values@[i].wf());
    }
}

/// The related address and the related port of a record are absent together or present
/// together, whatever the candidate: the address is null exactly where the port is `0`.
/// A candidate without a related address has a record with neither, and so has one
/// without a related port or with the port `0`.
pub proof fn lemma_related_pair(record: IceCandidateFFI, c: CandidateView)
    requires
        record.represents(c),
    ensures
        record.rel_addr is None <==> record.rel_port == 0,
        c.rel_addr is None ==> record.rel_addr is None && record.rel_port == 0,
        c.rel_port is None || c.rel_port == Some(0u16) ==> record.rel_addr is None
            && record.rel_port == 0,
        c.related_pair() is Some ==> record.rel_addr is Some && Some(record.rel_port)
            == c.rel_port,
{
}

/// The extension array of a record holds the extension attributes of its candidate, each
/// once and nothing else, where no key stands twice in the record. So the count of the
/// record is the number of the candidate's attributes, and a candidate without extension
/// attributes has the count 0.
pub proof fn lemma_extension_count(record: IceCandidateFFI, c: CandidateView)
    requires
        record.represents(c),
        distinct_keys(record.extensions.entries()),
    ensures
        record.extensions.holds(c.extensions),
        c.extensions.dom().finite(),
        record.extensions.len == c.extensions.dom().len(),
        c.extensions == Map::<Seq<u8>, Seq<u8>>::empty() ==> record.extensions.len == 0,
{
    let entries = record.extensions.entries();
    lemma_extension_map_contents(entries);
    assert forall|i: int| 0 <= i < record.extensions.len implies c.extensions.contains_pair(
        (#[trigger] entries[i]).0,
        entries[i].1,
    ) by {
        assert(c.extensions.dom().contains(entries[i].0));
    }
}

} // verus!
