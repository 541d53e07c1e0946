//! The parsed ICE candidate, as plain values.

use vstd::prelude::*;
use crate::c_string::has_nul;

verus! {

/// One ICE candidate as the parser found it on an SDP `candidate` line.
///
/// Every text is held as the bytes that stood for it, without a terminator.
#[derive(Debug, Clone, PartialEq, Eq)]
pub struct ParsedCandidate {
    /// Identifier shared by candidates of one network path.
    pub foundation: Vec<u8>,
    pub component_id: u32,
    /// Transport token, such as `udp`.
    pub transport: Vec<u8>,
    pub priority: u64,
    /// The address in its textual form.
    pub connection_address: Vec<u8>,
    pub port: u16,
    /// Type token, such as `host`, `srflx`, `prflx` or `relay`.
    pub candidate_type: Vec<u8>,
    /// The related address in its textual form, where the line gave one.
    pub rel_addr: Option<Vec<u8>>,
    /// The related port, where the line gave one. A line may give the address without
    /// the port or the port without the address: the parser takes either.
    pub rel_port: Option<u16>,
    /// Extension attributes as key and value, in the order in which the parser's map
    /// hands them out. No key occurs twice.
    pub extensions: Vec<(Vec<u8>, Vec<u8>)>,
}

/// A candidate as a mathematical value. The extension attributes form a map:
/// their order carries no meaning.
pub struct CandidateView {
    pub foundation: Seq<u8>,
    pub component_id: u32,
    pub transport: Seq<u8>,
    pub priority: u64,
    pub connection_address: Seq<u8>,
    pub port: u16,
    pub candidate_type: Seq<u8>,
    pub rel_addr: Option<Seq<u8>>,
    pub rel_port: Option<u16>,
    pub extensions: Map<Seq<u8>, Seq<u8>>,
}

/// The map that a list of key/value pairs stands for. Of two pairs with one key
/// the later one counts.
pub open spec fn extension_map(pairs: Seq<(Seq<u8>, Seq<u8>)>) -> Map<Seq<u8>, Seq<u8>>
    decreases pairs.len(),
{
    if pairs.len() == 0 {
        Map::empty()
    } else {
        extension_map(pairs.drop_last()).insert(pairs.last().0, pairs.last().1)
    }
}

/// No two pairs share a key.
pub open spec fn distinct_keys(pairs: Seq<(Seq<u8>, Seq<u8>)>) -> bool {
    forall|i: int, j: int|
        0 <= i < pairs.len() && 0 <= j < pairs.len() && i != j
            ==> (#[trigger] pairs[i]).0 != (#[trigger] pairs[j]).0
}

impl CandidateView {
    /// The related address and the related port as the one thing they are: a pair that
    /// is there or is not. It is there where the candidate has the address and a port
    /// other than `0`. An address without such a port, and a port without an address,
    /// make no pair.
    pub open spec fn related_pair(self) -> Option<(Seq<u8>, u16)> {
        match self.rel_addr {
            Some(addr) => match self.rel_port {
                Some(port) => if port != 0 {
                    Some((addr, port))
                } else {
                    None
                },
                None => None,
            },
            None => None,
        }
    }

    /// The related address and the related port are absent together, or present
    /// together with a port other than `0`: nothing of them falls outside the pair.
    pub open spec fn related_pair_is_whole(self) -> bool {
        &&& self.rel_addr is None <==> self.rel_port is None
        &&& self.rel_port != Some(0u16)
    }

    /// Whether one of the texts of the candidate holds a NUL byte: one of the four texts
    /// that every candidate has, or the related address wherever the candidate has one,
    /// whatever its related port. Such a text has no C string.
    pub open spec fn has_embedded_nul(self) -> bool {
        ||| has_nul(self.foundation)
        ||| has_nul(self.transport)
        ||| has_nul(self.connection_address)
        ||| has_nul(self.candidate_type)
        ||| (self.rel_addr matches Some(addr) && has_nul(addr))
    }
}

impl ParsedCandidate {
    /// The extension attributes as pairs of byte sequences, in their stored order.
    pub open spec fn extension_pairs(self) -> Seq<(Seq<u8>, Seq<u8>)> {
        Seq::new(self.extensions@.len(), |i: int| (self.extensions@[i].0@, self.extensions@[i].1@))
    }

    /// The invariant of a parsed candidate: its extension keys are unique.
    pub open spec fn wf(self) -> bool {
        distinct_keys(self.extension_pairs())
    }
}

impl View for ParsedCandidate {
    type V = CandidateView;

    open spec fn view(&self) -> CandidateView {
        CandidateView {
            foundation: self.foundation@,
            component_id: self.component_id,
            transport: self.transport@,
            priority: self.priority,
            connection_address: self.connection_address@,
            port: self.port,
            candidate_type: self.candidate_type@,
            rel_addr: match self.rel_addr {
                Some(addr) => Some(addr@),
                None => None,
            },
            rel_port: self.rel_port,
            extensions: extension_map(self.extension_pairs()),
        }
    }
}

/// Every pair of the list is found in its map under its key, unless a later pair
/// has the same key; and the map holds nothing else.
pub proof fn lemma_extension_map_contents(pairs: Seq<(Seq<u8>, Seq<u8>)>)
    ensures
        extension_map(pairs).dom().finite(),
        extension_map(pairs).dom().len() <= pairs.len(),
        forall|k: Seq<u8>| #[trigger]
            extension_map(pairs).dom().contains(k) <==> exists|i: int|
                0 <= i < pairs.len() && (#[trigger] pairs[i]).0 == k,
        distinct_keys(pairs) ==> extension_map(pairs).dom().len() == pairs.len(),
        distinct_keys(pairs) ==> forall|i: int|
            0 <= i < pairs.len() ==> extension_map(pairs)[(#[trigger] pairs[i]).0] == pairs[i].1,
    decreases pairs.len(),
{
    if pairs.len() == 0 {
    } else {
        let init = pairs.drop_last();
        let last = pairs.last();
        lemma_extension_map_contents(init);
        assert forall|k: Seq<u8>| #[trigger]
            extension_map(pairs).dom().contains(k) <==> exists|i: int|
                0 <= i < pairs.len() && (#[trigger] pairs[i]).0 == k by {
            if extension_map(pairs).dom().contains(k) {
                if k == last.0 {
                    assert(pairs[pairs.len() - 1].0 == k);
                } else {
                    assert(extension_map(init).dom().contains(k));
                    let i = choose|i: int| 0 <= i < init.len() && (#[trigger] init[i]).0 == k;
                    assert(pairs[i].0 == k);
                }
            }
            if exists|i: int| 0 <= i < pairs.len() && (#[trigger] pairs[i]).0 == k {
                let i = choose|i: int| 0 <= i < pairs.len() && (#[trigger] pairs[i]).0 == k;
                if i < init.len() {
                    assert(init[i].0 == k);
                }
            }
        }
        if distinct_keys(pairs) {
            assert(distinct_keys(init)) by {
                assert forall|i: int, j: int|
                    0 <= i < init.len() && 0 <= j < init.len() && i != j implies (#[trigger] init[i]).0
                    != (#[trigger] init[j]).0 by {
                    assert(pairs[i].0 != pairs[j].0);
                }
            }
            assert(!extension_map(init).dom().contains(last.0)) by {
                if extension_map(init).dom().contains(last.0) {
                    let i = choose|i: int| 0 <= i < init.len() && (#[trigger] init[i]).0 == last.0;
                    assert(pairs[i].0 == pairs[pairs.len() - 1].0);
                }
            }
            assert forall|i: int| 0 <= i < pairs.len() implies extension_map(pairs)[(
            #[trigger] pairs[i]).0] == pairs[i].1 by {
                if i < init.len() {
                    assert(init[i].0 == pairs[i].0);
                    assert(pairs[i].0 != pairs[pairs.len() - 1].0);
                }
            }
        }
    }
}

} // verus!
