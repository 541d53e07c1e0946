//! The two operations of the boundary: build a record from an SDP line, and take it back.

use vstd::prelude::*;
use crate::parser::{parse_candidate, parsed_candidate};
use crate::record::{lemma_extension_count, IceCandidateFFI};

verus! {

/// Parses an SDP `candidate` line and lays the candidate out as a boundary record.
///
/// `None` as the argument stands for a null pointer and is answered with `None` before the
/// parser is asked. Otherwise the result is `None` exactly where the bytes are no candidate
/// line, and else a well-formed record of what the parser found. A candidate with a NUL byte
/// in one of its texts would have no record either; the parser yields none.
///
/// In every record the related address is null exactly where the related port is `0`. A line
/// that gives a related address without a port, a port without an address, or the port `0`
/// has the record of a candidate without a related pair.
pub fn parse_ice_candidate_sdp(sdp: Option<&[u8]>) -> (out: Option<IceCandidateFFI>)
    ensures
        sdp is None ==> out is None,
        sdp matches Some(bytes) ==> match parsed_candidate(bytes@) {
            None => out is None,
            Some(c) => {
                &&& !c.has_embedded_nul()
                &&& out matches Some(record)
                &&& record.wf()
                &&& record.represents(c)
                &&& record.extensions.holds(c.extensions)
                &&& record.rel_addr is None <==> record.rel_port == 0
                &&& c.rel_addr is None ==> record.rel_addr is None && record.rel_port == 0
                &&& c.rel_port is None ==> record.rel_addr is None && record.rel_port == 0
                &&& c.extensions == Map::<Seq<u8>, Seq<u8>>::empty() ==> record.extensions.len == 0
                    && record.extensions.values@.len() == 0
            },
        },
{
    let bytes = match sdp {
        Some(bytes) => bytes,
        None => { return None; },
    };
    let parsed = match parse_candidate(bytes) {
        Some(parsed) => parsed,
        None => { return None; },
    };
    let out = IceCandidateFFI::from_parsed(&parsed);
    proof {
        if out is Some {
            lemma_extension_count(out->0, parsed@);
        }
    }
    out
}

/// Takes a record back and gives up every buffer it owns.
///
/// `None` stands for a null pointer: nothing happens. A record is handed in by value, so it
/// cannot be read or released again afterwards.
pub fn free_ice_candidate(record: Option<IceCandidateFFI>) {
    match record {
        Some(owned) => {
            let _released: IceCandidateFFI = owned;
        },
        None => {},
    }
}

} // verus!
