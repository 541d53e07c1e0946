//! The SDP parser, which this crate calls and does not verify.

use vstd::prelude::*;
use crate::candidate::{CandidateView, ParsedCandidate};

verus! {

/// What `candidateparser::parse` makes of the bytes `sdp`: the candidate on the line,
/// or nothing where the bytes are no candidate line.
pub uninterp spec fn parsed_candidate(sdp: Seq<u8>) -> Option<CandidateView>;

/// Runs `candidateparser::parse` on `sdp` and hands the result out as plain values.
///
/// Trusted, not proved: the result is the parser's, a function of the bytes alone. The
/// foundation is taken as its bytes; the transport, the candidate type and the two
/// addresses as the bytes of their `Display` form; the extension attributes as the pairs of
/// the parser's hash map, in the order in which the map hands them out. That order is not
/// a function of the bytes, so the contract speaks of the pairs as a map, and of their
/// keys as unique, which they are as keys of a hash map. A candidate without extension
/// attributes has an empty list.
///
/// Also trusted: no text of the result holds a NUL byte. The parser's grammar builds the
/// foundation of letters, digits, `+` and `/`, and the transport and the candidate type of
/// letters; an address is printed in decimal digits with dots or in hexadecimal digits
/// with colons.
#[verifier::external_body]
pub(crate) fn parse_candidate(sdp: &[u8]) -> (out: Option<ParsedCandidate>)
    ensures
        out is None <==> parsed_candidate(sdp@) is None,
        out matches Some(c) ==> c.wf() && parsed_candidate(sdp@) == Some(c@)
            && !c@.has_embedded_nul(),
{
    let c = candidateparser::parse(sdp)?;
    Some(ParsedCandidate {
        foundation: c.foundation.into_bytes(),
        component_id: c.component_id,
        transport: c.transport.to_string().into_bytes(),
        priority: c.priority,
        connection_address: c.connection_address.to_string().into_bytes(),
        port: c.port,
        candidate_type: c.candidate_type.to_string().into_bytes(),
        rel_addr: c.rel_addr.map(|addr| addr.to_string().into_bytes()),
        rel_port: c.rel_port,
        extensions: c.extensions.unwrap_or_default().into_iter().collect(),
    })
}

} // verus!
