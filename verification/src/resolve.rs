//! The reverse-resolution fallback chain.
//!
//! Three dialects are tried in order, each one independent UDP transaction:
//! a PTR query to the mDNS multicast group, a PTR query straight to the
//! target's port 53, and a NetBIOS node-status query to its port 137. The
//! first success wins and the chain stops; exhausting all three is an
//! expected outcome, recorded as a failure reason, never an error to the
//! caller. The transactions themselves run outside the library; this module
//! builds the query, names each step's destination, and reads the replies.

use vstd::prelude::*;
use vstd::string::StringExecFns;
use crate::addr::Ipv4Addr;
use crate::dns::{HostnameLookupUdpPort, UdpTransactorType};
use crate::dns::packet::{DnsPacket, DnsPacketHeader};
use crate::dns::query::{
    DnsQuestion, DnsQuestionType, NbnsAnswer, spec_decode_nbns, spec_nbns_hostname,
    spec_rlookup_name, QCLASS_IN_CODE,
};
use crate::dns::rdata::spec_answer_text;
use crate::error::FindiError;
use crate::text::ascii_view;

verus! {

/// Transaction id every reverse-lookup query carries.
pub const RLOOKUP_TRANS_ID: u16 = 0xf00d;

/// How a resolved name was obtained.
#[derive(Clone, Copy, PartialEq, Eq, Structural, Debug)]
pub enum HostResolutionType {
    MDNS,
    NBNS,
}

impl HostResolutionType {
    /// The method's long name.
    pub fn text(&self) -> (r: String)
        ensures
            r@ == match *self {
                HostResolutionType::MDNS => "Multicast DNS"@,
                HostResolutionType::NBNS => "NetBios Name Service"@,
            },
    {
        match *self {
            HostResolutionType::MDNS => String::from_str("Multicast DNS"),
            HostResolutionType::NBNS => String::from_str("NetBios Name Service"),
        }
    }
}

/// One step of the fallback chain: where the query goes, how it travels,
/// and which dialect reads the reply.
#[derive(Clone, Copy, PartialEq, Eq, Structural, Debug)]
pub enum ResolveStep {
    MdnsPtr,
    UnicastPtr,
    Nbstat,
}

impl ResolveStep {
    /// The chain starts at the multicast PTR lookup.
    pub fn first() -> (r: ResolveStep)
        ensures
            r == ResolveStep::MdnsPtr,
    {
        ResolveStep::MdnsPtr
    }

    /// The step a failed step falls back to, until the chain is exhausted.
    pub fn next(&self) -> (r: Option<ResolveStep>)
        ensures
            r == match *self {
                ResolveStep::MdnsPtr => Some(ResolveStep::UnicastPtr),
                ResolveStep::UnicastPtr => Some(ResolveStep::Nbstat),
                ResolveStep::Nbstat => None::<ResolveStep>,
            },
    {
        match *self {
            ResolveStep::MdnsPtr => Some(ResolveStep::UnicastPtr),
            ResolveStep::UnicastPtr => Some(ResolveStep::Nbstat),
            ResolveStep::Nbstat => None,
        }
    }

    /// The destination port of this step's transaction.
    pub fn port(&self) -> (r: HostnameLookupUdpPort)
        ensures
            r == match *self {
                ResolveStep::MdnsPtr => HostnameLookupUdpPort::Mdns,
                ResolveStep::UnicastPtr => HostnameLookupUdpPort::Dns,
                ResolveStep::Nbstat => HostnameLookupUdpPort::Nbstat,
            },
    {
        match *self {
            ResolveStep::MdnsPtr => HostnameLookupUdpPort::Mdns,
            ResolveStep::UnicastPtr => HostnameLookupUdpPort::Dns,
            ResolveStep::Nbstat => HostnameLookupUdpPort::Nbstat,
        }
    }

    /// Whether the transaction is multicast or straight to the host.
    pub fn transactor(&self) -> (r: UdpTransactorType)
        ensures
            r == match *self {
                ResolveStep::MdnsPtr => UdpTransactorType::MulticastTransact,
                _ => UdpTransactorType::HostTransact,
            },
    {
        match *self {
            ResolveStep::MdnsPtr => UdpTransactorType::MulticastTransact,
            _ => UdpTransactorType::HostTransact,
        }
    }

    /// The record type this step's question asks for.
    pub fn qtype(&self) -> (r: DnsQuestionType)
        ensures
            r == match *self {
                ResolveStep::Nbstat => DnsQuestionType::Nbstat,
                _ => DnsQuestionType::Ptr,
            },
    {
        match *self {
            ResolveStep::Nbstat => DnsQuestionType::Nbstat,
            _ => DnsQuestionType::Ptr,
        }
    }

    /// The method a name found by this step is recorded under. The unicast
    /// fallback still speaks the mDNS dialect.
    pub fn method(&self) -> (r: HostResolutionType)
        ensures
            r == match *self {
                ResolveStep::Nbstat => HostResolutionType::NBNS,
                _ => HostResolutionType::MDNS,
            },
    {
        match *self {
            ResolveStep::Nbstat => HostResolutionType::NBNS,
            _ => HostResolutionType::MDNS,
        }
    }
}

/// The query message one step sends: one reverse-lookup question for the
/// target, under the fixed transaction id.
pub fn build_lookup_packet(ip: Ipv4Addr, step: ResolveStep) -> (p: DnsPacket)
    ensures
        p.header == (DnsPacketHeader {
            trans_id: RLOOKUP_TRANS_ID,
            n_qs: 1,
            ..DnsPacketHeader::spec_default()
        }),
        p.questions@.len() == 1,
        p.questions@[0].name@ == ascii_view(spec_rlookup_name(ip)),
        p.questions@[0].qtype == step.spec_qtype(),
        p.dest_ip == Some(ip),
        p.answers@ == Seq::<crate::dns::query::DnsAnswer>::empty(),
{
    let mut packet = DnsPacket::new(RLOOKUP_TRANS_ID, ip);
    let q = DnsQuestion::build_rlookup(ip, step.qtype());
    packet.add_q(q);
    packet
}

impl ResolveStep {
    /// Spec twin of [`Self::qtype`].
    pub open spec fn spec_qtype(self) -> DnsQuestionType {
        match self {
            ResolveStep::Nbstat => DnsQuestionType::Nbstat,
            _ => DnsQuestionType::Ptr,
        }
    }
}

/// The first PTR answer of a message, if any.
pub open spec fn spec_first_ptr(answers: Seq<crate::dns::query::DnsAnswer>, i: int) -> Option<int>
    decreases answers.len() - i,
{
    if i < 0 || i >= answers.len() {
        None
    } else if answers[i].qtype == DnsQuestionType::Ptr {
        Some(i)
    } else {
        spec_first_ptr(answers, i + 1)
    }
}

/// The hostname a PTR step reads out of a decoded reply: the text of the
/// first PTR answer. A reply without one resolves nothing: no answers at
/// all is the expected silence, an answer of some other type is a record
/// the step cannot read.
pub fn ptr_hostname(packet: &DnsPacket) -> (r: Result<String, FindiError>)
    ensures
        match spec_first_ptr(packet.answers@, 0) {
            Some(i) => (match r {
                Ok(s) => spec_answer_text(DnsQuestionType::Ptr, packet.answers@[i].answer_data@)
                    == Ok::<_, FindiError>(s@),
                Err(e) => spec_answer_text(DnsQuestionType::Ptr, packet.answers@[i].answer_data@)
                    == Err::<Seq<char>, _>(e),
            }),
            None => r == Err::<String, FindiError>(
                if packet.answers@.len() == 0 {
                    FindiError::ResolutionFailed
                } else {
                    FindiError::UnsupportedRecordType
                },
            ),
        },
{
    let mut i: usize = 0;
    while i < packet.answers.len()
        invariant
            i <= packet.answers@.len(),
            spec_first_ptr(packet.answers@, 0) == spec_first_ptr(packet.answers@, i as int),
            forall|j: int|
                0 <= j < i ==> (#[trigger] packet.answers@[j]).qtype != DnsQuestionType::Ptr,
        decreases packet.answers@.len() - i,
    {
        let a = &packet.answers[i];
        match a.qtype {
            DnsQuestionType::Ptr => {
                return a.text();
            },
            _ => {},
        }
        i = i + 1;
    }
    if packet.answers.len() == 0 {
        Err(FindiError::ResolutionFailed)
    } else {
        Err(FindiError::UnsupportedRecordType)
    }
}

/// The hostname a node-status step reads out of a raw reply: the block
/// follows the twelve header bytes.
pub fn nbstat_hostname(resp: &Vec<u8>) -> (r: Result<String, FindiError>)
    ensures
        match r {
            Ok(s) => spec_decode_nbns(resp@, 12) matches Some(nv) && nv.clcode == QCLASS_IN_CODE
                && s@ == spec_nbns_hostname(nv.entries),
            Err(FindiError::MalformedPacket) => spec_decode_nbns(resp@, 12) matches Some(nv)
                ==> nv.clcode != QCLASS_IN_CODE,
            Err(FindiError::InvalidUtf8) => spec_decode_nbns(resp@, 12) matches Some(nv)
                && nv.clcode == QCLASS_IN_CODE && !vstd::utf8::valid_utf8(nv.qname),
            Err(_) => false,
        },
{
    match NbnsAnswer::decode(resp, 12) {
        Ok((a, _)) => Ok(a.hostname),
        Err(e) => Err(e),
    }
}

/// The chain's verdict from its three steps' outcomes, earlier steps
/// first: the first name wins and is recorded under that step's method;
/// only a chain with no name at all fails.
pub fn chain_result(
    mdns: Option<String>,
    unicast: Option<String>,
    nbns: Option<String>,
) -> (r: Result<(String, HostResolutionType), FindiError>)
    ensures
        match mdns {
            Some(s) => r == Ok::<_, FindiError>((s, HostResolutionType::MDNS)),
            None => match unicast {
                Some(s) => r == Ok::<_, FindiError>((s, HostResolutionType::MDNS)),
                None => match nbns {
                    Some(s) => r == Ok::<_, FindiError>((s, HostResolutionType::NBNS)),
                    None => r == Err::<(String, HostResolutionType), _>(
                        FindiError::ResolutionFailed,
                    ),
                },
            },
        },
{
    match mdns {
        Some(s) => Ok((s, HostResolutionType::MDNS)),
        None => match unicast {
            Some(s) => Ok((s, HostResolutionType::MDNS)),
            None => match nbns {
                Some(s) => Ok((s, HostResolutionType::NBNS)),
                None => Err(FindiError::ResolutionFailed),
            },
        },
    }
}

} // verus!
