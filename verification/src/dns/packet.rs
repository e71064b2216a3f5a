//! Whole-message framing: header, question section, answer section.

use vstd::prelude::*;
use vstd::utf8::{decode_utf8, encode_utf8, valid_utf8};
use crate::addr::Ipv4Addr;
use crate::error::FindiError;
use crate::dns::encoders::{DnsNbstatEncoder, DnsPtrEncoder, spec_nbstat_block};
use crate::dns::name::{spec_encode_labels, wf_chunks};
use crate::dns::query::{
    spec_decode_answer, spec_decode_question, AnswerView, DnsAnswer, DnsQuestion,
    DnsQuestionClass, DnsQuestionType, QuestionView, QCLASS_IN_CODE,
};
use crate::dns::wire::{read_be16, spec_be16, spec_be16_bytes, write_be16};

verus! {

/// The six 16-bit big-endian header fields, in wire order: transaction id,
/// flags, and the four section counts.
#[derive(Clone, Copy, PartialEq, Eq, Structural, Debug)]
pub struct DnsPacketHeader {
    pub trans_id: u16,
    pub q_flags: u16,
    pub n_qs: u16,
    pub n_answ: u16,
    pub n_auth: u16,
    pub n_addn: u16,
}

impl Default for DnsPacketHeader {
    /// All fields zero.
    fn default() -> (h: DnsPacketHeader)
        ensures
            h == DnsPacketHeader::spec_default(),
    {
        DnsPacketHeader { trans_id: 0, q_flags: 0, n_qs: 0, n_answ: 0, n_auth: 0, n_addn: 0 }
    }
}

impl DnsPacketHeader {
    /// The all-zero header.
    pub open spec fn spec_default() -> DnsPacketHeader {
        DnsPacketHeader { trans_id: 0, q_flags: 0, n_qs: 0, n_answ: 0, n_auth: 0, n_addn: 0 }
    }
}

/// The twelve header bytes of `h`.
pub open spec fn spec_header_bytes(h: DnsPacketHeader) -> Seq<u8> {
    spec_be16_bytes(h.trans_id) + spec_be16_bytes(h.q_flags) + spec_be16_bytes(h.n_qs)
        + spec_be16_bytes(h.n_answ) + spec_be16_bytes(h.n_auth) + spec_be16_bytes(h.n_addn)
}

/// The header spelled by the first twelve bytes; fewer than twelve bytes is
/// a malformed packet.
pub open spec fn spec_decode_header(b: Seq<u8>) -> Option<DnsPacketHeader> {
    if b.len() >= 12 {
        Some(
            DnsPacketHeader {
                trans_id: spec_be16(b[0], b[1]),
                q_flags: spec_be16(b[2], b[3]),
                n_qs: spec_be16(b[4], b[5]),
                n_answ: spec_be16(b[6], b[7]),
                n_auth: spec_be16(b[8], b[9]),
                n_addn: spec_be16(b[10], b[11]),
            },
        )
    } else {
        None
    }
}

/// One outgoing question's bytes: its encoded name, the terminator byte,
/// then type and class.
pub open spec fn spec_question_block(q: DnsQuestion) -> Seq<u8> {
    spec_question_name_bytes(q) + seq![0u8] + spec_be16_bytes(q.qtype.spec_code())
        + spec_be16_bytes(QCLASS_IN_CODE)
}

/// The name field an outgoing question carries: the fixed wildcard block
/// for a node-status query, the label encoding of the dotted name for every
/// other type.
pub open spec fn spec_question_name_bytes(q: DnsQuestion) -> Seq<u8> {
    if q.qtype == DnsQuestionType::Nbstat {
        spec_nbstat_block()
    } else {
        spec_encode_labels(encode_utf8(q.name@))
    }
}

/// The question section of an outgoing message.
pub open spec fn spec_questions_bytes(qs: Seq<DnsQuestion>) -> Seq<u8>
    decreases qs.len(),
{
    if qs.len() == 0 {
        Seq::empty()
    } else {
        spec_question_block(qs[0]) + spec_questions_bytes(qs.drop_first())
    }
}

/// Appending one question to the section appends its block.
pub proof fn lemma_questions_bytes_take(qs: Seq<DnsQuestion>, i: int)
    requires
        0 <= i < qs.len(),
    ensures
        spec_questions_bytes(qs.take(i + 1)) == spec_questions_bytes(qs.take(i))
            + spec_question_block(qs[i]),
    decreases i,
{
    if i == 0 {
        assert(qs.take(1).drop_first() =~= Seq::<DnsQuestion>::empty());
        assert(qs.take(0) =~= Seq::<DnsQuestion>::empty());
        assert(spec_questions_bytes(qs.take(1)) =~= spec_question_block(qs[0]));
    } else {
        let r = qs.drop_first();
        assert(qs.take(i + 1).drop_first() =~= r.take(i));
        assert(qs.take(i).drop_first() =~= r.take(i - 1));
        lemma_questions_bytes_take(r, i - 1);
        assert(qs.take(i + 1)[0] == qs[0]);
        assert(qs.take(i)[0] == qs[0]);
        assert(spec_questions_bytes(qs.take(i + 1)) == spec_question_block(qs[0])
            + spec_questions_bytes(r.take(i)));
        assert(spec_questions_bytes(qs.take(i)) == spec_question_block(qs[0])
            + spec_questions_bytes(r.take(i - 1)));
        assert(spec_questions_bytes(qs.take(i + 1)) == spec_questions_bytes(qs.take(i))
            + spec_question_block(qs[i])) by {
            assert(r[i - 1] == qs[i]);
            assert(spec_questions_bytes(r.take(i)) == spec_questions_bytes(r.take(i - 1))
                + spec_question_block(r[i - 1]));
        }
    }
}

/// A transient DNS-family message: header, questions with their encoded
/// sizes, and answers. `dest_ip` remembers which host the message was built
/// for; the library itself never sends it anywhere.
#[derive(Debug)]
pub struct DnsPacket {
    pub header: DnsPacketHeader,
    pub dest_ip: Option<Ipv4Addr>,
    pub questions: Vec<DnsQuestion>,
    pub qsizes: Vec<usize>,
    pub answers: Vec<DnsAnswer>,
}

impl Default for DnsPacket {
    /// An empty message with an all-zero header.
    fn default() -> (p: DnsPacket)
        ensures
            p.header == DnsPacketHeader::spec_default(),
            p.dest_ip is None,
            p.questions@ == Seq::<DnsQuestion>::empty(),
            p.qsizes@ == Seq::<usize>::empty(),
            p.answers@ == Seq::<DnsAnswer>::empty(),
    {
        DnsPacket {
            header: Default::default(),
            dest_ip: None,
            questions: Vec::new(),
            qsizes: Vec::new(),
            answers: Vec::new(),
        }
    }
}

/// Every question of the message can be encoded: a node-status question
/// needs nothing, any other question's name must split into labels of at
/// most 63 bytes.
pub open spec fn spec_encodable(qs: Seq<DnsQuestion>) -> bool {
    forall|i: int|
        0 <= i < qs.len() && qs[i].qtype != DnsQuestionType::Nbstat ==> #[trigger] wf_chunks(
            encode_utf8(qs[i].name@),
        )
}

impl DnsPacket {
    /// A fresh query for `dest_ip` with the given transaction id.
    pub fn new(trans_id: u16, dest_ip: Ipv4Addr) -> (p: DnsPacket)
        ensures
            p.header == (DnsPacketHeader { trans_id, ..DnsPacketHeader::spec_default() }),
            p.dest_ip == Some(dest_ip),
            p.questions@ == Seq::<DnsQuestion>::empty(),
            p.qsizes@ == Seq::<usize>::empty(),
            p.answers@ == Seq::<DnsAnswer>::empty(),
    {
        DnsPacket {
            header: DnsPacketHeader { trans_id, ..Default::default() },
            dest_ip: Some(dest_ip),
            questions: Vec::new(),
            qsizes: Vec::new(),
            answers: Vec::new(),
        }
    }

    /// Add one question and count it in the header.
    pub fn add_q(&mut self, quest: DnsQuestion)
        requires
            old(self).header.n_qs < 0xffff,
        ensures
            final(self).header == (DnsPacketHeader {
                n_qs: (old(self).header.n_qs + 1) as u16,
                ..old(self).header
            }),
            final(self).questions@ == old(self).questions@.push(quest),
            final(self).dest_ip == old(self).dest_ip,
            final(self).qsizes@ == old(self).qsizes@,
            final(self).answers@ == old(self).answers@,
    {
        self.header.n_qs = self.header.n_qs + 1;
        self.questions.push(quest);
    }

    /// Serialize the message: the twelve header bytes, then each question's
    /// encoded name, a terminator byte, and its type and class. `qsizes` is
    /// left holding each question's encoded size, so that answer offsets in
    /// a correlated response are computable without re-walking the bytes.
    pub fn as_bytes(&mut self) -> (r: Result<Vec<u8>, FindiError>)
        requires
            spec_encodable(old(self).questions@),
        ensures
            final(self).header == old(self).header,
            final(self).dest_ip == old(self).dest_ip,
            final(self).questions@ == old(self).questions@,
            final(self).answers@ == old(self).answers@,
            match r {
                Ok(bytes) => bytes@ == spec_header_bytes(old(self).header)
                    + spec_questions_bytes(old(self).questions@) && final(self).qsizes@.len()
                    == old(self).questions@.len() && forall|i: int|
                    0 <= i < old(self).questions@.len() ==> #[trigger] final(self).qsizes@[i]
                        == spec_question_block(old(self).questions@[i]).len(),
                Err(_) => false,
            },
    {
        let mut bytes: Vec<u8> = Vec::new();
        write_be16(&mut bytes, self.header.trans_id);
        write_be16(&mut bytes, self.header.q_flags);
        write_be16(&mut bytes, self.header.n_qs);
        write_be16(&mut bytes, self.header.n_answ);
        write_be16(&mut bytes, self.header.n_auth);
        write_be16(&mut bytes, self.header.n_addn);
        proof {
            assert(bytes@ =~= spec_header_bytes(self.header));
        }
        let mut qsizes: Vec<usize> = Vec::new();
        let mut i: usize = 0;
        while i < self.questions.len()
            invariant
                i <= self.questions@.len(),
                spec_encodable(self.questions@),
                bytes@ == spec_header_bytes(self.header) + spec_questions_bytes(
                    self.questions@.take(i as int),
                ),
                qsizes@.len() == i,
                forall|j: int|
                    0 <= j < i ==> #[trigger] qsizes@[j] == spec_question_block(
                        self.questions@[j],
                    ).len(),
            decreases self.questions@.len() - i,
        {
            let q = &self.questions[i];
            let qbytes = match q.qtype {
                DnsQuestionType::Nbstat => DnsNbstatEncoder::encode(q),
                _ => DnsPtrEncoder::encode(q),
            };
            let qlen = qbytes.len();
            let mut qbytes = qbytes;
            bytes.append(&mut qbytes);
            bytes.push(0x00);
            write_be16(&mut bytes, q.qtype.code());
            write_be16(&mut bytes, QCLASS_IN_CODE);
            let blen = bytes.len();
            proof {
                lemma_questions_bytes_take(self.questions@, i as int);
                assert(bytes@ =~= spec_header_bytes(self.header) + spec_questions_bytes(
                    self.questions@.take(i + 1),
                ));
                assert(spec_question_block(self.questions@[i as int]).len() == qlen + 5);
                assert(qlen + 5 <= blen);
            }
            qsizes.push(qlen + 5);
            i = i + 1;
        }
        self.qsizes = qsizes;
        proof {
            assert(self.questions@.take(self.questions@.len() as int) =~= self.questions@);
        }
        Ok(bytes)
    }
}

/// The question views found by decoding `n` questions in a row from `pos`,
/// with the position just past them.
pub open spec fn spec_decode_questions(buf: Seq<u8>, pos: int, n: int) -> Option<
    (Seq<QuestionView>, int),
>
    decreases n,
{
    if n <= 0 {
        Some((Seq::empty(), pos))
    } else {
        match spec_decode_question(buf, pos) {
            None => None,
            Some(qv) => match spec_decode_questions(buf, qv.end, n - 1) {
                None => None,
                Some((rest, end)) => Some((seq![qv] + rest, end)),
            },
        }
    }
}

/// The answer views found by decoding `n` answers in a row from `pos`.
pub open spec fn spec_decode_answers(buf: Seq<u8>, pos: int, n: int) -> Option<
    (Seq<AnswerView>, int),
>
    decreases n,
{
    if n <= 0 {
        Some((Seq::empty(), pos))
    } else {
        match spec_decode_answer(buf, pos) {
            None => None,
            Some(av) => match spec_decode_answers(buf, av.end, n - 1) {
                None => None,
                Some((rest, end)) => Some((seq![av] + rest, end)),
            },
        }
    }
}

/// Everything a structural decode of a whole message finds.
pub struct PacketView {
    pub header: DnsPacketHeader,
    pub questions: Seq<QuestionView>,
    pub answers: Seq<AnswerView>,
    pub end: int,
}

/// Structurally decode a message: header, then as many questions and
/// answers as the header counts announce. Decoding fails rather than
/// truncating: a count that the bytes cannot honour is a malformed packet.
pub open spec fn spec_decode_packet(buf: Seq<u8>) -> Option<PacketView> {
    match spec_decode_header(buf) {
        None => None,
        Some(h) => match spec_decode_questions(buf, 12, h.n_qs as int) {
            None => None,
            Some((qs, p1)) => match spec_decode_answers(buf, p1, h.n_answ as int) {
                None => None,
                Some((avs, p2)) => Some(
                    PacketView { header: h, questions: qs, answers: avs, end: p2 },
                ),
            },
        },
    }
}

/// A message decodes cleanly: it is structurally sound, every record is of
/// the Internet class, and every name is UTF-8.
pub open spec fn spec_packet_wf(buf: Seq<u8>) -> bool {
    match spec_decode_packet(buf) {
        None => false,
        Some(pv) => (forall|i: int|
            0 <= i < pv.questions.len() ==> (#[trigger] pv.questions[i]).clcode == QCLASS_IN_CODE
                && valid_utf8(pv.questions[i].name)) && (forall|i: int|
            0 <= i < pv.answers.len() ==> (#[trigger] pv.answers[i]).clcode == QCLASS_IN_CODE
                && valid_utf8(pv.answers[i].name)),
    }
}

/// An executable question agrees with what the spec-level decode found.
pub open spec fn question_matches(q: DnsQuestion, qv: QuestionView) -> bool {
    &&& valid_utf8(qv.name)
    &&& q.name@ == decode_utf8(qv.name)
    &&& q.qtype == DnsQuestionType::spec_from_code(qv.tcode)
    &&& q.qclass == DnsQuestionClass::In
    &&& qv.clcode == QCLASS_IN_CODE
}

/// An executable answer agrees with what the spec-level decode found.
pub open spec fn answer_matches(a: DnsAnswer, av: AnswerView) -> bool {
    &&& valid_utf8(av.name)
    &&& a.name@ == decode_utf8(av.name)
    &&& a.ptr_offset == av.ptr_off
    &&& a.qtype == DnsQuestionType::spec_from_code(av.tcode)
    &&& a.qclass == DnsQuestionClass::In
    &&& a.ttl == av.ttl
    &&& a.datalen == av.datalen
    &&& a.answer_data@ == av.data
    &&& av.clcode == QCLASS_IN_CODE
}

impl DnsPacket {
    /// Decode a received message. Succeeds exactly on cleanly-decoding
    /// bytes, and then reproduces every header field, question and answer;
    /// the returned count is where the answer section ended.
    #[verifier::rlimit(80)]
    pub fn decode(bytes: &Vec<u8>) -> (r: Result<(DnsPacket, usize), FindiError>)
        ensures
            match r {
                Ok((p, sz)) => {
                    &&& spec_packet_wf(bytes@)
                    &&& spec_decode_packet(bytes@) matches Some(pv) && p.header == pv.header
                        && pv.end == sz && p.questions@.len() == pv.questions.len() && (forall|
                        j: int,
                    |
                        0 <= j < pv.questions.len() ==> question_matches(
                            #[trigger] p.questions@[j],
                            pv.questions[j],
                        )) && p.answers@.len() == pv.answers.len() && (forall|j: int|
                        0 <= j < pv.answers.len() ==> answer_matches(
                            #[trigger] p.answers@[j],
                            pv.answers[j],
                        )) && p.dest_ip is None && p.qsizes@ == Seq::<usize>::empty()
                },
                Err(e) => (e == FindiError::MalformedPacket || e == FindiError::InvalidUtf8)
                    && !spec_packet_wf(bytes@),
            },
    {
        if bytes.len() < 12 {
            return Err(FindiError::MalformedPacket);
        }
        let header = DnsPacketHeader {
            trans_id: read_be16(bytes, 0),
            q_flags: read_be16(bytes, 2),
            n_qs: read_be16(bytes, 4),
            n_answ: read_be16(bytes, 6),
            n_auth: read_be16(bytes, 8),
            n_addn: read_be16(bytes, 10),
        };
        let ghost pv_header = spec_decode_header(bytes@).unwrap();
        proof {
            assert(header == pv_header);
        }
        let n_qs = header.n_qs;
        let n_answ = header.n_answ;
        let n = bytes.len();
        let mut questions: Vec<DnsQuestion> = Vec::new();
        let mut pos: usize = 12;
        let ghost mut done: Seq<QuestionView> = Seq::empty();
        let mut i: u16 = 0;
        while i < n_qs
            invariant
                i <= n_qs,
                bytes@.len() >= 12,
                spec_decode_header(bytes@) == Some(header),
                n_qs == header.n_qs,
                n == bytes@.len(),
                done.len() == i as int,
                pos <= n,
                questions@.len() == i as int,
                forall|j: int|
                    0 <= j < i as int ==> question_matches(#[trigger] questions@[j], done[j]),
                match spec_decode_questions(bytes@, pos as int, n_qs - i) {
                    Some((rest, end)) => spec_decode_questions(bytes@, 12, n_qs as int) == Some(
                        (done + rest, end),
                    ),
                    None => spec_decode_questions(bytes@, 12, n_qs as int) is None,
                },
            decreases n_qs - i,
        {
            match DnsQuestion::decode(bytes, pos) {
                Err(e) => {
                    proof {
                        lemma_not_wf_question(bytes@, pos as int, n_qs as int, i as int, done, e);
                    }
                    return Err(e);
                },
                Ok((q, sz)) => {
                    let ghost qv = spec_decode_question(bytes@, pos as int).unwrap();
                    proof {
                        done = done.push(qv);
                        assert(done.drop_last() + seq![qv] =~= done);
                        match spec_decode_questions(bytes@, qv.end, n_qs - i - 1) {
                            Some((rest, end)) => {
                                assert(done.drop_last() + (seq![qv] + rest) =~= done + rest);
                            },
                            None => {},
                        }
                    }
                    questions.push(q);
                    assert(pos + sz <= n);
                    pos = pos + sz;
                    i = i + 1;
                },
            }
        }
        let mut answers: Vec<DnsAnswer> = Vec::new();
        let ghost qdone = done;
        let ghost qend = pos as int;
        let ghost mut adone: Seq<AnswerView> = Seq::empty();
        let mut k: u16 = 0;
        while k < n_answ
            invariant
                k <= n_answ,
                bytes@.len() >= 12,
                spec_decode_header(bytes@) == Some(header),
                n_qs == header.n_qs,
                n_answ == header.n_answ,
                n == bytes@.len(),
                adone.len() == k as int,
                pos <= n,
                answers@.len() == k as int,
                questions@.len() == n_qs as int,
                qdone.len() == n_qs as int,
                forall|j: int|
                    0 <= j < n_qs as int ==> question_matches(#[trigger] questions@[j], qdone[j]),
                spec_decode_questions(bytes@, 12, n_qs as int) == Some((qdone, qend)),
                forall|j: int|
                    0 <= j < k as int ==> answer_matches(#[trigger] answers@[j], adone[j]),
                match spec_decode_answers(bytes@, pos as int, n_answ - k) {
                    Some((rest, end)) => spec_decode_answers(bytes@, qend, n_answ as int) == Some(
                        (adone + rest, end),
                    ),
                    None => spec_decode_answers(bytes@, qend, n_answ as int) is None,
                },
            decreases n_answ - k,
        {
            match DnsAnswer::decode(bytes, pos) {
                Err(e) => {
                    proof {
                        lemma_not_wf_answer(
                            bytes@,
                            pos as int,
                            n_answ as int,
                            k as int,
                            adone,
                            qend,
                            e,
                        );
                    }
                    return Err(e);
                },
                Ok((a, sz)) => {
                    let ghost av = spec_decode_answer(bytes@, pos as int).unwrap();
                    proof {
                        adone = adone.push(av);
                        assert(adone.drop_last() + seq![av] =~= adone);
                        match spec_decode_answers(bytes@, av.end, n_answ - k - 1) {
                            Some((rest, end)) => {
                                assert(adone.drop_last() + (seq![av] + rest) =~= adone + rest);
                            },
                            None => {},
                        }
                    }
                    answers.push(a);
                    assert(pos + sz <= n);
                    pos = pos + sz;
                    k = k + 1;
                },
            }
        }
        proof {
            assert(qdone + Seq::<QuestionView>::empty() =~= qdone);
            assert(adone + Seq::<AnswerView>::empty() =~= adone);
            assert(spec_decode_questions(bytes@, 12, n_qs as int) == Some((qdone, qend)));
            assert(spec_decode_answers(bytes@, qend, n_answ as int) == Some((adone, pos as int)));
            let pv = spec_decode_packet(bytes@).unwrap();
            assert(pv.header == header && pv.questions == qdone && pv.answers == adone && pv.end
                == pos as int);
            assert forall|j: int| 0 <= j < pv.questions.len() implies (
            #[trigger] pv.questions[j]).clcode == QCLASS_IN_CODE && valid_utf8(
                pv.questions[j].name,
            ) by {
                assert(question_matches(questions@[j], qdone[j]));
            }
            assert forall|j: int| 0 <= j < pv.answers.len() implies (
            #[trigger] pv.answers[j]).clcode == QCLASS_IN_CODE && valid_utf8(
                pv.answers[j].name,
            ) by {
                assert(answer_matches(answers@[j], adone[j]));
            }
            assert(spec_packet_wf(bytes@));
        }
        let packet = DnsPacket {
            header,
            dest_ip: None,
            questions,
            qsizes: Vec::new(),
            answers,
        };
        Ok((packet, pos))
    }
}

/// When question `i` of a section fails to decode cleanly, the whole
/// message is not well formed.
proof fn lemma_not_wf_question(
    buf: Seq<u8>,
    pos: int,
    n: int,
    i: int,
    done: Seq<QuestionView>,
    e: FindiError,
)
    requires
        spec_decode_header(buf) matches Some(h) && h.n_qs == n,
        0 <= i < n,
        done.len() == i,
        match spec_decode_questions(buf, pos, n - i) {
            Some((rest, end)) => spec_decode_questions(buf, 12, n) == Some((done + rest, end)),
            None => spec_decode_questions(buf, 12, n) is None,
        },
        match e {
            FindiError::MalformedPacket => spec_decode_question(buf, pos) matches Some(qv)
                ==> qv.clcode != QCLASS_IN_CODE,
            FindiError::InvalidUtf8 => spec_decode_question(buf, pos) matches Some(qv)
                && !valid_utf8(qv.name),
            _ => false,
        },
    ensures
        !spec_packet_wf(buf),
{
    match spec_decode_question(buf, pos) {
        None => {
            assert(spec_decode_questions(buf, pos, n - i) is None);
        },
        Some(qv) => {
            match spec_decode_questions(buf, qv.end, n - i - 1) {
                None => {
                    assert(spec_decode_questions(buf, pos, n - i) is None);
                },
                Some((rest2, end2)) => {
                    assert(spec_decode_questions(buf, pos, n - i) == Some(
                        (seq![qv] + rest2, end2),
                    ));
                    match spec_decode_packet(buf) {
                        Some(pv) => {
                            assert(pv.questions == done + (seq![qv] + rest2));
                            assert(pv.questions[i] == qv);
                        },
                        None => {},
                    }
                },
            }
        },
    }
}

/// When answer `k` of a section fails to decode cleanly, the whole message
/// is not well formed.
proof fn lemma_not_wf_answer(
    buf: Seq<u8>,
    pos: int,
    n: int,
    k: int,
    adone: Seq<AnswerView>,
    qend: int,
    e: FindiError,
)
    requires
        ({
            &&& spec_decode_header(buf) matches Some(h)
            &&& h.n_answ == n
            &&& spec_decode_questions(buf, 12, h.n_qs as int) matches Some((qdone, qe))
            &&& qe == qend
        }),
        0 <= k < n,
        adone.len() == k,
        match spec_decode_answers(buf, pos, n - k) {
            Some((rest, end)) => spec_decode_answers(buf, qend, n) == Some((adone + rest, end)),
            None => spec_decode_answers(buf, qend, n) is None,
        },
        match e {
            FindiError::MalformedPacket => spec_decode_answer(buf, pos) matches Some(av)
                ==> av.clcode != QCLASS_IN_CODE,
            FindiError::InvalidUtf8 => spec_decode_answer(buf, pos) matches Some(av)
                && !valid_utf8(av.name),
            _ => false,
        },
    ensures
        !spec_packet_wf(buf),
{
    match spec_decode_answer(buf, pos) {
        None => {
            assert(spec_decode_answers(buf, pos, n - k) is None);
        },
        Some(av) => {
            match spec_decode_answers(buf, av.end, n - k - 1) {
                None => {
                    assert(spec_decode_answers(buf, pos, n - k) is None);
                },
                Some((rest2, end2)) => {
                    assert(spec_decode_answers(buf, pos, n - k) == Some((seq![av] + rest2, end2)));
                    match spec_decode_packet(buf) {
                        Some(pv) => {
                            assert(pv.answers == adone + (seq![av] + rest2));
                            assert(pv.answers[k] == av);
                        },
                        None => {},
                    }
                },
            }
        },
    }
}

} // verus!
