//! Laws of the codec.
//!
//! Two properties hold of the wire format as a whole and are proved here:
//! encoding then decoding a message of supported, uncompressed questions is
//! the identity (and re-encoding reproduces the very bytes), and a name that
//! uses compression pointers decodes to the same dotted string as its
//! fully-expanded, uncompressed equivalent.

use vstd::prelude::*;
use vstd::utf8::{decode_utf8, encode_utf8, valid_utf8};
use crate::dns::encoders::{spec_nb_wildcard, spec_nibble_expand, spec_nbstat_block};
use crate::dns::name::{
    lemma_chunk_len, lemma_chunk_len_unique, spec_chunk_len, spec_decode_name,
    spec_encode_labels, spec_join, wf_dotted, NAME_DOT,
};
use crate::dns::packet::{
    question_matches, spec_decode_header, spec_decode_packet, spec_decode_questions,
    spec_header_bytes, spec_packet_wf, spec_question_block, spec_questions_bytes, DnsPacket,
    DnsPacketHeader,
};
use crate::dns::query::{
    spec_decode_question, DnsQuestion, DnsQuestionType, QuestionView, QCLASS_IN_CODE,
};
use crate::dns::wire::{lemma_be16_roundtrip, spec_be16, spec_be16_bytes};

verus! {

/// A question the round-trip law speaks of: one of the five label-encoded
/// record types, with a name whose dot-separated labels are nonempty and at
/// most 63 bytes.
pub open spec fn spec_supported_uncompressed(q: DnsQuestion) -> bool {
    &&& (q.qtype == DnsQuestionType::A || q.qtype == DnsQuestionType::Ptr || q.qtype
        == DnsQuestionType::Txt || q.qtype == DnsQuestionType::Aaaa || q.qtype
        == DnsQuestionType::Srv)
    &&& wf_dotted(encode_utf8(q.name@))
}

/// The five supported codes read back as the type that wrote them.
pub proof fn lemma_code_roundtrip(t: DnsQuestionType)
    requires
        t == DnsQuestionType::A || t == DnsQuestionType::Ptr || t == DnsQuestionType::Txt || t
            == DnsQuestionType::Aaaa || t == DnsQuestionType::Srv,
    ensures
        DnsQuestionType::spec_from_code(t.spec_code()) == t,
{
}

/// Decoding the label encoding of a well-formed dotted name, wherever it
/// sits in a message, gives the name back and consumes the encoding and its
/// terminator.
pub proof fn lemma_decode_encoded_name(buf: Seq<u8>, pos: int, start: int, name: Seq<u8>)
    requires
        wf_dotted(name),
        0 <= pos,
        pos + spec_encode_labels(name).len() + 1 <= buf.len(),
        buf.subrange(pos, pos + spec_encode_labels(name).len() + 1) == spec_encode_labels(name)
            + seq![0u8],
    ensures
        spec_decode_name(buf, pos, start) == Some(
            (name, spec_encode_labels(name).len() + 1 as int),
        ),
    decreases name.len(),
{
    let k = spec_chunk_len(name);
    lemma_chunk_len(name);
    let enc = spec_encode_labels(name);
    let lo = pos + enc.len() + 1;
    assert(buf[pos] == enc[0]) by {
        assert(buf.subrange(pos, lo)[0] == enc[0]);
    }
    if k == name.len() {
        // One chunk: the encoding is its length byte, the chunk, and the
        // terminator follows.
        assert(enc =~= seq![(k as u8)] + name);
        assert(buf[pos] == k as u8);
        assert(buf.subrange(pos + 1, pos + 1 + k) =~= name) by {
            assert forall|j: int| 0 <= j < k implies buf.subrange(pos + 1, pos + 1 + k)[j]
                == name[j] by {
                assert(buf.subrange(pos, lo)[j + 1] == enc[j + 1]);
            }
        }
        assert(buf[pos + 1 + k] == 0) by {
            assert(buf.subrange(pos, lo)[1 + k] == 0u8);
        }
        assert(spec_decode_name(buf, pos + 1 + k, start) == Some((Seq::<u8>::empty(), 1int)));
        assert(spec_join(buf.subrange(pos + 1, pos + 1 + k), Seq::<u8>::empty()) == name);
    } else {
        let rest = name.skip(k + 1);
        let enc_rest = spec_encode_labels(rest);
        assert(enc =~= seq![(k as u8)] + name.take(k) + enc_rest);
        assert(buf[pos] == k as u8);
        assert(buf.subrange(pos + 1, pos + 1 + k) =~= name.take(k)) by {
            assert forall|j: int| 0 <= j < k implies buf.subrange(pos + 1, pos + 1 + k)[j]
                == name.take(k)[j] by {
                assert(buf.subrange(pos, lo)[j + 1] == enc[j + 1]);
            }
        }
        assert(buf.subrange(pos + 1 + k, pos + 1 + k + enc_rest.len() + 1) =~= enc_rest + seq![
            0u8,
        ]) by {
            assert forall|j: int| 0 <= j < enc_rest.len() + 1 implies buf.subrange(
                pos + 1 + k,
                pos + 1 + k + enc_rest.len() + 1,
            )[j] == (enc_rest + seq![0u8])[j] by {
                assert(buf.subrange(pos, lo)[1 + k + j] == (enc + seq![0u8])[1 + k + j]);
            }
        }
        assert(k < name.len());
        assert(wf_dotted(rest));
        lemma_decode_encoded_name(buf, pos + 1 + k, start, rest);
        lemma_chunk_len(rest);
        assert(1 <= spec_chunk_len(rest));
        assert(rest.len() > 0);
        assert(spec_join(name.take(k), rest) =~= name);
        assert(1 + k + (enc_rest.len() + 1) == enc.len() + 1);
    }
}

/// Decoding one encoded question block, wherever it sits in a message.
pub proof fn lemma_question_block_decodes(buf: Seq<u8>, pos: int, q: DnsQuestion)
    requires
        spec_supported_uncompressed(q),
        0 <= pos,
        pos + spec_question_block(q).len() <= buf.len(),
        buf.subrange(pos, pos + spec_question_block(q).len()) == spec_question_block(q),
    ensures
        spec_decode_question(buf, pos) matches Some(qv) && qv.name == encode_utf8(q.name@)
            && qv.tcode == q.qtype.spec_code() && qv.clcode == QCLASS_IN_CODE && qv.end == pos
            + spec_question_block(q).len(),
{
    let name = encode_utf8(q.name@);
    let enc = spec_encode_labels(name);
    let block = spec_question_block(q);
    let nlen: int = enc.len() as int + 1;
    assert(block =~= enc + seq![0u8] + spec_be16_bytes(q.qtype.spec_code()) + spec_be16_bytes(
        QCLASS_IN_CODE,
    ));
    assert(buf.subrange(pos, pos + nlen) =~= enc + seq![0u8]) by {
        assert forall|j: int| 0 <= j < nlen implies buf.subrange(pos, pos + nlen)[j] == (enc
            + seq![0u8])[j] by {
            assert(buf.subrange(pos, pos + block.len())[j] == block[j]);
        }
    }
    lemma_decode_encoded_name(buf, pos, buf.len() as int, name);
    lemma_be16_roundtrip(q.qtype.spec_code());
    lemma_be16_roundtrip(QCLASS_IN_CODE);
    assert(buf[pos + nlen] == spec_be16_bytes(q.qtype.spec_code())[0]) by {
        assert(buf.subrange(pos, pos + block.len())[nlen] == block[nlen]);
    }
    assert(buf[pos + nlen + 1] == spec_be16_bytes(q.qtype.spec_code())[1]) by {
        assert(buf.subrange(pos, pos + block.len())[nlen + 1] == block[nlen + 1]);
    }
    assert(buf[pos + nlen + 2] == spec_be16_bytes(QCLASS_IN_CODE)[0]) by {
        assert(buf.subrange(pos, pos + block.len())[nlen + 2] == block[nlen + 2]);
    }
    assert(buf[pos + nlen + 3] == spec_be16_bytes(QCLASS_IN_CODE)[1]) by {
        assert(buf.subrange(pos, pos + block.len())[nlen + 3] == block[nlen + 3]);
    }
}

/// Decoding a whole encoded question section, wherever it sits.
pub proof fn lemma_questions_decode(buf: Seq<u8>, pos: int, qs: Seq<DnsQuestion>)
    requires
        forall|i: int| 0 <= i < qs.len() ==> spec_supported_uncompressed(#[trigger] qs[i]),
        0 <= pos,
        pos + spec_questions_bytes(qs).len() <= buf.len(),
        buf.subrange(pos, pos + spec_questions_bytes(qs).len()) == spec_questions_bytes(qs),
    ensures
        spec_decode_questions(buf, pos, qs.len() as int) matches Some((vs, end)) && vs.len()
            == qs.len() && end == pos + spec_questions_bytes(qs).len() && forall|i: int|
            0 <= i < qs.len() ==> (#[trigger] vs[i]).name == encode_utf8(qs[i].name@) && vs[i].tcode
                == qs[i].qtype.spec_code() && vs[i].clcode == QCLASS_IN_CODE,
    decreases qs.len(),
{
    if qs.len() == 0 {
    } else {
        let q0 = qs[0];
        let block = spec_question_block(q0);
        let sect = spec_questions_bytes(qs);
        let rest_sect = spec_questions_bytes(qs.drop_first());
        assert(sect == block + rest_sect);
        assert(buf.subrange(pos, pos + block.len()) =~= block) by {
            assert forall|j: int| 0 <= j < block.len() implies buf.subrange(
                pos,
                pos + block.len(),
            )[j] == block[j] by {
                assert(buf.subrange(pos, pos + sect.len())[j] == sect[j]);
            }
        }
        lemma_question_block_decodes(buf, pos, q0);
        let pos1 = pos + block.len();
        assert(buf.subrange(pos1, pos1 + rest_sect.len()) =~= rest_sect) by {
            assert forall|j: int| 0 <= j < rest_sect.len() implies buf.subrange(
                pos1,
                pos1 + rest_sect.len(),
            )[j] == rest_sect[j] by {
                assert(buf.subrange(pos, pos + sect.len())[block.len() + j] == sect[block.len()
                    + j]);
            }
        }
        assert forall|i: int| 0 <= i < qs.drop_first().len() implies spec_supported_uncompressed(
            #[trigger] qs.drop_first()[i],
        ) by {
            assert(qs.drop_first()[i] == qs[i + 1]);
        }
        lemma_questions_decode(buf, pos1, qs.drop_first());
        let qv0 = spec_decode_question(buf, pos).unwrap();
        let (vs_rest, end) = spec_decode_questions(buf, pos1, qs.len() - 1).unwrap();
        assert(spec_decode_questions(buf, pos, qs.len() as int) == Some(
            (seq![qv0] + vs_rest, end),
        ));
        let vs = seq![qv0] + vs_rest;
        assert forall|i: int| 0 <= i < qs.len() implies (#[trigger] vs[i]).name == encode_utf8(
            qs[i].name@,
        ) && vs[i].tcode == qs[i].qtype.spec_code() && vs[i].clcode == QCLASS_IN_CODE by {
            if i > 0 {
                assert(vs[i] == vs_rest[i - 1]);
                assert(qs.drop_first()[i - 1] == qs[i]);
            }
        }
    }
}

/// The bytes of a query message: header, then its question section.
pub open spec fn spec_message_bytes(h: DnsPacketHeader, qs: Seq<DnsQuestion>) -> Seq<u8> {
    spec_header_bytes(h) + spec_questions_bytes(qs)
}

/// Law, first half: a message built from supported questions with
/// uncompressed names decodes structurally to the same header, and to one
/// question view per question, carrying the question's own name bytes, type
/// code and class.
pub proof fn lemma_message_decodes(h: DnsPacketHeader, qs: Seq<DnsQuestion>)
    requires
        h.n_qs == qs.len(),
        h.n_answ == 0,
        forall|i: int| 0 <= i < qs.len() ==> spec_supported_uncompressed(#[trigger] qs[i]),
    ensures
        spec_decode_packet(spec_message_bytes(h, qs)) matches Some(pv) && pv.header == h
            && pv.answers.len() == 0 && pv.end == spec_message_bytes(h, qs).len()
            && pv.questions.len() == qs.len() && forall|i: int|
            0 <= i < qs.len() ==> (#[trigger] pv.questions[i]).name == encode_utf8(qs[i].name@)
                && pv.questions[i].tcode == qs[i].qtype.spec_code() && pv.questions[i].clcode
                == QCLASS_IN_CODE,
{
    let buf = spec_message_bytes(h, qs);
    let hb = spec_header_bytes(h);
    let sect = spec_questions_bytes(qs);
    assert(hb.len() == 12);
    lemma_be16_roundtrip(h.trans_id);
    lemma_be16_roundtrip(h.q_flags);
    lemma_be16_roundtrip(h.n_qs);
    lemma_be16_roundtrip(h.n_answ);
    lemma_be16_roundtrip(h.n_auth);
    lemma_be16_roundtrip(h.n_addn);
    assert(spec_decode_header(buf) == Some(h)) by {
        assert(buf[0] == spec_be16_bytes(h.trans_id)[0] && buf[1] == spec_be16_bytes(h.trans_id)[1]
            && buf[2] == spec_be16_bytes(h.q_flags)[0] && buf[3] == spec_be16_bytes(h.q_flags)[1]
            && buf[4] == spec_be16_bytes(h.n_qs)[0] && buf[5] == spec_be16_bytes(h.n_qs)[1]
            && buf[6] == spec_be16_bytes(h.n_answ)[0] && buf[7] == spec_be16_bytes(h.n_answ)[1]
            && buf[8] == spec_be16_bytes(h.n_auth)[0] && buf[9] == spec_be16_bytes(h.n_auth)[1]
            && buf[10] == spec_be16_bytes(h.n_addn)[0] && buf[11] == spec_be16_bytes(
            h.n_addn,
        )[1]);
    }
    assert(buf.subrange(12, 12 + sect.len() as int) =~= sect);
    lemma_questions_decode(buf, 12, qs);
}

/// Law, second half: two questions that agree on name and type encode to
/// the same block, so a question section re-encodes byte for byte from what
/// a decoder handed back.
pub proof fn lemma_sections_equal(qs1: Seq<DnsQuestion>, qs2: Seq<DnsQuestion>)
    requires
        qs1.len() == qs2.len(),
        forall|i: int|
            0 <= i < qs1.len() ==> (#[trigger] qs1[i]).name@ == qs2[i].name@ && qs1[i].qtype
                == qs2[i].qtype,
    ensures
        spec_questions_bytes(qs1) == spec_questions_bytes(qs2),
    decreases qs1.len(),
{
    if qs1.len() > 0 {
        assert(spec_question_block(qs1[0]) == spec_question_block(qs2[0]));
        assert forall|i: int| 0 <= i < qs1.drop_first().len() implies (#[trigger] qs1.drop_first()[
            i
        ]).name@ == qs2.drop_first()[i].name@ && qs1.drop_first()[i].qtype
            == qs2.drop_first()[i].qtype by {
            assert(qs1.drop_first()[i] == qs1[i + 1]);
            assert(qs2.drop_first()[i] == qs2[i + 1]);
        }
        lemma_sections_equal(qs1.drop_first(), qs2.drop_first());
    }
}

/// Law: for every supported question type and every uncompressed,
/// well-formed name, decoding an encoded query message yields the very
/// questions it was built from, and re-encoding what was decoded reproduces
/// the original bytes exactly.
///
/// `p2` stands for whatever a decoder reported: any message whose header
/// and questions agree with the structural decode of the encoded bytes, as
/// `DnsPacket::decode` guarantees of its result.
pub proof fn lemma_message_roundtrip(h: DnsPacketHeader, qs: Seq<DnsQuestion>, p2: DnsPacket)
    requires
        h.n_qs == qs.len(),
        h.n_answ == 0,
        forall|i: int| 0 <= i < qs.len() ==> spec_supported_uncompressed(#[trigger] qs[i]),
        p2.header == spec_decode_packet(spec_message_bytes(h, qs)).unwrap().header,
        p2.questions@.len() == spec_decode_packet(spec_message_bytes(h, qs)).unwrap().questions.len(),
        forall|i: int|
            0 <= i < p2.questions@.len() ==> question_matches(
                #[trigger] p2.questions@[i],
                spec_decode_packet(spec_message_bytes(h, qs)).unwrap().questions[i],
            ),
    ensures
        p2.header == h,
        p2.questions@.len() == qs.len(),
        forall|i: int|
            0 <= i < qs.len() ==> (#[trigger] p2.questions@[i]).name@ == qs[i].name@
                && p2.questions@[i].qtype == qs[i].qtype,
        spec_message_bytes(p2.header, p2.questions@) == spec_message_bytes(h, qs),
{
    lemma_message_decodes(h, qs);
    let pv = spec_decode_packet(spec_message_bytes(h, qs)).unwrap();
    assert forall|i: int| 0 <= i < qs.len() implies (#[trigger] p2.questions@[i]).name@
        == qs[i].name@ && p2.questions@[i].qtype == qs[i].qtype by {
        assert(question_matches(p2.questions@[i], pv.questions[i]));
        vstd::utf8::encode_utf8_decode_utf8(qs[i].name@);
        lemma_code_roundtrip(qs[i].qtype);
    }
    lemma_sections_equal(p2.questions@, qs);
}

/// The node-status name field is one well-formed 32-byte label: exactly
/// the label encoding of the wildcard name it decodes to.
pub proof fn lemma_nbstat_block_is_label_encoding()
    ensures
        spec_nbstat_block() == spec_encode_labels(spec_nibble_expand(spec_nb_wildcard())),
        wf_dotted(spec_nibble_expand(spec_nb_wildcard())),
{
    let nm = spec_nibble_expand(spec_nb_wildcard());
    assert(nm.len() == 32);
    assert forall|j: int| 0 <= j < 32 implies #[trigger] nm[j] != NAME_DOT by {
        let src = spec_nb_wildcard();
        let b = src[j / 2];
        assert(b >> 4 <= 15 && b & 0x0f <= 15) by (bit_vector);
        if j % 2 == 0 {
            assert(nm[j] == ((b >> 4) + 0x41) as u8);
        } else {
            assert(nm[j] == ((b & 0x0f) + 0x41) as u8);
        }
    }
    lemma_chunk_len_unique(nm, 32);
    assert(spec_encode_labels(nm) =~= seq![32u8] + nm);
    assert(spec_nbstat_block() =~= seq![32u8] + nm);
}

/// Law, node-status half: a node-status question and the SRV-typed
/// question a decoder reads it back as encode to the same bytes — the
/// wildcard block is an ordinary label, and the two types share one wire
/// code.
pub proof fn lemma_nbstat_question_reencodes(q: DnsQuestion, q2: DnsQuestion)
    requires
        q.qtype == DnsQuestionType::Nbstat,
        q2.qtype == DnsQuestionType::Srv,
        encode_utf8(q2.name@) == spec_nibble_expand(spec_nb_wildcard()),
    ensures
        spec_question_block(q2) == spec_question_block(q),
{
    lemma_nbstat_block_is_label_encoding();
}

/// The uncompressed equivalent of the name at `pos`: labels inlined in
/// place of every followable pointer, ending with the terminator byte (an
/// unfollowable pointer ends the name like a terminator). Defined exactly
/// when decoding succeeds.
pub open spec fn spec_expand_name(buf: Seq<u8>, pos: int, limit: int) -> Option<Seq<u8>>
    decreases limit, buf.len() - pos,
{
    if pos < 0 || pos >= buf.len() {
        None
    } else {
        let b = buf[pos];
        if b == 0 {
            Some(seq![0u8])
        } else if b >= 0xc0 {
            if pos + 1 >= buf.len() {
                None
            } else {
                let off = (b - 0xc0) * 256 + buf[pos + 1];
                if 0 <= off < limit {
                    spec_expand_name(buf, off, off)
                } else {
                    Some(seq![0u8])
                }
            }
        } else {
            if pos + 1 + b > buf.len() {
                None
            } else {
                match spec_expand_name(buf, pos + 1 + b, limit) {
                    Some(rest) => Some(seq![b] + buf.subrange(pos + 1, pos + 1 + b) + rest),
                    None => None,
                }
            }
        }
    }
}

/// Wherever the expansion of a name is laid down, it decodes to the very
/// dotted string that the compressed original decodes to, and occupies
/// exactly its own length.
pub proof fn lemma_expand_decodes(
    buf: Seq<u8>,
    pos: int,
    limit: int,
    ctx: Seq<u8>,
    tail: Seq<u8>,
    s2: int,
)
    requires
        spec_expand_name(buf, pos, limit) is Some,
    ensures
        ({
            let e = spec_expand_name(buf, pos, limit).unwrap();
            &&& spec_decode_name(buf, pos, limit) is Some
            &&& spec_decode_name(ctx + e + tail, ctx.len() as int, s2) == Some(
                (spec_decode_name(buf, pos, limit).unwrap().0, e.len() as int),
            )
        }),
    decreases limit, buf.len() - pos,
{
    let e = spec_expand_name(buf, pos, limit).unwrap();
    let buf2 = ctx + e + tail;
    let p2 = ctx.len() as int;
    let b = buf[pos];
    if b == 0 {
        assert(buf2[p2] == 0u8);
    } else if b >= 0xc0 {
        let off = (b - 0xc0) * 256 + buf[pos + 1];
        if 0 <= off < limit {
            lemma_expand_decodes(buf, off, off, ctx, tail, s2);
        } else {
            assert(e =~= seq![0u8]);
            assert(buf2[p2] == 0u8);
        }
    } else {
        let label = buf.subrange(pos + 1, pos + 1 + b);
        let rest = spec_expand_name(buf, pos + 1 + b, limit).unwrap();
        assert(e == seq![b] + label + rest);
        let ctx2 = ctx + seq![b] + label;
        lemma_expand_decodes(buf, pos + 1 + b, limit, ctx2, tail, s2);
        assert(ctx2 + rest + tail =~= buf2);
        assert(buf2[p2] == b);
        assert(p2 + 1 + b <= buf2.len());
        assert(buf2.subrange(p2 + 1, p2 + 1 + b) =~= label);
        assert(ctx2.len() == p2 + 1 + b);
        let (rest_nm, rest_c) = spec_decode_name(buf, pos + 1 + b, limit).unwrap();
        assert(spec_decode_name(buf2, p2 + 1 + b, s2) == Some((rest_nm, rest.len() as int)));
        assert(spec_decode_name(buf2, p2, s2) == Some(
            (spec_join(label, rest_nm), 1 + b + rest.len()),
        ));
        assert(spec_decode_name(buf, pos, limit) == Some(
            (spec_join(label, rest_nm), 1 + b + rest_c),
        ));
        assert(e.len() == 1 + b + rest.len());
    }
}

/// Law: a name that uses compression pointers decodes to the same dotted
/// string as its fully-expanded, uncompressed equivalent, read on its own.
pub proof fn lemma_compression_transparent(buf: Seq<u8>, pos: int)
    requires
        spec_expand_name(buf, pos, buf.len() as int) is Some,
    ensures
        ({
            let e = spec_expand_name(buf, pos, buf.len() as int).unwrap();
            &&& spec_decode_name(buf, pos, buf.len() as int) is Some
            &&& spec_decode_name(e, 0, 0) == Some(
                (spec_decode_name(buf, pos, buf.len() as int).unwrap().0, e.len() as int),
            )
        }),
{
    let e = spec_expand_name(buf, pos, buf.len() as int).unwrap();
    lemma_expand_decodes(buf, pos, buf.len() as int, Seq::empty(), Seq::empty(), 0);
    assert(Seq::<u8>::empty() + e + Seq::<u8>::empty() =~= e);
    assert(Seq::<u8>::empty().len() as int == 0);
}

} // verus!
