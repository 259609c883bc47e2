//! What holds across the codec: bytes written by the builders parse back to
//! what was supplied, and pointers are only ever followed backward.
use vstd::prelude::*;
use crate::wire::{be16, be32, u16_bytes, u32_bytes, lemma_be16_of_bytes, lemma_be32_of_bytes};
use crate::header::Header;
use crate::name::{
    LabelType, spec_label_at, name_end, name_end_from, name_labels, name_labels_from, encode_labels,
    lemma_encode_concat,
};
use crate::question::{QType, QClass, qtype_of, qclass_of, question_end};
use crate::answer::{AClass, AType, aclass_of, answer_name_end, answer_end, rdata_valid, rdata_fields, rdata_wire};
use crate::name::{Name, name_wire};
use crate::name_builder::literal_label;

verus! {

/// Labels a builder can write as literals: each of one to 63 bytes.
pub open spec fn writable_labels(ls: Seq<Seq<u8>>) -> bool {
    forall|k: int| 0 <= k < ls.len() ==> 1 <= #[trigger] ls[k].len() <= 63
}

/// Writing literal labels one after another, as the name builder does, gives
/// the wire form of the whole label sequence.
pub proof fn lemma_literal_labels_chain(ls: Seq<Seq<u8>>, l: Seq<u8>)
    requires
        1 <= l.len() <= 63,
    ensures
        literal_label(l) == Some(seq![l.len() as u8] + l),
        encode_labels(ls.push(l)) == encode_labels(ls) + literal_label(l)->0,
{
    assert(ls.push(l).drop_last() =~= ls);
    assert(encode_labels(ls.push(l)) =~= encode_labels(ls) + literal_label(l)->0);
}

/// The bytes of a header read back give the same fields.
pub proof fn lemma_header_round_trip(h: Header)
    ensures
        be16(h.spec_bytes(), 0) == h.spec_id(),
        be16(h.spec_bytes(), 2) == h.spec_flags(),
        be16(h.spec_bytes(), 4) == h.spec_question_count(),
        be16(h.spec_bytes(), 6) == h.spec_answer_count(),
        be16(h.spec_bytes(), 8) == h.spec_name_server_count(),
        be16(h.spec_bytes(), 10) == h.spec_additional_records_count(),
{
    lemma_be16_of_bytes(h.spec_id());
    lemma_be16_of_bytes(h.spec_flags());
    lemma_be16_of_bytes(h.spec_question_count());
    lemma_be16_of_bytes(h.spec_answer_count());
    lemma_be16_of_bytes(h.spec_name_server_count());
    lemma_be16_of_bytes(h.spec_additional_records_count());
}

proof fn lemma_encode_first(ls: Seq<Seq<u8>>)
    requires
        ls.len() > 0,
    ensures
        encode_labels(ls) == seq![ls[0].len() as u8] + ls[0] + encode_labels(ls.drop_first()),
{
    lemma_encode_concat(seq![ls[0]], ls.drop_first());
    assert(seq![ls[0]] + ls.drop_first() =~= ls);
    let one = seq![ls[0]];
    assert(one.drop_last() =~= Seq::<Seq<u8>>::empty());
    assert(one.last() == ls[0]);
    assert(encode_labels(one.drop_last()) =~= Seq::<u8>::empty());
    assert(encode_labels(one) =~= seq![ls[0].len() as u8] + ls[0]);
}

proof fn lemma_literal_name_from(b: Seq<u8>, start: int, origin: int, j: int, rest: Seq<Seq<u8>>, depth: nat)
    requires
        writable_labels(rest),
        0 <= start <= j,
        j - start + encode_labels(rest).len() < 255,
        depth + rest.len() <= 255,
        j + encode_labels(rest).len() + 1 <= b.len(),
        b.subrange(j, j + encode_labels(rest).len() + 1) == encode_labels(rest) + seq![0u8],
    ensures
        name_end_from(b, start, j) == Some(j + encode_labels(rest).len() + 1),
        name_labels_from(b, origin, j, depth) == Some(rest),
    decreases rest.len(),
{
    let n = encode_labels(rest).len();
    assert(b[j] == b.subrange(j, j + n + 1)[0]);
    if rest.len() == 0 {
        assert(b[j] == 0);
    } else {
        lemma_encode_first(rest);
        let l = rest[0];
        let tail = rest.drop_first();
        assert(writable_labels(tail)) by {
            assert forall|k: int| 0 <= k < tail.len() implies 1 <= #[trigger] tail[k].len() <= 63 by {
                assert(tail[k] == rest[k + 1]);
            }
        }
        assert(1 <= l.len() <= 63) by {
            assert(rest[0] == l);
        }
        assert(b[j] == l.len() as u8);
        let next = j + 1 + l.len();
        assert(b.subrange(j + 1, next) =~= l) by {
            assert forall|m: int| 0 <= m < l.len() implies b.subrange(j + 1, next)[m] == l[m] by {
                assert(b.subrange(j + 1, next)[m] == b.subrange(j, j + n + 1)[m + 1]);
            }
        }
        let m = encode_labels(tail).len();
        assert(b.subrange(next, next + m + 1) =~= encode_labels(tail) + seq![0u8]) by {
            assert forall|k: int| 0 <= k < m + 1 implies b.subrange(next, next + m + 1)[k] == (encode_labels(tail) + seq![0u8])[k] by {
                assert(b.subrange(next, next + m + 1)[k] == b.subrange(j, j + n + 1)[k + 1 + l.len()]);
            }
        }
        lemma_literal_name_from(b, start, origin, next, tail, depth + 1);
        assert(seq![l] + tail =~= rest);
    }
}

/// A name written as literal labels and a terminating zero parses back to the
/// same labels, and ends right after the zero.
pub proof fn lemma_name_round_trip(b: Seq<u8>, pos: int, ls: Seq<Seq<u8>>)
    requires
        writable_labels(ls),
        0 <= pos,
        encode_labels(ls).len() + 1 <= 255,
        pos + encode_labels(ls).len() + 1 <= b.len(),
        b.subrange(pos, pos + encode_labels(ls).len() + 1) == encode_labels(ls) + seq![0u8],
    ensures
        name_end(b, pos) == Some(pos + encode_labels(ls).len() + 1),
        name_labels(b, pos) == Some(ls),
{
    assert(ls.len() <= encode_labels(ls).len()) by {
        lemma_labels_shorter(ls);
    }
    lemma_literal_name_from(b, pos, pos, pos, ls, 0);
}

proof fn lemma_labels_shorter(ls: Seq<Seq<u8>>)
    ensures
        ls.len() <= encode_labels(ls).len(),
    decreases ls.len(),
{
    if ls.len() > 0 {
        lemma_labels_shorter(ls.drop_last());
    }
}

/// A question written with literal labels, a type and a class parses back to
/// the same name, type and class.
pub proof fn lemma_question_round_trip(b: Seq<u8>, pos: int, ls: Seq<Seq<u8>>, qtype: QType, qclass: QClass)
    requires
        writable_labels(ls),
        0 <= pos,
        encode_labels(ls).len() + 1 <= 255,
        qtype.spec_code() is Some,
        qclass.spec_code() is Some,
        ({
            let w = encode_labels(ls) + seq![0u8] + u16_bytes(qtype.spec_code()->0) + u16_bytes(qclass.spec_code()->0);
            pos + w.len() <= b.len() && b.subrange(pos, pos + w.len()) == w
        }),
    ensures
        ({
            let end = pos + encode_labels(ls).len() + 5;
            &&& question_end(b, pos) == Some(end)
            &&& name_labels(b, pos) == Some(ls)
            &&& qtype_of(be16(b, end - 4)) == qtype
            &&& qclass_of(be16(b, end - 2)) == qclass
        }),
{
    let n: int = encode_labels(ls).len() as int + 1;
    let w = encode_labels(ls) + seq![0u8] + u16_bytes(qtype.spec_code()->0) + u16_bytes(qclass.spec_code()->0);
    assert(b.subrange(pos, pos + n) =~= b.subrange(pos, pos + w.len()).subrange(0, n));
    assert(w.subrange(0, n) =~= encode_labels(ls) + seq![0u8]);
    lemma_name_round_trip(b, pos, ls);
    let e = pos + n;
    assert(b[e] == w[n] && b[e + 1] == w[n + 1] && b[e + 2] == w[n + 2] && b[e + 3] == w[n + 3]) by {
        assert(b[e] == b.subrange(pos, pos + w.len())[n]);
        assert(b[e + 1] == b.subrange(pos, pos + w.len())[n + 1]);
        assert(b[e + 2] == b.subrange(pos, pos + w.len())[n + 2]);
        assert(b[e + 3] == b.subrange(pos, pos + w.len())[n + 3]);
    }
    lemma_be16_of_bytes(qtype.spec_code()->0);
    lemma_be16_of_bytes(qclass.spec_code()->0);
    assert(be16(b, e) == be16(u16_bytes(qtype.spec_code()->0), 0));
    assert(be16(b, e + 2) == be16(u16_bytes(qclass.spec_code()->0), 0));
    lemma_qtype_code(qtype);
    lemma_qclass_code(qclass);
}

/// A query type's code stands for that type.
pub proof fn lemma_qtype_code(t: QType)
    ensures
        t.spec_code() matches Some(c) ==> qtype_of(c) == t,
{
}

/// A query class's code stands for that class.
pub proof fn lemma_qclass_code(c: QClass)
    ensures
        c.spec_code() matches Some(n) ==> qclass_of(n) == c,
{
}

/// An answer class's code stands for that class.
pub proof fn lemma_aclass_code(c: AClass)
    ensures
        c.spec_code() matches Some(n) ==> aclass_of(n) == c,
{
}

/// The bytes of an answer as the builders write them: the name, the type,
/// the class with the cache-flush bit on top, the TTL, the data length and the data.
pub open spec fn answer_wire(
    ls: Seq<Seq<u8>>,
    type_code: u16,
    cache_flush: bool,
    class_code: u16,
    ttl: u32,
    data: Seq<u8>,
) -> Seq<u8> {
    encode_labels(ls) + seq![0u8] + u16_bytes(type_code) + seq![
        ((class_code / 256) % 128 + if cache_flush { 128int } else { 0int }) as u8,
        (class_code % 256) as u8,
    ] + u32_bytes(ttl) + u16_bytes(data.len() as u16) + data
}

/// An answer written with literal labels parses back to the same name,
/// cache-flush flag, class and TTL, whatever its data, as long as the data
/// is well formed for its type.
pub proof fn lemma_answer_round_trip(
    b: Seq<u8>,
    pos: int,
    ls: Seq<Seq<u8>>,
    type_code: u16,
    cache_flush: bool,
    aclass: AClass,
    ttl: u32,
    data: Seq<u8>,
)
    requires
        writable_labels(ls),
        0 <= pos,
        encode_labels(ls).len() + 1 <= 255,
        aclass.spec_code() is Some,
        data.len() <= 0xFFFF,
        ({
            let w = answer_wire(ls, type_code, cache_flush, aclass.spec_code()->0, ttl, data);
            pos + w.len() <= b.len() && b.subrange(pos, pos + w.len()) == w
        }),
        rdata_valid(type_code, data.len() as u16, b, pos + encode_labels(ls).len() + 11),
    ensures
        ({
            let e = pos + encode_labels(ls).len() + 1;
            &&& answer_name_end(b, pos) == Some(e)
            &&& answer_end(b, pos) == Some(e + 10 + data.len())
            &&& name_labels(b, pos) == Some(ls)
            &&& be16(b, e) == type_code
            &&& (b[e + 2] >= 128) == cache_flush
            &&& aclass_of(((b[e + 2] % 128) as int * 256 + b[e + 3] as int) as u16) == aclass
            &&& be32(b, e + 4) == ttl
            &&& b.subrange(e + 10, e + 10 + data.len()) == data
        }),
{
    let code = aclass.spec_code()->0;
    let n: int = encode_labels(ls).len() as int + 1;
    let w = answer_wire(ls, type_code, cache_flush, code, ttl, data);
    let s = b.subrange(pos, pos + w.len());
    assert(b.subrange(pos, pos + n) =~= s.subrange(0, n));
    assert(w.subrange(0, n) =~= encode_labels(ls) + seq![0u8]);
    lemma_name_round_trip(b, pos, ls);
    let e = pos + n;
    assert forall|k: int| 0 <= k < 10 + data.len() implies #[trigger] b[e + k] == w[n + k] by {
        assert(b[e + k] == s[n + k]);
    }
    assert(b[e] == w[n] && b[e + 1] == w[n + 1]);
    assert(b[e + 2] == w[n + 2] && b[e + 3] == w[n + 3]);
    assert(b[e + 4] == w[n + 4] && b[e + 5] == w[n + 5] && b[e + 6] == w[n + 6] && b[e + 7] == w[n + 7]);
    assert(b[e + 8] == w[n + 8] && b[e + 9] == w[n + 9]);
    lemma_be16_of_bytes(type_code);
    lemma_be32_of_bytes(ttl);
    lemma_be16_of_bytes(data.len() as u16);
    assert(be16(b, e) == be16(u16_bytes(type_code), 0));
    assert(be32(b, e + 4) == be32(u32_bytes(ttl), 0));
    assert(be16(b, e + 8) == be16(u16_bytes(data.len() as u16), 0));
    assert(b.subrange(e + 10, e + 10 + data.len()) =~= data) by {
        assert forall|k: int| 0 <= k < data.len() implies b.subrange(e + 10, e + 10 + data.len())[k] == data[k] by {
            assert(b[e + 10 + k] == w[n + 10 + k]);
        }
    }
    lemma_aclass_code(aclass);
    assert(code <= 4);
    assert(((b[e + 2] % 128) as int * 256 + b[e + 3] as int) as u16 == code);
}

/// Four bytes of data with type A are well formed, and read as that address.
pub proof fn lemma_a_data(b: Seq<u8>, pos: int)
    requires
        0 <= pos,
        pos + 4 <= b.len(),
    ensures
        rdata_valid(1, 4, b, pos),
        forall|v: AType| rdata_fields(v, 1, 4, b, pos) <==> v == AType::A(be32(b, pos)),
{
}

/// Text data of at least one byte is well formed, and reads as the same bytes.
pub proof fn lemma_txt_data(b: Seq<u8>, pos: int, len: u16)
    requires
        0 <= pos,
        pos + len <= b.len(),
        len >= 1,
    ensures
        rdata_valid(16, len, b, pos),
        forall|v: AType| rdata_fields(v, 16, len, b, pos) <==> (v matches AType::TXT(s) && s@ == b.subrange(pos, pos + len)),
{
}

/// Every pointer the label reader accepts points strictly before itself.
pub proof fn lemma_pointer_backward(b: Seq<u8>, pos: int)
    ensures
        spec_label_at(b, pos) matches Some((LabelType::Pointer(t), _)) ==> (t as int) < pos,
{
}

/// A name that meets a pointer to its own offset or beyond fails to parse,
/// and a name whose walk meets such a pointer has no labels.
pub proof fn lemma_forward_pointer_rejected(b: Seq<u8>, start: int, j: int, origin: int, depth: nat)
    requires
        0 <= j,
        j + 1 < b.len(),
        b[j] >= 192,
        (b[j] - 192) * 256 + b[j + 1] >= j,
    ensures
        name_end_from(b, start, j) is None,
        name_labels_from(b, origin, j, depth) is None,
{
}

/// Following pointers never reaches the name's own offset or beyond: a
/// pointer to `origin` or later ends the walk without labels.
pub proof fn lemma_walk_stays_before_origin(b: Seq<u8>, origin: int, pos: int, depth: nat)
    requires
        depth <= 255,
        spec_label_at(b, pos) matches Some((LabelType::Pointer(t), _)) && (t as int) >= origin,
    ensures
        name_labels_from(b, origin, pos, depth) is None,
{
}

/// Every label a name walk yields is one to 63 bytes long.
pub proof fn lemma_walk_labels_writable(b: Seq<u8>, origin: int, pos: int, depth: nat)
    ensures
        name_labels_from(b, origin, pos, depth) matches Some(ls) ==> writable_labels(ls),
    decreases 256 - depth,
{
    if depth <= 255 {
        match spec_label_at(b, pos) {
            Some((LabelType::Pointer(t), _)) => {
                if (t as int) < origin {
                    lemma_walk_labels_writable(b, origin, t as int, depth + 1);
                }
            },
            Some((LabelType::Part(len), next)) => {
                if len != 0 && next + len <= b.len() {
                    lemma_walk_labels_writable(b, origin, next + len, depth + 1);
                    let l = b.subrange(next, next + len);
                    if let Some(rest) = name_labels_from(b, origin, next + len, depth + 1) {
                        let ls = seq![l] + rest;
                        assert forall|k: int| 0 <= k < ls.len() implies 1 <= #[trigger] ls[k].len() <= 63 by {
                            if k > 0 {
                                assert(ls[k] == rest[k - 1]);
                            }
                        }
                    }
                }
            },
            None => {},
        }
    }
}

/// Two record data values say the same: the same variant, numbers and bytes,
/// and names that read as the same labels.
pub open spec fn same_data(x: AType, y: AType) -> bool {
    match (x, y) {
        (AType::A(a), AType::A(c)) => a == c,
        (AType::NS(m), AType::NS(n)) => m.labels() is Some && m.labels() == n.labels(),
        (AType::CNAME(m), AType::CNAME(n)) => m.labels() is Some && m.labels() == n.labels(),
        (AType::PTR(m), AType::PTR(n)) => m.labels() is Some && m.labels() == n.labels(),
        (AType::SOA(m1, r1, a1, b1, c1, d1, e1), AType::SOA(m2, r2, a2, b2, c2, d2, e2)) => {
            &&& m1.labels() is Some && m1.labels() == m2.labels()
            &&& r1.labels() is Some && r1.labels() == r2.labels()
            &&& a1 == a2 && b1 == b2 && c1 == c2 && d1 == d2 && e1 == e2
        },
        (AType::MX(x1, m), AType::MX(x2, n)) => x1 == x2 && m.labels() is Some && m.labels() == n.labels(),
        (AType::TXT(s), AType::TXT(t)) => s@ == t@,
        (AType::AAAA(a), AType::AAAA(c)) => a@ == c@,
        (AType::SRV(q1, w1, o1, m), AType::SRV(q2, w2, o2, n)) => {
            &&& q1 == q2 && w1 == w2 && o1 == o2
            &&& m.labels() is Some && m.labels() == n.labels()
        },
        (AType::OPT(s1, r1, v1, d1), AType::OPT(s2, r2, v2, d2)) => s1 == s2 && r1 == r2 && v1 == v2 && d1@
            == d2@,
        _ => false,
    }
}

/// A piece of `w` stored with `w` at `p` of `b` is stored at the matching offset.
proof fn lemma_piece(b: Seq<u8>, p: int, w: Seq<u8>, off: int, piece: Seq<u8>)
    requires
        0 <= p,
        p + w.len() <= b.len(),
        b.subrange(p, p + w.len()) == w,
        0 <= off,
        off + piece.len() <= w.len(),
        w.subrange(off, off + piece.len()) == piece,
    ensures
        b.subrange(p + off, p + off + piece.len()) == piece,
{
    assert forall|k: int| 0 <= k < piece.len() implies b.subrange(p + off, p + off + piece.len())[k] == piece[k] by {
        assert(b.subrange(p, p + w.len())[off + k] == b[p + off + k]);
        assert(w.subrange(off, off + piece.len())[k] == w[off + k]);
    }
    assert(b.subrange(p + off, p + off + piece.len()) =~= piece);
}

proof fn lemma_be16_at(b: Seq<u8>, q: int, v: u16)
    requires
        0 <= q,
        q + 2 <= b.len(),
        b.subrange(q, q + 2) == u16_bytes(v),
    ensures
        be16(b, q) == v,
{
    assert(b[q] == b.subrange(q, q + 2)[0] && b[q + 1] == b.subrange(q, q + 2)[1]);
    lemma_be16_of_bytes(v);
}

proof fn lemma_be32_at(b: Seq<u8>, q: int, v: u32)
    requires
        0 <= q,
        q + 4 <= b.len(),
        b.subrange(q, q + 4) == u32_bytes(v),
    ensures
        be32(b, q) == v,
{
    assert(b[q] == b.subrange(q, q + 4)[0] && b[q + 1] == b.subrange(q, q + 4)[1]);
    assert(b[q + 2] == b.subrange(q, q + 4)[2] && b[q + 3] == b.subrange(q, q + 4)[3]);
    lemma_be32_of_bytes(v);
}

/// A name written in wire form at `q` reads back as the same labels.
proof fn lemma_name_wire_at(b: Seq<u8>, q: int, n: Name)
    requires
        name_wire(n) is Some,
        0 <= q,
        q + name_wire(n)->0.len() <= b.len(),
        b.subrange(q, q + name_wire(n)->0.len()) == name_wire(n)->0,
    ensures
        name_end(b, q) == Some(q + name_wire(n)->0.len()),
        name_labels(b, q) == n.labels(),
{
    let ls = n.labels()->0;
    lemma_walk_labels_writable(n.source(), n.start(), n.start(), 0);
    lemma_name_round_trip(b, q, ls);
}

/// Record data written in wire form parses back, at exactly its length, to
/// data that says the same.
pub proof fn lemma_rdata_round_trip(v: AType, b: Seq<u8>, p: int, parsed: AType)
    requires
        rdata_wire(v) is Some,
        rdata_wire(v)->0.len() <= 0xFFFF,
        0 <= p,
        p + rdata_wire(v)->0.len() <= b.len(),
        b.subrange(p, p + rdata_wire(v)->0.len()) == rdata_wire(v)->0,
    ensures
        v.spec_type_id() is Some,
        rdata_valid(v.spec_type_id()->0, rdata_wire(v)->0.len() as u16, b, p),
        rdata_fields(parsed, v.spec_type_id()->0, rdata_wire(v)->0.len() as u16, b, p) ==> same_data(v, parsed),
{
    match v {
        AType::A(..) => lemma_rdata_round_trip_a(v, b, p, parsed),
        AType::NS(..) => lemma_rdata_round_trip_ns(v, b, p, parsed),
        AType::CNAME(..) => lemma_rdata_round_trip_cname(v, b, p, parsed),
        AType::PTR(..) => lemma_rdata_round_trip_ptr(v, b, p, parsed),
        AType::SOA(..) => lemma_rdata_round_trip_soa(v, b, p, parsed),
        AType::MX(..) => lemma_rdata_round_trip_mx(v, b, p, parsed),
        AType::TXT(..) => lemma_rdata_round_trip_txt(v, b, p, parsed),
        AType::AAAA(..) => lemma_rdata_round_trip_aaaa(v, b, p, parsed),
        AType::SRV(..) => lemma_rdata_round_trip_srv(v, b, p, parsed),
        AType::OPT(..) => lemma_rdata_round_trip_opt(v, b, p, parsed),
        AType::Unknown => {},
    }
}

proof fn lemma_rdata_round_trip_a(v: AType, b: Seq<u8>, p: int, parsed: AType)
    requires
        v is A,
        rdata_wire(v) is Some,
        rdata_wire(v)->0.len() <= 0xFFFF,
        0 <= p,
        p + rdata_wire(v)->0.len() <= b.len(),
        b.subrange(p, p + rdata_wire(v)->0.len()) == rdata_wire(v)->0,
    ensures
        v.spec_type_id() is Some,
        rdata_valid(v.spec_type_id()->0, rdata_wire(v)->0.len() as u16, b, p),
        rdata_fields(parsed, v.spec_type_id()->0, rdata_wire(v)->0.len() as u16, b, p) ==> same_data(v, parsed),
{
    let w = rdata_wire(v)->0;
    match v {
        AType::A(addr) => {
            assert(w.subrange(0, 4) =~= u32_bytes(addr));
            lemma_piece(b, p, w, 0, u32_bytes(addr));
            lemma_be32_at(b, p, addr);
        },
        _ => {},
    }
}

proof fn lemma_rdata_round_trip_ns(v: AType, b: Seq<u8>, p: int, parsed: AType)
    requires
        v is NS,
        rdata_wire(v) is Some,
        rdata_wire(v)->0.len() <= 0xFFFF,
        0 <= p,
        p + rdata_wire(v)->0.len() <= b.len(),
        b.subrange(p, p + rdata_wire(v)->0.len()) == rdata_wire(v)->0,
    ensures
        v.spec_type_id() is Some,
        rdata_valid(v.spec_type_id()->0, rdata_wire(v)->0.len() as u16, b, p),
        rdata_fields(parsed, v.spec_type_id()->0, rdata_wire(v)->0.len() as u16, b, p) ==> same_data(v, parsed),
{
    let w = rdata_wire(v)->0;
    match v {
        AType::NS(n) => {
            lemma_name_wire_at(b, p, n);
        },
        _ => {},
    }
}

proof fn lemma_rdata_round_trip_cname(v: AType, b: Seq<u8>, p: int, parsed: AType)
    requires
        v is CNAME,
        rdata_wire(v) is Some,
        rdata_wire(v)->0.len() <= 0xFFFF,
        0 <= p,
        p + rdata_wire(v)->0.len() <= b.len(),
        b.subrange(p, p + rdata_wire(v)->0.len()) == rdata_wire(v)->0,
    ensures
        v.spec_type_id() is Some,
        rdata_valid(v.spec_type_id()->0, rdata_wire(v)->0.len() as u16, b, p),
        rdata_fields(parsed, v.spec_type_id()->0, rdata_wire(v)->0.len() as u16, b, p) ==> same_data(v, parsed),
{
    let w = rdata_wire(v)->0;
    match v {
        AType::CNAME(n) => {
            lemma_name_wire_at(b, p, n);
        },
        _ => {},
    }
}

proof fn lemma_rdata_round_trip_ptr(v: AType, b: Seq<u8>, p: int, parsed: AType)
    requires
        v is PTR,
        rdata_wire(v) is Some,
        rdata_wire(v)->0.len() <= 0xFFFF,
        0 <= p,
        p + rdata_wire(v)->0.len() <= b.len(),
        b.subrange(p, p + rdata_wire(v)->0.len()) == rdata_wire(v)->0,
    ensures
        v.spec_type_id() is Some,
        rdata_valid(v.spec_type_id()->0, rdata_wire(v)->0.len() as u16, b, p),
        rdata_fields(parsed, v.spec_type_id()->0, rdata_wire(v)->0.len() as u16, b, p) ==> same_data(v, parsed),
{
    let w = rdata_wire(v)->0;
    match v {
        AType::PTR(n) => {
            lemma_name_wire_at(b, p, n);
        },
        _ => {},
    }
}

proof fn lemma_rdata_round_trip_soa(v: AType, b: Seq<u8>, p: int, parsed: AType)
    requires
        v is SOA,
        rdata_wire(v) is Some,
        rdata_wire(v)->0.len() <= 0xFFFF,
        0 <= p,
        p + rdata_wire(v)->0.len() <= b.len(),
        b.subrange(p, p + rdata_wire(v)->0.len()) == rdata_wire(v)->0,
    ensures
        v.spec_type_id() is Some,
        rdata_valid(v.spec_type_id()->0, rdata_wire(v)->0.len() as u16, b, p),
        rdata_fields(parsed, v.spec_type_id()->0, rdata_wire(v)->0.len() as u16, b, p) ==> same_data(v, parsed),
{
    let w = rdata_wire(v)->0;
    match v {
        AType::SOA(m, r, serial, refresh, retry, expire, minimum) => {
            let x = name_wire(m)->0;
            let y = name_wire(r)->0;
            let xl = x.len() as int;
            let yl = y.len() as int;
            assert(w.subrange(0, xl) =~= x);
            lemma_piece(b, p, w, 0, x);
            lemma_name_wire_at(b, p, m);
            assert(w.subrange(xl, xl + yl) =~= y);
            lemma_piece(b, p, w, xl, y);
            lemma_name_wire_at(b, p + xl, r);
            let e2 = p + xl + yl;
            assert(w.subrange(xl + yl, xl + yl + 4) =~= u32_bytes(serial));
            assert(w.subrange(xl + yl + 4, xl + yl + 8) =~= u32_bytes(refresh));
            assert(w.subrange(xl + yl + 8, xl + yl + 12) =~= u32_bytes(retry));
            assert(w.subrange(xl + yl + 12, xl + yl + 16) =~= u32_bytes(expire));
            assert(w.subrange(xl + yl + 16, xl + yl + 20) =~= u32_bytes(minimum));
            lemma_piece(b, p, w, xl + yl, u32_bytes(serial));
            lemma_piece(b, p, w, xl + yl + 4, u32_bytes(refresh));
            lemma_piece(b, p, w, xl + yl + 8, u32_bytes(retry));
            lemma_piece(b, p, w, xl + yl + 12, u32_bytes(expire));
            lemma_piece(b, p, w, xl + yl + 16, u32_bytes(minimum));
            lemma_be32_at(b, e2, serial);
            lemma_be32_at(b, e2 + 4, refresh);
            lemma_be32_at(b, e2 + 8, retry);
            lemma_be32_at(b, e2 + 12, expire);
            lemma_be32_at(b, e2 + 16, minimum);
        },
        _ => {},
    }
}

proof fn lemma_rdata_round_trip_mx(v: AType, b: Seq<u8>, p: int, parsed: AType)
    requires
        v is MX,
        rdata_wire(v) is Some,
        rdata_wire(v)->0.len() <= 0xFFFF,
        0 <= p,
        p + rdata_wire(v)->0.len() <= b.len(),
        b.subrange(p, p + rdata_wire(v)->0.len()) == rdata_wire(v)->0,
    ensures
        v.spec_type_id() is Some,
        rdata_valid(v.spec_type_id()->0, rdata_wire(v)->0.len() as u16, b, p),
        rdata_fields(parsed, v.spec_type_id()->0, rdata_wire(v)->0.len() as u16, b, p) ==> same_data(v, parsed),
{
    let w = rdata_wire(v)->0;
    match v {
        AType::MX(pref, n) => {
            let x = name_wire(n)->0;
            assert(w.subrange(0, 2) =~= u16_bytes(pref));
            lemma_piece(b, p, w, 0, u16_bytes(pref));
            lemma_be16_at(b, p, pref);
            assert(w.subrange(2, 2 + x.len() as int) =~= x);
            lemma_piece(b, p, w, 2, x);
            lemma_name_wire_at(b, p + 2, n);
        },
        _ => {},
    }
}

proof fn lemma_rdata_round_trip_txt(v: AType, b: Seq<u8>, p: int, parsed: AType)
    requires
        v is TXT,
        rdata_wire(v) is Some,
        rdata_wire(v)->0.len() <= 0xFFFF,
        0 <= p,
        p + rdata_wire(v)->0.len() <= b.len(),
        b.subrange(p, p + rdata_wire(v)->0.len()) == rdata_wire(v)->0,
    ensures
        v.spec_type_id() is Some,
        rdata_valid(v.spec_type_id()->0, rdata_wire(v)->0.len() as u16, b, p),
        rdata_fields(parsed, v.spec_type_id()->0, rdata_wire(v)->0.len() as u16, b, p) ==> same_data(v, parsed),
{
    let w = rdata_wire(v)->0;
    match v {
        AType::TXT(t) => {
            assert(b.subrange(p, p + w.len()) == t@);
        },
        _ => {},
    }
}

proof fn lemma_rdata_round_trip_aaaa(v: AType, b: Seq<u8>, p: int, parsed: AType)
    requires
        v is AAAA,
        rdata_wire(v) is Some,
        rdata_wire(v)->0.len() <= 0xFFFF,
        0 <= p,
        p + rdata_wire(v)->0.len() <= b.len(),
        b.subrange(p, p + rdata_wire(v)->0.len()) == rdata_wire(v)->0,
    ensures
        v.spec_type_id() is Some,
        rdata_valid(v.spec_type_id()->0, rdata_wire(v)->0.len() as u16, b, p),
        rdata_fields(parsed, v.spec_type_id()->0, rdata_wire(v)->0.len() as u16, b, p) ==> same_data(v, parsed),
{
    let w = rdata_wire(v)->0;
    match v {
        AType::AAAA(a) => {
            assert(b.subrange(p, p + 16) == a@);
        },
        _ => {},
    }
}

proof fn lemma_rdata_round_trip_srv(v: AType, b: Seq<u8>, p: int, parsed: AType)
    requires
        v is SRV,
        rdata_wire(v) is Some,
        rdata_wire(v)->0.len() <= 0xFFFF,
        0 <= p,
        p + rdata_wire(v)->0.len() <= b.len(),
        b.subrange(p, p + rdata_wire(v)->0.len()) == rdata_wire(v)->0,
    ensures
        v.spec_type_id() is Some,
        rdata_valid(v.spec_type_id()->0, rdata_wire(v)->0.len() as u16, b, p),
        rdata_fields(parsed, v.spec_type_id()->0, rdata_wire(v)->0.len() as u16, b, p) ==> same_data(v, parsed),
{
    let w = rdata_wire(v)->0;
    match v {
        AType::SRV(priority, weight, port, n) => {
            let x = name_wire(n)->0;
            assert(w.subrange(0, 2) =~= u16_bytes(priority));
            assert(w.subrange(2, 4) =~= u16_bytes(weight));
            assert(w.subrange(4, 6) =~= u16_bytes(port));
            lemma_piece(b, p, w, 0, u16_bytes(priority));
            lemma_piece(b, p, w, 2, u16_bytes(weight));
            lemma_piece(b, p, w, 4, u16_bytes(port));
            lemma_be16_at(b, p, priority);
            lemma_be16_at(b, p + 2, weight);
            lemma_be16_at(b, p + 4, port);
            assert(w.subrange(6, 6 + x.len() as int) =~= x);
            lemma_piece(b, p, w, 6, x);
            lemma_name_wire_at(b, p + 6, n);
        },
        _ => {},
    }
}

proof fn lemma_rdata_round_trip_opt(v: AType, b: Seq<u8>, p: int, parsed: AType)
    requires
        v is OPT,
        rdata_wire(v) is Some,
        rdata_wire(v)->0.len() <= 0xFFFF,
        0 <= p,
        p + rdata_wire(v)->0.len() <= b.len(),
        b.subrange(p, p + rdata_wire(v)->0.len()) == rdata_wire(v)->0,
    ensures
        v.spec_type_id() is Some,
        rdata_valid(v.spec_type_id()->0, rdata_wire(v)->0.len() as u16, b, p),
        rdata_fields(parsed, v.spec_type_id()->0, rdata_wire(v)->0.len() as u16, b, p) ==> same_data(v, parsed),
{
    let w = rdata_wire(v)->0;
    match v {
        AType::OPT(size, rcode, version, data) => {
            assert(w.subrange(0, 2) =~= u16_bytes(size));
            lemma_piece(b, p, w, 0, u16_bytes(size));
            lemma_be16_at(b, p, size);
            assert(b[p + 2] == b.subrange(p, p + w.len())[2]);
            assert(b[p + 3] == b.subrange(p, p + w.len())[3]);
            assert(w.subrange(4, w.len() as int) =~= data@);
            lemma_piece(b, p, w, 4, data@);
        },
        _ => {},
    }
}
} // verus!
