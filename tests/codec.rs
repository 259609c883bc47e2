use arrayvec::ArrayVec;
use mdns_codec::{
    AClass, AType, ExtendableBuffer, Header, HeaderKind, HeaderOpcode, HeaderResponseCode, LabelType,
    Message, MessageBodyMut, Name, QClass, QType, QuestionsSection,
};

type Buf = ArrayVec<u8, 256>;

const NAME: &[u8] = &[
    0x08, b'_', b'a', b'i', b'r', b'p', b'l', b'a', b'y', 0x04, b'_', b't', b'c', b'p', 0x05, b'l', b'o',
    b'c', b'a', b'l', 0x00,
];

fn fresh_body() -> MessageBodyMut<Buf, QuestionsSection> {
    let message = Message::new_mut(Buf::new_const()).unwrap();
    message.body_mut().unwrap()
}

fn built(qd: u8, an: u8, rest: &[u8]) -> Vec<u8> {
    let mut v = vec![0x00, 0x00, 0x00, 0x00, 0x00, qd, 0x00, an, 0x00, 0x00, 0x00, 0x00];
    v.extend_from_slice(rest);
    v
}

fn with_header(qd: u8, an: u8, rest: &[u8]) -> Vec<u8> {
    let mut v = vec![0x00, 0x08, 0x01, 0x00, 0x00, qd, 0x00, an, 0x00, 0x00, 0x00, 0x00];
    v.extend_from_slice(rest);
    v
}

#[test]
fn pointer_decodes_to_same_name() {
    let mut rest = NAME.to_vec();
    rest.extend_from_slice(&[0x00, 0x01, 0x00, 0x01]);
    rest.extend_from_slice(&[0xC0, 0x0C, 0x00, 0x0C, 0x00, 0x01]);
    let data = with_header(2, 0, &rest);
    let message = Message::new(data.as_slice()).unwrap();
    let mut body = message.body().unwrap();
    let mut questions = body.questions();
    let first = questions.next().unwrap();
    let second = questions.next().unwrap();
    assert!(questions.next().is_none());
    assert_eq!(first.name().to_string().unwrap(), "_airplay._tcp.local");
    assert_eq!(second.name().to_string().unwrap(), "_airplay._tcp.local");
    assert!(first.name().eq_name(second.name()));
    assert_eq!(second.name(), b"_airplay._tcp.local".as_slice());
    assert_eq!(second.qtype(), QType::PTR);
}

fn two_answers(use_pointer: bool) -> Buf {
    let body = fresh_body().to_answer_section();
    let names = body.append_answer().name();
    let ptr = names.ptr();
    let body = names
        .label(b"_airplay").unwrap()
        .label(b"_tcp").unwrap()
        .label(b"local").unwrap()
        .finish().unwrap().unwrap()
        .atype().a().ip(&[10, 0, 0, 1]).unwrap().finish().unwrap()
        .cache_flush(true).unwrap()
        .aclass(AClass::IN).unwrap()
        .ttl(60).unwrap()
        .finish().unwrap();
    let names = body.append_answer().name();
    let names = if use_pointer {
        names.label(&ptr).unwrap()
    } else {
        names.label(b"_airplay").unwrap().label(b"_tcp").unwrap().label(b"local").unwrap()
    };
    let body = names
        .finish().unwrap().unwrap()
        .atype().txt().txt(b"v=1").unwrap().finish().unwrap()
        .cache_flush(false).unwrap()
        .aclass(AClass::IN).unwrap()
        .ttl(60).unwrap()
        .finish().unwrap();
    body.into_message().into_buffer()
}

#[test]
fn pointer_answers_are_shorter_and_read_the_same() {
    let compressed = two_answers(true);
    let literal = two_answers(false);
    assert!(compressed.len() < literal.len());
    assert_eq!(literal.len() - compressed.len(), NAME.len() - 2);
    for buffer in [&compressed, &literal] {
        let message = Message::new(buffer.as_slice()).unwrap();
        assert_eq!(message.header().unwrap().answer_count(), 2);
        let mut body = message.body().unwrap().to_answer_section();
        let mut answers = body.answers();
        let a = answers.next().unwrap();
        let b = answers.next().unwrap();
        assert_eq!(a.name().to_string().unwrap(), b.name().to_string().unwrap());
        assert_eq!(a.name().to_string().unwrap(), "_airplay._tcp.local");
        assert_eq!(a.atype(), &AType::A(0x0A00_0001));
        assert!(a.cache_flush());
        assert!(!b.cache_flush());
        assert_eq!(b.atype(), &AType::TXT(b"v=1"));
        assert_eq!(b.ttl(), 60);
    }
}

#[test]
fn self_and_forward_pointers_fail() {
    let data = with_header(1, 0, &[0xC0, 0x0C, 0x00, 0x01, 0x00, 0x01]);
    let mut i = 12;
    assert!(Name::parse(&data, &mut i).is_err());
    assert_eq!(i, 12);
    let data = with_header(1, 0, &[0xC0, 0x20, 0x00, 0x01, 0x00, 0x01]);
    let mut i = 12;
    assert!(Name::parse(&data, &mut i).is_err());
    let message = Message::new(data.as_slice()).unwrap();
    let mut body = message.body().unwrap();
    assert!(body.questions().next().is_none());
    let mut i = 12;
    assert!(LabelType::from_bytes(&data, &mut i).is_err());
    let data = with_header(1, 0, &[0x01, b'a', 0xC0, 0x0C]);
    let mut i = 14;
    assert_eq!(LabelType::from_bytes(&data, &mut i), Ok(LabelType::Pointer(12)));
    assert_eq!(i, 16);
}

#[test]
fn name_longer_than_limit_fails() {
    let mut rest = Vec::new();
    for _ in 0..64 {
        rest.extend_from_slice(&[0x03, b'a', b'b', b'c']);
    }
    rest.push(0);
    let data = with_header(1, 0, &rest);
    let mut i = 12;
    assert!(Name::parse(&data, &mut i).is_err());
}

#[test]
fn rdata_length_must_match() {
    let bytes = [192u8, 168, 0, 1, 9];
    let mut i = 0;
    assert!(AType::parse(1, 5, &bytes, &mut i).is_err());
    assert!(AType::parse(1, 3, &bytes, &mut i).is_err());
    assert_eq!(i, 0);
    assert_eq!(AType::parse(1, 4, &bytes, &mut i), Ok(AType::A(0xC0A8_0001)));
    assert_eq!(i, 4);

    let mut i = 0;
    assert!(AType::parse(16, 0, &bytes, &mut i).is_err());
    assert!(AType::parse(41, 3, &bytes, &mut i).is_err());
    assert!(AType::parse(28, 4, &bytes, &mut i).is_err());
    let mut i = 0;
    assert_eq!(AType::parse(41, 5, &bytes, &mut i), Ok(AType::OPT(0xC0A8, 0, 1, &[9])));
    assert_eq!(i, 5);

    let name = [0x01u8, b'x', 0x00];
    let mut i = 0;
    assert!(AType::parse(12, 4, &name, &mut i).is_err());
    assert!(AType::parse(12, 2, &name, &mut i).is_err());
    let mut i = 0;
    match AType::parse(12, 3, &name, &mut i) {
        Ok(AType::PTR(n)) => assert_eq!(&n, b"x".as_slice()),
        other => panic!("unexpected {:?}", other),
    }
    assert_eq!(i, 3);

    let mut i = 1;
    assert_eq!(AType::parse(99, 4, &bytes, &mut i), Ok(AType::Unknown));
    assert_eq!(i, 5);
    let mut i = 1;
    assert!(AType::parse(99, 5, &bytes, &mut i).is_err());
}

#[test]
fn srv_and_mx_data_parse() {
    let data = [0x00u8, 0x0A, 0x00, 0x05, 0x1F, 0x90, 0x01, b'h', 0x00];
    let mut i = 0;
    match AType::parse(33, 9, &data, &mut i) {
        Ok(AType::SRV(priority, weight, port, target)) => {
            assert_eq!((priority, weight, port), (10, 5, 8080));
            assert_eq!(&target, b"h".as_slice());
        },
        other => panic!("unexpected {:?}", other),
    }
    let data = [0x00u8, 0x14, 0x01, b'm', 0x00];
    let mut i = 0;
    match AType::parse(15, 5, &data, &mut i) {
        Ok(AType::MX(pref, exchange)) => {
            assert_eq!(pref, 20);
            assert_eq!(&exchange, b"m".as_slice());
        },
        other => panic!("unexpected {:?}", other),
    }
    let mut aaaa = [0u8; 16];
    aaaa[15] = 1;
    let mut i = 0;
    assert_eq!(AType::parse(28, 16, &aaaa, &mut i), Ok(AType::AAAA(aaaa)));
}

#[test]
fn question_after_answers_resets_answer_count() {
    let body = fresh_body()
        .append_question()
        .name().label(b"q").unwrap().finish().unwrap()
        .qtype(QType::A).unwrap().qclass(QClass::IN).unwrap()
        .finish().unwrap();
    let body = body.to_answer_section()
        .append_answer()
        .name().label(b"a").unwrap().finish().unwrap().unwrap()
        .atype().a().ip(&[1, 2, 3, 4]).unwrap().finish().unwrap()
        .cache_flush(false).unwrap().aclass(AClass::IN).unwrap().ttl(1).unwrap()
        .finish().unwrap();
    assert_eq!(body.header().answer_count(), 1);
    let message = body.into_message();
    let body = message.body_mut().unwrap()
        .append_question()
        .name().label(b"r").unwrap().finish().unwrap()
        .qtype(QType::TXT).unwrap().qclass(QClass::IN).unwrap()
        .finish().unwrap();
    assert_eq!(body.header().question_count(), 2);
    assert_eq!(body.header().answer_count(), 0);
    let buffer = body.into_message().into_buffer();
    let expected = built(2, 0, &[
        0x01, b'q', 0x00, 0x00, 0x01, 0x00, 0x01,
        0x01, b'r', 0x00, 0x00, 0x10, 0x00, 0x01,
    ]);
    assert_eq!(buffer.as_slice(), expected.as_slice());
}

#[test]
fn abandoned_record_is_dropped_on_next_append() {
    let body = fresh_body()
        .append_question()
        .name().label(b"keep").unwrap().finish().unwrap()
        .qtype(QType::A).unwrap().qclass(QClass::IN).unwrap()
        .finish().unwrap();
    let partial = body
        .append_question()
        .name().label(b"dropped").unwrap().finish().unwrap()
        .qtype(QType::A).unwrap();
    let body = partial.cancel();
    let body = body
        .append_question()
        .name().label(b"next").unwrap().finish().unwrap()
        .qtype(QType::NS).unwrap().qclass(QClass::CH).unwrap()
        .finish().unwrap();
    let buffer = body.into_message().into_buffer();
    let expected = built(2, 0, &[
        0x04, b'k', b'e', b'e', b'p', 0x00, 0x00, 0x01, 0x00, 0x01,
        0x04, b'n', b'e', b'x', b't', 0x00, 0x00, 0x02, 0x00, 0x03,
    ]);
    assert_eq!(buffer.as_slice(), expected.as_slice());
}

#[test]
fn abandoned_answer_is_dropped_on_next_append() {
    let body = fresh_body().to_answer_section();
    let partial = body
        .append_answer()
        .name().label(b"gone").unwrap().finish().unwrap().unwrap()
        .ttl(5).unwrap();
    let body = partial.cancel()
        .append_answer()
        .name().label(b"x").unwrap().finish().unwrap().unwrap()
        .atype().txt().txt(b"t").unwrap().finish().unwrap()
        .cache_flush(true).unwrap().aclass(AClass::CS).unwrap().ttl(7).unwrap()
        .finish().unwrap();
    let buffer = body.into_message().into_buffer();
    let expected = built(0, 1, &[
        0x01, b'x', 0x00, 0x00, 0x10, 0x80, 0x02, 0x00, 0x00, 0x00, 0x07, 0x00, 0x01, b't',
    ]);
    assert_eq!(buffer.as_slice(), expected.as_slice());
}

#[test]
fn header_fields_round_trip() {
    let h = Header::new(
        0xBEEF,
        HeaderKind::Response,
        HeaderOpcode::Notify,
        true,
        false,
        true,
        true,
        HeaderResponseCode::Refused,
    );
    assert_eq!(h.id(), 0xBEEF);
    assert_eq!(h.kind(), HeaderKind::Response);
    assert_eq!(h.opcode(), HeaderOpcode::Notify);
    assert!(h.authoritative_answer());
    assert!(!h.truncated());
    assert!(h.recursion_desired());
    assert!(h.recursion_available());
    assert_eq!(h.response_code(), HeaderResponseCode::Refused);
    let bytes = h.to_bytes();
    assert_eq!(bytes, [0xBE, 0xEF, 0xA5, 0x85, 0, 0, 0, 0, 0, 0, 0, 0]);
    assert_eq!(Header::from_bytes(&bytes), Ok(h));
    assert!(Header::from_bytes(&bytes[..11]).is_err());

    let mut h = h;
    h.set_opcode(HeaderOpcode::Reserved(9));
    assert_eq!(h.opcode(), HeaderOpcode::Reserved(9));
    h.set_opcode(HeaderOpcode::InverseQuery);
    assert_eq!(h.opcode(), HeaderOpcode::InverseQuery);
    h.set_truncated(true);
    h.set_kind(HeaderKind::Query);
    h.set_authoritative_answer(false);
    h.set_recursion_desired(false);
    h.set_recursion_available(false);
    h.set_response_code(HeaderResponseCode::Reserved(12));
    assert_eq!(h.response_code(), HeaderResponseCode::Reserved(12));
    assert_eq!(h.opcode(), HeaderOpcode::InverseQuery);
    assert!(h.truncated());
    assert_eq!(h.kind(), HeaderKind::Query);
    assert_eq!(h.to_bytes()[2..4], [0x0A, 0x0C]);
    h.set_id(1);
    assert_eq!(h.id(), 1);
}

#[test]
fn codes_convert_both_ways() {
    assert_eq!(u8::from(HeaderOpcode::Update), 5);
    assert_eq!(HeaderOpcode::from(3u8), HeaderOpcode::Reserved(3));
    assert_eq!(u8::from(HeaderResponseCode::BadAlg), 21);
    assert_eq!(HeaderResponseCode::from(16u8), HeaderResponseCode::BadOptVersionOrBadSignature);
    assert_eq!(HeaderResponseCode::from(11u8), HeaderResponseCode::Reserved(11));
    assert_eq!(QType::from(252u16), QType::AXFR);
    assert_eq!(QType::from(17u16), QType::Reserved);
    assert_eq!(QType::MX.code(), Ok(15));
    assert_eq!(QType::Reserved.code(), Err(()));
    assert_eq!(QClass::from(4u16), QClass::HS);
    assert_eq!(QClass::Reserved.code(), Err(()));
    assert_eq!(AClass::from(3u16), AClass::CH);
    assert_eq!(AClass::from(255u16), AClass::Unknown);
    assert_eq!(AClass::Unknown.code(), Err(()));
    assert_eq!(AType::SRV(0, 0, 0, Name::parse(&[0], &mut 0).unwrap()).type_id(), Ok(33));
    assert_eq!(AType::A(0).type_id(), Ok(1));
    assert_eq!(AType::Unknown.type_id(), Err(()));
}

#[test]
fn name_comparisons() {
    let data = [0x01u8, b'a', 0x02, b'b', b'c', 0x00, 0x01, b'a', 0xC0, 0x02, 0x01, b'a', 0x00];
    let mut i = 0;
    let full = Name::parse(&data, &mut i).unwrap();
    assert_eq!(i, 6);
    let mut j = 6;
    let via_pointer = Name::parse(&data, &mut j).unwrap();
    assert_eq!(j, 10);
    let mut k = 10;
    let short = Name::parse(&data, &mut k).unwrap();
    assert!(full.eq_name(&via_pointer));
    assert!(full == via_pointer);
    assert!(!full.eq_name(&short));
    assert!(full.eq_bytes(b"a.bc"));
    assert!(!full.eq_bytes(b"a.b"));
    assert!(!full.eq_bytes(b"a.bcd"));
    assert!(!full.eq_bytes(b"abc"));
    assert!(!full.eq_bytes(b""));
    assert_eq!(full.to_dotted(), Ok(b"a.bc".to_vec()));
    let root = Name::parse(&[0u8], &mut 0).unwrap();
    assert!(root.eq_bytes(b""));
    assert_eq!(root.to_string(), Ok(String::new()));
}

#[test]
fn non_text_label_does_not_render() {
    let data = [0x02u8, 0xFF, 0xFE, 0x00];
    let name = Name::parse(&data, &mut 0).unwrap();
    assert!(name.to_string().is_err());
    assert_eq!(name.to_dotted(), Ok(vec![0xFF, 0xFE]));
}

#[test]
fn parsed_name_is_copied_as_literal_labels() {
    let data = [0x01u8, b'a', 0x02, b'b', b'c', 0x00, 0x01, b'x', 0xC0, 0x02];
    let mut i = 6;
    let source = Name::parse(&data, &mut i).unwrap();
    let body = fresh_body()
        .append_question()
        .name().label(&source).unwrap().finish().unwrap()
        .qtype(QType::A).unwrap().qclass(QClass::IN).unwrap()
        .finish().unwrap();
    let buffer = body.into_message().into_buffer();
    let expected = built(1, 0, &[0x01, b'x', 0x02, b'b', b'c', 0x00, 0x00, 0x01, 0x00, 0x01]);
    assert_eq!(buffer.as_slice(), expected.as_slice());
}

#[test]
fn ptr_and_srv_answers_round_trip() {
    let body = fresh_body().to_answer_section()
        .append_answer()
        .name().label(b"svc").unwrap().finish().unwrap().unwrap()
        .atype().ptr().name().label(b"host").unwrap().finish().unwrap().finish().unwrap()
        .cache_flush(false).unwrap().aclass(AClass::IN).unwrap().ttl(10).unwrap()
        .finish().unwrap();
    let body = body
        .append_answer()
        .name().label(b"svc").unwrap().finish().unwrap().unwrap()
        .atype().srv().unwrap()
        .priority(1).unwrap().weight(2).unwrap().port(8009).unwrap()
        .name().label(b"host").unwrap().finish().unwrap()
        .finish().unwrap()
        .cache_flush(true).unwrap().aclass(AClass::IN).unwrap().ttl(20).unwrap()
        .finish().unwrap();
    let buffer = body.into_message().into_buffer();
    let message = Message::new(buffer.as_slice()).unwrap();
    let mut body = message.body().unwrap().to_answer_section();
    let mut answers = body.answers();
    let ptr = answers.next().unwrap();
    match ptr.atype() {
        AType::PTR(n) => assert_eq!(n, b"host".as_slice()),
        other => panic!("unexpected {:?}", other),
    }
    let srv = answers.next().unwrap();
    assert!(srv.cache_flush());
    assert_eq!(srv.ttl(), 20);
    match srv.atype() {
        AType::SRV(p, w, port, n) => {
            assert_eq!((*p, *w, *port), (1, 2, 8009));
            assert_eq!(n, b"host".as_slice());
        },
        other => panic!("unexpected {:?}", other),
    }
    assert!(answers.next().is_none());
}

#[test]
fn builder_errors() {
    assert!(Message::new(&[0u8; 11]).is_err());
    let mut used = Buf::new_const();
    used.push(1);
    assert!(Message::new_mut(used).is_err());

    let long = [b'a'; 64];
    assert!(fresh_body().append_question().name().label(&long).is_err());
    assert!(fresh_body().append_question().name().label(b"").is_err());
    assert!(fresh_body().append_question().name().finish().is_err());
    let named = fresh_body().append_question().name().label(b"a").unwrap().finish().unwrap();
    assert!(named.qtype(QType::Reserved).is_err());
    let named = fresh_body().append_question().name().label(b"a").unwrap().finish().unwrap();
    assert!(named.qclass(QClass::Reserved).is_err());
    let named = fresh_body().append_question().name().label(b"a").unwrap().finish().unwrap();
    assert!(named.qtype(QType::A).unwrap().finish().is_err());
    assert!(fresh_body().append_question().qtype(QType::A).is_err());

    let names = fresh_body().append_question().name();
    let here = names.ptr();
    assert!(names.label(&here).is_err());

    let answer = fresh_body().to_answer_section().append_answer();
    assert!(answer.cache_flush(true).is_err());
    let answer = fresh_body().to_answer_section().append_answer()
        .name().label(b"a").unwrap().finish().unwrap().unwrap();
    assert!(answer.aclass(AClass::Unknown).is_err());
    let answer = fresh_body().to_answer_section().append_answer()
        .name().label(b"a").unwrap().finish().unwrap().unwrap();
    assert!(answer.atype().txt().txt(b"").is_err());
    let answer = fresh_body().to_answer_section().append_answer()
        .name().label(b"a").unwrap().finish().unwrap().unwrap();
    assert!(answer.atype().a().finish().is_err());
    let answer = fresh_body().to_answer_section().append_answer()
        .name().label(b"a").unwrap().finish().unwrap().unwrap();
    assert!(answer.ttl(1).unwrap().finish().is_err());

    let mut names = fresh_body().append_question().name();
    let label = [b'x'; 60];
    for _ in 0..4 {
        names = names.label(&label).unwrap();
    }
    assert!(names.label(&label).is_err());

    let full = [b'y'; 63];
    let mut body = fresh_body();
    let mut failed = false;
    for _ in 0..4 {
        match body.append_question().name().label(&full) {
            Ok(n) => {
                let q = n.finish().unwrap();
                body = q.qtype(QType::A).unwrap().qclass(QClass::IN).unwrap().finish().unwrap();
            },
            Err(()) => {
                failed = true;
                break;
            },
        }
    }
    assert!(failed);
}

#[test]
fn buffer_capability() {
    let mut b = Buf::new_const();
    assert_eq!(ExtendableBuffer::extend_from_slice(&mut b, &[1, 2, 3]), Ok(()));
    assert_eq!(mdns_codec::Buffer::bytes_at(&b, 1, 2), Ok([2u8, 3].as_slice()));
    assert!(mdns_codec::Buffer::bytes_at(&b, 2, 2).is_err());
    assert_eq!(mdns_codec::MutBuffer::write_at(&mut b, 1, &[9]), Ok(()));
    assert!(mdns_codec::MutBuffer::write_at(&mut b, 3, &[9]).is_err());
    assert_eq!(mdns_codec::Buffer::bytes(&b), &[1, 9, 3]);
    ExtendableBuffer::truncate(&mut b, 5);
    assert_eq!(mdns_codec::Buffer::len(&b), 3);
    ExtendableBuffer::truncate(&mut b, 1);
    assert_eq!(mdns_codec::Buffer::bytes(&b), &[1]);
    assert!(ExtendableBuffer::extend_from_slice(&mut b, &[0u8; 256]).is_err());
    assert_eq!(mdns_codec::Buffer::bytes(&b), &[1]);

    let raw: &[u8] = &[4, 5, 6];
    assert_eq!(mdns_codec::Buffer::len(raw), 3);
    assert_eq!(mdns_codec::Buffer::bytes_at(raw, 1, 2), Ok([5u8, 6].as_slice()));
    assert!(mdns_codec::Buffer::bytes_at(raw, 2, 2).is_err());
}

#[test]
fn every_data_type_encodes_and_parses_back() {
    let names = [0x04u8, b'h', b'o', b's', b't', 0x00, 0x02, b'n', b's', 0xC0, 0x00];
    let host = Name::parse(&names, &mut 0).unwrap();
    let mut i = 6;
    let ns = Name::parse(&names, &mut i).unwrap();
    let values = [
        AType::A(0x7F00_0001),
        AType::NS(ns),
        AType::CNAME(host),
        AType::PTR(ns),
        AType::SOA(host, ns, 1, 2, 3, 4, 5),
        AType::MX(10, host),
        AType::TXT(b"k=v"),
        AType::AAAA([0xFE, 0x80, 0, 0, 0, 0, 0, 0, 0, 0, 0, 0, 0, 0, 0, 1]),
        AType::SRV(1, 2, 3, ns),
        AType::OPT(1232, 0, 0, &[0, 8, 0, 0]),
    ];
    let mut body = fresh_body().to_answer_section();
    for v in values.iter() {
        body = body
            .append_answer()
            .name().label(b"r").unwrap().finish().unwrap().unwrap()
            .atype().data(v).unwrap()
            .cache_flush(false).unwrap().aclass(AClass::IN).unwrap().ttl(9).unwrap()
            .finish().unwrap();
    }
    assert_eq!(body.header().answer_count(), values.len() as u16);
    let buffer = body.into_message().into_buffer();
    let message = Message::new(buffer.as_slice()).unwrap();
    let mut body = message.body().unwrap().to_answer_section();
    let mut answers = body.answers();
    for v in values.iter() {
        let a = answers.next().unwrap();
        assert_eq!(a.atype(), v);
    }
    assert!(answers.next().is_none());
    assert_eq!(ns.to_wire(), Ok(vec![0x02, b'n', b's', 0x04, b'h', b'o', b's', b't', 0x00]));
    assert_eq!(AType::MX(10, host).to_wire(), Ok(vec![0, 10, 4, b'h', b'o', b's', b't', 0]));
}

#[test]
fn unknown_and_empty_data_are_not_encodable() {
    assert!(AType::Unknown.to_wire().is_err());
    assert!(AType::TXT(b"").to_wire().is_err());
    let answer = fresh_body().to_answer_section().append_answer()
        .name().label(b"a").unwrap().finish().unwrap().unwrap();
    assert!(answer.atype().data(&AType::Unknown).is_err());
    assert!(fresh_body().to_answer_section().append_answer().atype().data(&AType::A(1)).is_err());
}

fn labels_then_pointer(label_bytes: usize) -> Vec<u8> {
    let mut v = vec![0u8; 12];
    let mut left = label_bytes;
    while left > 0 {
        let len = if left > 64 { 63 } else { left - 1 };
        v.push(len as u8);
        v.extend(std::iter::repeat(b'a').take(len));
        left -= len + 1;
    }
    v.extend_from_slice(&[0xC0, 0x00]);
    v
}

#[test]
fn name_occupies_at_most_255_bytes() {
    let ok = labels_then_pointer(253);
    let mut i = 12;
    assert!(Name::parse(&ok, &mut i).is_ok());
    assert_eq!(i, 12 + 255);
    let too_long = labels_then_pointer(254);
    let mut i = 12;
    assert!(Name::parse(&too_long, &mut i).is_err());
    assert_eq!(i, 12);
}

#[test]
fn empty_buffer_is_accepted_and_header_reserved_on_demand() {
    let mut message = Message::new_mut(Buf::new_const()).unwrap();
    let header = message.header_mut().unwrap();
    header.set_id(0x0102);
    let buffer = message.into_buffer();
    assert_eq!(buffer.as_slice(), &[1, 2, 0, 0, 0, 0, 0, 0, 0, 0, 0, 0]);
    let untouched = Message::new_mut(Buf::new_const()).unwrap().into_buffer();
    assert!(untouched.is_empty());
}
