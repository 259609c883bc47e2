//! The fixed twelve-byte message header: an id, the flags, and four record counts.
use vstd::prelude::*;
use crate::wire::{be16, u16_bytes, read_u16, u16_to_be};

verus! {

/// The size of a header on the wire.
pub const HEADER_LEN: usize = 12;

/// Flag bit: the message is a response.
pub const KIND_MASK: u16 = 0x8000;
/// Flag bits: the operation code.
pub const OPCODE_MASK: u16 = 0x7800;
/// Flag bit: authoritative answer.
pub const AA_MASK: u16 = 0x0400;
/// Flag bit: truncated message.
pub const TC_MASK: u16 = 0x0200;
/// Flag bit: recursion desired.
pub const RD_MASK: u16 = 0x0100;
/// Flag bit: recursion available.
pub const RA_MASK: u16 = 0x0080;
/// Flag bits: the response code.
pub const RCODE_MASK: u16 = 0x000F;

/// Whether the message is a query or a response.
#[derive(PartialEq, Eq, Structural, Clone, Copy, Debug)]
pub enum HeaderKind {
    Query,
    Response,
}

/// The operation code of a message.
#[derive(PartialEq, Eq, Structural, Clone, Copy, Debug)]
pub enum HeaderOpcode {
    Query,
    InverseQuery,
    Status,
    Notify,
    Update,
    /// Any other code, kept as it is.
    Reserved(u8),
}

/// The operation code that a number stands for.
pub open spec fn opcode_of(n: u8) -> HeaderOpcode {
    if n == 0 { HeaderOpcode::Query }
    else if n == 1 { HeaderOpcode::InverseQuery }
    else if n == 2 { HeaderOpcode::Status }
    else if n == 4 { HeaderOpcode::Notify }
    else if n == 5 { HeaderOpcode::Update }
    else { HeaderOpcode::Reserved(n) }
}

/// The number of an operation code.
pub open spec fn opcode_number(op: HeaderOpcode) -> u8 {
    match op {
        HeaderOpcode::Query => 0,
        HeaderOpcode::InverseQuery => 1,
        HeaderOpcode::Status => 2,
        HeaderOpcode::Notify => 4,
        HeaderOpcode::Update => 5,
        HeaderOpcode::Reserved(n) => n,
    }
}

impl From<u8> for HeaderOpcode {
    fn from(value: u8) -> (r: HeaderOpcode) {
        match value {
            0 => HeaderOpcode::Query,
            1 => HeaderOpcode::InverseQuery,
            2 => HeaderOpcode::Status,
            4 => HeaderOpcode::Notify,
            5 => HeaderOpcode::Update,
            _ => HeaderOpcode::Reserved(value),
        }
    }
}

impl vstd::std_specs::convert::FromSpecImpl<u8> for HeaderOpcode {
    open spec fn obeys_from_spec() -> bool {
        true
    }

    open spec fn from_spec(value: u8) -> HeaderOpcode {
        opcode_of(value)
    }
}

impl From<HeaderOpcode> for u8 {
    fn from(value: HeaderOpcode) -> (r: u8) {
        match value {
            HeaderOpcode::Query => 0,
            HeaderOpcode::InverseQuery => 1,
            HeaderOpcode::Status => 2,
            HeaderOpcode::Notify => 4,
            HeaderOpcode::Update => 5,
            HeaderOpcode::Reserved(value) => value,
        }
    }
}

impl vstd::std_specs::convert::FromSpecImpl<HeaderOpcode> for u8 {
    open spec fn obeys_from_spec() -> bool {
        true
    }

    open spec fn from_spec(value: HeaderOpcode) -> u8 {
        opcode_number(value)
    }
}

/// The response code of a message.
#[derive(PartialEq, Eq, Structural, Clone, Copy, Debug)]
pub enum HeaderResponseCode {
    NoError,
    FormatError,
    ServerFailure,
    NonExistentDomain,
    NotImplemented,
    Refused,
    ExistentDomain,
    ExistentRrSet,
    NonExistentRrSet,
    NotAuthoritative,
    NotZone,
    BadOptVersionOrBadSignature,
    BadKey,
    BadTime,
    BadMode,
    BadName,
    BadAlg,
    /// Any other code, kept as it is.
    Reserved(u8),
}

/// The response code that a number stands for.
pub open spec fn rcode_of(n: u8) -> HeaderResponseCode {
    if n == 0 { HeaderResponseCode::NoError }
    else if n == 1 { HeaderResponseCode::FormatError }
    else if n == 2 { HeaderResponseCode::ServerFailure }
    else if n == 3 { HeaderResponseCode::NonExistentDomain }
    else if n == 4 { HeaderResponseCode::NotImplemented }
    else if n == 5 { HeaderResponseCode::Refused }
    else if n == 6 { HeaderResponseCode::ExistentDomain }
    else if n == 7 { HeaderResponseCode::ExistentRrSet }
    else if n == 8 { HeaderResponseCode::NonExistentRrSet }
    else if n == 9 { HeaderResponseCode::NotAuthoritative }
    else if n == 10 { HeaderResponseCode::NotZone }
    else if n == 16 { HeaderResponseCode::BadOptVersionOrBadSignature }
    else if n == 17 { HeaderResponseCode::BadKey }
    else if n == 18 { HeaderResponseCode::BadTime }
    else if n == 19 { HeaderResponseCode::BadMode }
    else if n == 20 { HeaderResponseCode::BadName }
    else if n == 21 { HeaderResponseCode::BadAlg }
    else { HeaderResponseCode::Reserved(n) }
}

/// The number of a response code.
pub open spec fn rcode_number(r: HeaderResponseCode) -> u8 {
    match r {
        HeaderResponseCode::NoError => 0,
        HeaderResponseCode::FormatError => 1,
        HeaderResponseCode::ServerFailure => 2,
        HeaderResponseCode::NonExistentDomain => 3,
        HeaderResponseCode::NotImplemented => 4,
        HeaderResponseCode::Refused => 5,
        HeaderResponseCode::ExistentDomain => 6,
        HeaderResponseCode::ExistentRrSet => 7,
        HeaderResponseCode::NonExistentRrSet => 8,
        HeaderResponseCode::NotAuthoritative => 9,
        HeaderResponseCode::NotZone => 10,
        HeaderResponseCode::BadOptVersionOrBadSignature => 16,
        HeaderResponseCode::BadKey => 17,
        HeaderResponseCode::BadTime => 18,
        HeaderResponseCode::BadMode => 19,
        HeaderResponseCode::BadName => 20,
        HeaderResponseCode::BadAlg => 21,
        HeaderResponseCode::Reserved(n) => n,
    }
}

impl From<HeaderResponseCode> for u8 {
    fn from(r: HeaderResponseCode) -> (n: u8) {
        match r {
            HeaderResponseCode::NoError => 0,
            HeaderResponseCode::FormatError => 1,
            HeaderResponseCode::ServerFailure => 2,
            HeaderResponseCode::NonExistentDomain => 3,
            HeaderResponseCode::NotImplemented => 4,
            HeaderResponseCode::Refused => 5,
            HeaderResponseCode::ExistentDomain => 6,
            HeaderResponseCode::ExistentRrSet => 7,
            HeaderResponseCode::NonExistentRrSet => 8,
            HeaderResponseCode::NotAuthoritative => 9,
            HeaderResponseCode::NotZone => 10,
            HeaderResponseCode::BadOptVersionOrBadSignature => 16,
            HeaderResponseCode::BadKey => 17,
            HeaderResponseCode::BadTime => 18,
            HeaderResponseCode::BadMode => 19,
            HeaderResponseCode::BadName => 20,
            HeaderResponseCode::BadAlg => 21,
            HeaderResponseCode::Reserved(n) => n,
        }
    }
}

impl vstd::std_specs::convert::FromSpecImpl<HeaderResponseCode> for u8 {
    open spec fn obeys_from_spec() -> bool {
        true
    }

    open spec fn from_spec(r: HeaderResponseCode) -> u8 {
        rcode_number(r)
    }
}

impl From<u8> for HeaderResponseCode {
    fn from(n: u8) -> (r: HeaderResponseCode) {
        match n {
            0 => HeaderResponseCode::NoError,
            1 => HeaderResponseCode::FormatError,
            2 => HeaderResponseCode::ServerFailure,
            3 => HeaderResponseCode::NonExistentDomain,
            4 => HeaderResponseCode::NotImplemented,
            5 => HeaderResponseCode::Refused,
            6 => HeaderResponseCode::ExistentDomain,
            7 => HeaderResponseCode::ExistentRrSet,
            8 => HeaderResponseCode::NonExistentRrSet,
            9 => HeaderResponseCode::NotAuthoritative,
            10 => HeaderResponseCode::NotZone,
            16 => HeaderResponseCode::BadOptVersionOrBadSignature,
            17 => HeaderResponseCode::BadKey,
            18 => HeaderResponseCode::BadTime,
            19 => HeaderResponseCode::BadMode,
            20 => HeaderResponseCode::BadName,
            21 => HeaderResponseCode::BadAlg,
            n => HeaderResponseCode::Reserved(n),
        }
    }
}

impl vstd::std_specs::convert::FromSpecImpl<u8> for HeaderResponseCode {
    open spec fn obeys_from_spec() -> bool {
        true
    }

    open spec fn from_spec(n: u8) -> HeaderResponseCode {
        rcode_of(n)
    }
}

/// Bits of `f` outside `m` are the same in `a` and `b`, so every field that
/// reads only bits outside `m` reads the same in both.
pub proof fn lemma_flags_kept(a: u16, b: u16, m: u16, m2: u16)
    requires
        a & !m == b & !m,
        m & m2 == 0,
    ensures
        a & m2 == b & m2,
{
    assert(a & !m == b & !m && m & m2 == 0 ==> a & m2 == b & m2) by (bit_vector);
}

/// A message header.
#[derive(Clone, Copy, Debug, PartialEq, Eq, Structural)]
pub struct Header {
    id: u16,
    flags: u16,
    question_count: u16,
    answer_count: u16,
    name_server_count: u16,
    additional_records_count: u16,
}

impl Header {
    pub closed spec fn spec_id(&self) -> u16 {
        self.id
    }

    /// The sixteen flag bits.
    pub closed spec fn spec_flags(&self) -> u16 {
        self.flags
    }

    pub closed spec fn spec_question_count(&self) -> u16 {
        self.question_count
    }

    pub closed spec fn spec_answer_count(&self) -> u16 {
        self.answer_count
    }

    pub closed spec fn spec_name_server_count(&self) -> u16 {
        self.name_server_count
    }

    pub closed spec fn spec_additional_records_count(&self) -> u16 {
        self.additional_records_count
    }

    pub open spec fn spec_kind(&self) -> HeaderKind {
        if self.spec_flags() & KIND_MASK == 0 {
            HeaderKind::Query
        } else {
            HeaderKind::Response
        }
    }

    pub open spec fn spec_opcode(&self) -> HeaderOpcode {
        opcode_of(((self.spec_flags() & OPCODE_MASK) >> 11u16) as u8)
    }

    pub open spec fn spec_authoritative_answer(&self) -> bool {
        self.spec_flags() & AA_MASK != 0
    }

    pub open spec fn spec_truncated(&self) -> bool {
        self.spec_flags() & TC_MASK != 0
    }

    pub open spec fn spec_recursion_desired(&self) -> bool {
        self.spec_flags() & RD_MASK != 0
    }

    pub open spec fn spec_recursion_available(&self) -> bool {
        self.spec_flags() & RA_MASK != 0
    }

    pub open spec fn spec_response_code(&self) -> HeaderResponseCode {
        rcode_of((self.spec_flags() & RCODE_MASK) as u8)
    }

    /// The twelve bytes of the header on the wire.
    pub open spec fn spec_bytes(&self) -> Seq<u8> {
        u16_bytes(self.spec_id()) + u16_bytes(self.spec_flags()) + u16_bytes(self.spec_question_count())
            + u16_bytes(self.spec_answer_count()) + u16_bytes(self.spec_name_server_count())
            + u16_bytes(self.spec_additional_records_count())
    }

    /// Whether `self` and `other` agree on the id and the four counts.
    pub open spec fn same_id_and_counts(&self, other: &Header) -> bool {
        &&& self.spec_id() == other.spec_id()
        &&& self.spec_question_count() == other.spec_question_count()
        &&& self.spec_answer_count() == other.spec_answer_count()
        &&& self.spec_name_server_count() == other.spec_name_server_count()
        &&& self.spec_additional_records_count() == other.spec_additional_records_count()
    }

    /// A header with the given fields and all counts zero. Only the low four
    /// bits of the opcode and response code numbers fit in the flags.
    pub fn new(
        id: u16,
        kind: HeaderKind,
        opcode: HeaderOpcode,
        authoritative_answer: bool,
        truncated_message: bool,
        recursion_desired: bool,
        recursion_available: bool,
        response_code: HeaderResponseCode,
    ) -> (r: Self)
        ensures
            r.spec_id() == id,
            r.spec_kind() == kind,
            r.spec_opcode() == opcode_of(opcode_number(opcode) % 16),
            r.spec_authoritative_answer() == authoritative_answer,
            r.spec_truncated() == truncated_message,
            r.spec_recursion_desired() == recursion_desired,
            r.spec_recursion_available() == recursion_available,
            r.spec_response_code() == rcode_of(rcode_number(response_code) % 16),
            r.spec_question_count() == 0,
            r.spec_answer_count() == 0,
            r.spec_name_server_count() == 0,
            r.spec_additional_records_count() == 0,
    {
        let k: u16 = if kind == HeaderKind::Response { KIND_MASK } else { 0 };
        let o: u16 = (u8::from(opcode) % 16) as u16;
        let a: u16 = if authoritative_answer { AA_MASK } else { 0 };
        let t: u16 = if truncated_message { TC_MASK } else { 0 };
        let d: u16 = if recursion_desired { RD_MASK } else { 0 };
        let v: u16 = if recursion_available { RA_MASK } else { 0 };
        let c: u16 = (u8::from(response_code) % 16) as u16;
        let flags: u16 = k | (o << 11u16) | a | t | d | v | c;
        proof {
            assert((k == 0 || k == 0x8000) && o < 16 && (a == 0 || a == 0x0400) && (t == 0 || t
                == 0x0200) && (d == 0 || d == 0x0100) && (v == 0 || v == 0x0080) && c < 16 ==> {
                let f = k | (o << 11u16) | a | t | d | v | c;
                &&& f & 0x8000 == k
                &&& (f & 0x7800) >> 11u16 == o
                &&& f & 0x0400 == a
                &&& f & 0x0200 == t
                &&& f & 0x0100 == d
                &&& f & 0x0080 == v
                &&& f & 0x000F == c
            }) by (bit_vector);
        }
        Header {
            id,
            flags,
            question_count: 0,
            answer_count: 0,
            name_server_count: 0,
            additional_records_count: 0,
        }
    }

    /// The header with every field zero.
    pub(crate) fn blank() -> (r: Self)
        ensures
            r.spec_bytes() == Seq::new(HEADER_LEN as nat, |i: int| 0u8),
            r.spec_id() == 0,
            r.spec_flags() == 0,
            r.spec_question_count() == 0,
            r.spec_answer_count() == 0,
            r.spec_name_server_count() == 0,
            r.spec_additional_records_count() == 0,
    {
        let r = Header {
            id: 0,
            flags: 0,
            question_count: 0,
            answer_count: 0,
            name_server_count: 0,
            additional_records_count: 0,
        };
        assert(r.spec_bytes() =~= Seq::new(HEADER_LEN as nat, |i: int| 0u8));
        r
    }

    /// Reads a header from the first twelve bytes; `Err` when there are fewer.
    pub fn from_bytes(bytes: &[u8]) -> (r: Result<Self, ()>)
        ensures
            r is Ok <==> bytes@.len() >= HEADER_LEN,
            r matches Ok(h) ==> h.spec_bytes() == bytes@.subrange(0, HEADER_LEN as int),
            r matches Ok(h) ==> {
                &&& h.spec_id() == be16(bytes@, 0)
                &&& h.spec_flags() == be16(bytes@, 2)
                &&& h.spec_question_count() == be16(bytes@, 4)
                &&& h.spec_answer_count() == be16(bytes@, 6)
                &&& h.spec_name_server_count() == be16(bytes@, 8)
                &&& h.spec_additional_records_count() == be16(bytes@, 10)
            },
    {
        if bytes.len() < HEADER_LEN {
            return Err(());
        }
        let h = Header {
            id: read_u16(bytes, 0),
            flags: read_u16(bytes, 2),
            question_count: read_u16(bytes, 4),
            answer_count: read_u16(bytes, 6),
            name_server_count: read_u16(bytes, 8),
            additional_records_count: read_u16(bytes, 10),
        };
        assert(h.spec_bytes() =~= bytes@.subrange(0, 12));
        Ok(h)
    }

    /// The twelve bytes of the header on the wire.
    pub fn to_bytes(&self) -> (r: [u8; 12])
        ensures
            r@ == self.spec_bytes(),
    {
        let a = u16_to_be(self.id);
        let b = u16_to_be(self.flags);
        let c = u16_to_be(self.question_count);
        let d = u16_to_be(self.answer_count);
        let e = u16_to_be(self.name_server_count);
        let f = u16_to_be(self.additional_records_count);
        let r = [a[0], a[1], b[0], b[1], c[0], c[1], d[0], d[1], e[0], e[1], f[0], f[1]];
        assert(r@ =~= self.spec_bytes());
        r
    }

    pub fn id(&self) -> (r: u16)
        ensures
            r == self.spec_id(),
    {
        self.id
    }

    pub fn kind(&self) -> (r: HeaderKind)
        ensures
            r == self.spec_kind(),
    {
        if self.flags & KIND_MASK == 0 {
            HeaderKind::Query
        } else {
            HeaderKind::Response
        }
    }

    pub fn opcode(&self) -> (r: HeaderOpcode)
        ensures
            r == self.spec_opcode(),
    {
        let f = self.flags;
        assert((f & 0x7800) >> 11u16 < 16) by (bit_vector);
        HeaderOpcode::from(((f & OPCODE_MASK) >> 11u16) as u8)
    }

    pub fn authoritative_answer(&self) -> (r: bool)
        ensures
            r == self.spec_authoritative_answer(),
    {
        self.flags & AA_MASK != 0
    }

    pub fn truncated(&self) -> (r: bool)
        ensures
            r == self.spec_truncated(),
    {
        self.flags & TC_MASK != 0
    }

    pub fn recursion_desired(&self) -> (r: bool)
        ensures
            r == self.spec_recursion_desired(),
    {
        self.flags & RD_MASK != 0
    }

    pub fn recursion_available(&self) -> (r: bool)
        ensures
            r == self.spec_recursion_available(),
    {
        self.flags & RA_MASK != 0
    }

    pub fn response_code(&self) -> (r: HeaderResponseCode)
        ensures
            r == self.spec_response_code(),
    {
        let f = self.flags;
        assert(f & 0x000F < 16) by (bit_vector);
        HeaderResponseCode::from((f & RCODE_MASK) as u8)
    }

    pub fn question_count(&self) -> (r: u16)
        ensures
            r == self.spec_question_count(),
    {
        self.question_count
    }

    pub fn answer_count(&self) -> (r: u16)
        ensures
            r == self.spec_answer_count(),
    {
        self.answer_count
    }

    pub fn name_server_count(&self) -> (r: u16)
        ensures
            r == self.spec_name_server_count(),
    {
        self.name_server_count
    }

    pub fn additional_records_count(&self) -> (r: u16)
        ensures
            r == self.spec_additional_records_count(),
    {
        self.additional_records_count
    }

    pub fn set_id(&mut self, id: u16)
        ensures
            final(self).spec_id() == id,
            final(self).spec_flags() == old(self).spec_flags(),
            final(self).spec_question_count() == old(self).spec_question_count(),
            final(self).spec_answer_count() == old(self).spec_answer_count(),
            final(self).spec_name_server_count() == old(self).spec_name_server_count(),
            final(self).spec_additional_records_count() == old(self).spec_additional_records_count(),
    {
        self.id = id;
    }

    /// Sets the bits under `mask` to `bits`, keeping every other bit.
    fn set_flag_bits(&mut self, mask: u16, bits: u16)
        requires
            bits & !mask == 0,
        ensures
            final(self).spec_flags() & mask == bits,
            final(self).spec_flags() & !mask == old(self).spec_flags() & !mask,
            final(self).same_id_and_counts(old(self)),
    {
        let f = self.flags;
        let g = (f & !mask) | bits;
        assert(bits & !mask == 0 ==> ((f & !mask) | bits) & mask == bits && ((f & !mask) | bits)
            & !mask == f & !mask) by (bit_vector);
        self.flags = g;
    }

    pub fn set_kind(&mut self, kind: HeaderKind)
        ensures
            final(self).spec_kind() == kind,
            final(self).spec_flags() & !KIND_MASK == old(self).spec_flags() & !KIND_MASK,
            final(self).same_id_and_counts(old(self)),
    {
        let bits: u16 = if kind == HeaderKind::Response { KIND_MASK } else { 0 };
        assert(bits == 0 || bits == 0x8000);
        assert((bits == 0 || bits == 0x8000) ==> bits & !0x8000u16 == 0) by (bit_vector);
        self.set_flag_bits(KIND_MASK, bits);
    }

    /// Sets the opcode; only the low four bits of its number are kept.
    pub fn set_opcode(&mut self, opcode: HeaderOpcode)
        ensures
            final(self).spec_opcode() == opcode_of(opcode_number(opcode) % 16),
            final(self).spec_flags() & !OPCODE_MASK == old(self).spec_flags() & !OPCODE_MASK,
            final(self).same_id_and_counts(old(self)),
    {
        let o: u16 = (u8::from(opcode) % 16) as u16;
        let bits: u16 = o << 11u16;
        assert(o < 16 ==> (o << 11u16) & !0x7800u16 == 0 && (o << 11u16) >> 11u16 == o)
            by (bit_vector);
        self.set_flag_bits(OPCODE_MASK, bits);
    }

    pub fn set_authoritative_answer(&mut self, authoritative_answer: bool)
        ensures
            final(self).spec_authoritative_answer() == authoritative_answer,
            final(self).spec_flags() & !AA_MASK == old(self).spec_flags() & !AA_MASK,
            final(self).same_id_and_counts(old(self)),
    {
        let bits: u16 = if authoritative_answer { AA_MASK } else { 0 };
        assert((bits == 0 || bits == 0x0400) ==> bits & !0x0400u16 == 0) by (bit_vector);
        self.set_flag_bits(AA_MASK, bits);
    }

    pub fn set_truncated(&mut self, truncated: bool)
        ensures
            final(self).spec_truncated() == truncated,
            final(self).spec_flags() & !TC_MASK == old(self).spec_flags() & !TC_MASK,
            final(self).same_id_and_counts(old(self)),
    {
        let bits: u16 = if truncated { TC_MASK } else { 0 };
        assert((bits == 0 || bits == 0x0200) ==> bits & !0x0200u16 == 0) by (bit_vector);
        self.set_flag_bits(TC_MASK, bits);
    }

    pub fn set_recursion_desired(&mut self, recursion_desired: bool)
        ensures
            final(self).spec_recursion_desired() == recursion_desired,
            final(self).spec_flags() & !RD_MASK == old(self).spec_flags() & !RD_MASK,
            final(self).same_id_and_counts(old(self)),
    {
        let bits: u16 = if recursion_desired { RD_MASK } else { 0 };
        assert((bits == 0 || bits == 0x0100) ==> bits & !0x0100u16 == 0) by (bit_vector);
        self.set_flag_bits(RD_MASK, bits);
    }

    pub fn set_recursion_available(&mut self, recursion_available: bool)
        ensures
            final(self).spec_recursion_available() == recursion_available,
            final(self).spec_flags() & !RA_MASK == old(self).spec_flags() & !RA_MASK,
            final(self).same_id_and_counts(old(self)),
    {
        let bits: u16 = if recursion_available { RA_MASK } else { 0 };
        assert((bits == 0 || bits == 0x0080) ==> bits & !0x0080u16 == 0) by (bit_vector);
        self.set_flag_bits(RA_MASK, bits);
    }

    /// Sets the response code; only the low four bits of its number are kept.
    pub fn set_response_code(&mut self, response_code: HeaderResponseCode)
        ensures
            final(self).spec_response_code() == rcode_of(rcode_number(response_code) % 16),
            final(self).spec_flags() & !RCODE_MASK == old(self).spec_flags() & !RCODE_MASK,
            final(self).same_id_and_counts(old(self)),
    {
        let bits: u16 = (u8::from(response_code) % 16) as u16;
        assert(bits < 16 ==> bits & !0x000Fu16 == 0 && bits & 0x000F == bits) by (bit_vector);
        self.set_flag_bits(RCODE_MASK, bits);
    }

    pub(crate) fn set_question_count(&mut self, question_count: u16)
        ensures
            final(self).spec_question_count() == question_count,
            final(self).spec_id() == old(self).spec_id(),
            final(self).spec_flags() == old(self).spec_flags(),
            final(self).spec_answer_count() == old(self).spec_answer_count(),
            final(self).spec_name_server_count() == old(self).spec_name_server_count(),
            final(self).spec_additional_records_count() == old(self).spec_additional_records_count(),
    {
        self.question_count = question_count;
    }

    pub(crate) fn set_answer_count(&mut self, answer_count: u16)
        ensures
            final(self).spec_answer_count() == answer_count,
            final(self).spec_id() == old(self).spec_id(),
            final(self).spec_flags() == old(self).spec_flags(),
            final(self).spec_question_count() == old(self).spec_question_count(),
            final(self).spec_name_server_count() == old(self).spec_name_server_count(),
            final(self).spec_additional_records_count() == old(self).spec_additional_records_count(),
    {
        self.answer_count = answer_count;
    }

    pub(crate) fn set_name_server_count(&mut self, name_server_count: u16)
        ensures
            final(self).spec_name_server_count() == name_server_count,
            final(self).spec_id() == old(self).spec_id(),
            final(self).spec_flags() == old(self).spec_flags(),
            final(self).spec_question_count() == old(self).spec_question_count(),
            final(self).spec_answer_count() == old(self).spec_answer_count(),
            final(self).spec_additional_records_count() == old(self).spec_additional_records_count(),
    {
        self.name_server_count = name_server_count;
    }

    pub(crate) fn set_additional_records_count(&mut self, additional_records_count: u16)
        ensures
            final(self).spec_additional_records_count() == additional_records_count,
            final(self).spec_id() == old(self).spec_id(),
            final(self).spec_flags() == old(self).spec_flags(),
            final(self).spec_question_count() == old(self).spec_question_count(),
            final(self).spec_answer_count() == old(self).spec_answer_count(),
            final(self).spec_name_server_count() == old(self).spec_name_server_count(),
    {
        self.additional_records_count = additional_records_count;
    }
}

} // verus!
