//! Question records: a name, a query type and a query class.
use vstd::prelude::*;
use crate::wire::{be16, read_u16};
use crate::name::{Name, name_end};

verus! {

/// The type a question asks for.
#[derive(PartialEq, Eq, Structural, Clone, Copy, Debug)]
pub enum QType {
    A,
    NS,
    MD,
    MF,
    CNAME,
    SOA,
    MB,
    MG,
    MR,
    NULL,
    WKS,
    PTR,
    HINFO,
    MINFO,
    MX,
    TXT,
    AXFR,
    MAILB,
    MAILA,
    ALL,
    /// Any code this codec does not know; it has no code of its own.
    Reserved,
}

/// The query type that a wire code stands for.
pub open spec fn qtype_of(n: u16) -> QType {
    if n == 1 { QType::A }
    else if n == 2 { QType::NS }
    else if n == 3 { QType::MD }
    else if n == 4 { QType::MF }
    else if n == 5 { QType::CNAME }
    else if n == 6 { QType::SOA }
    else if n == 7 { QType::MB }
    else if n == 8 { QType::MG }
    else if n == 9 { QType::MR }
    else if n == 10 { QType::NULL }
    else if n == 11 { QType::WKS }
    else if n == 12 { QType::PTR }
    else if n == 13 { QType::HINFO }
    else if n == 14 { QType::MINFO }
    else if n == 15 { QType::MX }
    else if n == 16 { QType::TXT }
    else if n == 252 { QType::AXFR }
    else if n == 253 { QType::MAILB }
    else if n == 254 { QType::MAILA }
    else if n == 255 { QType::ALL }
    else { QType::Reserved }
}

impl QType {
    /// The wire code of the type; `Reserved` has none.
    pub open spec fn spec_code(self) -> Option<u16> {
        match self {
            QType::A => Some(1u16),
            QType::NS => Some(2u16),
            QType::MD => Some(3u16),
            QType::MF => Some(4u16),
            QType::CNAME => Some(5u16),
            QType::SOA => Some(6u16),
            QType::MB => Some(7u16),
            QType::MG => Some(8u16),
            QType::MR => Some(9u16),
            QType::NULL => Some(10u16),
            QType::WKS => Some(11u16),
            QType::PTR => Some(12u16),
            QType::HINFO => Some(13u16),
            QType::MINFO => Some(14u16),
            QType::MX => Some(15u16),
            QType::TXT => Some(16u16),
            QType::AXFR => Some(252u16),
            QType::MAILB => Some(253u16),
            QType::MAILA => Some(254u16),
            QType::ALL => Some(255u16),
            QType::Reserved => None,
        }
    }

    /// The wire code of the type, or `Err` for `Reserved`.
    pub fn code(self) -> (r: Result<u16, ()>)
        ensures
            r is Ok <==> self.spec_code() is Some,
            r matches Ok(c) ==> self.spec_code() == Some(c),
    {
        match self {
            QType::A => Ok(1),
            QType::NS => Ok(2),
            QType::MD => Ok(3),
            QType::MF => Ok(4),
            QType::CNAME => Ok(5),
            QType::SOA => Ok(6),
            QType::MB => Ok(7),
            QType::MG => Ok(8),
            QType::MR => Ok(9),
            QType::NULL => Ok(10),
            QType::WKS => Ok(11),
            QType::PTR => Ok(12),
            QType::HINFO => Ok(13),
            QType::MINFO => Ok(14),
            QType::MX => Ok(15),
            QType::TXT => Ok(16),
            QType::AXFR => Ok(252),
            QType::MAILB => Ok(253),
            QType::MAILA => Ok(254),
            QType::ALL => Ok(255),
            QType::Reserved => Err(()),
        }
    }
}

impl From<u16> for QType {
    fn from(n: u16) -> (r: QType) {
        match n {
            1 => QType::A,
            2 => QType::NS,
            3 => QType::MD,
            4 => QType::MF,
            5 => QType::CNAME,
            6 => QType::SOA,
            7 => QType::MB,
            8 => QType::MG,
            9 => QType::MR,
            10 => QType::NULL,
            11 => QType::WKS,
            12 => QType::PTR,
            13 => QType::HINFO,
            14 => QType::MINFO,
            15 => QType::MX,
            16 => QType::TXT,
            252 => QType::AXFR,
            253 => QType::MAILB,
            254 => QType::MAILA,
            255 => QType::ALL,
            _ => QType::Reserved,
        }
    }
}

impl vstd::std_specs::convert::FromSpecImpl<u16> for QType {
    open spec fn obeys_from_spec() -> bool {
        true
    }

    open spec fn from_spec(n: u16) -> QType {
        qtype_of(n)
    }
}

/// The class a question asks in.
#[derive(PartialEq, Eq, Structural, Clone, Copy, Debug)]
pub enum QClass {
    /// Internet
    IN,
    /// CSNET
    CS,
    /// CHAOS
    CH,
    /// Hesiod
    HS,
    /// Any code this codec does not know; it has no code of its own.
    Reserved,
}

/// The query class that a wire code stands for.
pub open spec fn qclass_of(n: u16) -> QClass {
    if n == 1 { QClass::IN }
    else if n == 2 { QClass::CS }
    else if n == 3 { QClass::CH }
    else if n == 4 { QClass::HS }
    else { QClass::Reserved }
}

impl QClass {
    /// The wire code of the class; `Reserved` has none.
    pub open spec fn spec_code(self) -> Option<u16> {
        match self {
            QClass::IN => Some(1u16),
            QClass::CS => Some(2u16),
            QClass::CH => Some(3u16),
            QClass::HS => Some(4u16),
            QClass::Reserved => None,
        }
    }

    /// The wire code of the class, or `Err` for `Reserved`.
    pub fn code(self) -> (r: Result<u16, ()>)
        ensures
            r is Ok <==> self.spec_code() is Some,
            r matches Ok(c) ==> self.spec_code() == Some(c),
    {
        match self {
            QClass::IN => Ok(1),
            QClass::CS => Ok(2),
            QClass::CH => Ok(3),
            QClass::HS => Ok(4),
            QClass::Reserved => Err(()),
        }
    }
}

impl From<u16> for QClass {
    fn from(n: u16) -> (r: QClass) {
        match n {
            1 => QClass::IN,
            2 => QClass::CS,
            3 => QClass::CH,
            4 => QClass::HS,
            _ => QClass::Reserved,
        }
    }
}

impl vstd::std_specs::convert::FromSpecImpl<u16> for QClass {
    open spec fn obeys_from_spec() -> bool {
        true
    }

    open spec fn from_spec(n: u16) -> QClass {
        qclass_of(n)
    }
}

/// Where the question stored at `pos` ends, if it is well formed.
pub open spec fn question_end(b: Seq<u8>, pos: int) -> Option<int> {
    match name_end(b, pos) {
        Some(e) => if e + 4 <= b.len() { Some(e + 4) } else { None },
        None => None,
    }
}

/// Whether `q` holds the fields of the well-formed question stored at `pos`.
pub open spec fn question_read_from(q: Question, b: Seq<u8>, pos: int) -> bool {
    let end = question_end(b, pos)->0;
    &&& q.spec_name().source() == b
    &&& q.spec_name().start() == pos
    &&& q.spec_qtype() == qtype_of(be16(b, end - 4))
    &&& q.spec_qclass() == qclass_of(be16(b, end - 2))
}

/// A question record parsed from a message.
#[derive(Debug, PartialEq)]
pub struct Question<'a> {
    name: Name<'a>,
    qtype: QType,
    qclass: QClass,
}

impl<'a> Question<'a> {
    pub closed spec fn spec_name(&self) -> Name<'a> {
        self.name
    }

    pub closed spec fn spec_qtype(&self) -> QType {
        self.qtype
    }

    pub closed spec fn spec_qclass(&self) -> QClass {
        self.qclass
    }

    /// Parses the question stored at `*i` and moves `*i` past it; on failure
    /// `*i` is left alone.
    pub fn parse(bytes: &'a [u8], i: &mut usize) -> (r: Result<Self, ()>)
        ensures
            r is Ok <==> question_end(bytes@, *old(i) as int) is Some,
            r is Ok ==> question_end(bytes@, *old(i) as int) == Some(*final(i) as int),
            r matches Ok(q) ==> question_read_from(q, bytes@, *old(i) as int),
            r is Err ==> *final(i) == *old(i),
    {
        let mut j = *i;
        let name = Name::parse(bytes, &mut j)?;
        if j > bytes.len() || bytes.len() - j < 4 {
            return Err(());
        }
        let qtype = QType::from(read_u16(bytes, j));
        let qclass = QClass::from(read_u16(bytes, j + 2));
        *i = j + 4;
        Ok(Question { name, qtype, qclass })
    }

    pub fn name(&self) -> (r: &Name<'a>)
        ensures
            *r == self.spec_name(),
    {
        &self.name
    }

    pub fn qtype(&self) -> (r: QType)
        ensures
            r == self.spec_qtype(),
    {
        self.qtype
    }

    pub fn qclass(&self) -> (r: QClass)
        ensures
            r == self.spec_qclass(),
    {
        self.qclass
    }
}

} // verus!
