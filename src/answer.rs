//! Answer records and the catalog of record data types they carry.
use vstd::prelude::*;
use crate::wire::{be16, be32, read_u16, read_u32};
use vstd::slice::slice_subrange;
use crate::name::{Name, name_end, lemma_name_end_bounds, name_wire, append_bytes};
use crate::wire::{u16_bytes, u32_bytes, u16_to_be, u32_to_be};

verus! {

/// The class of an answer record.
#[derive(PartialEq, Eq, Structural, Clone, Copy, Debug)]
pub enum AClass {
    IN,
    CS,
    CH,
    HS,
    /// Any code this codec does not know; it has no code of its own.
    Unknown,
}

/// The answer class that a wire code stands for.
pub open spec fn aclass_of(n: u16) -> AClass {
    if n == 1 { AClass::IN }
    else if n == 2 { AClass::CS }
    else if n == 3 { AClass::CH }
    else if n == 4 { AClass::HS }
    else { AClass::Unknown }
}

impl AClass {
    /// The wire code of the class; `Unknown` has none.
    pub open spec fn spec_code(self) -> Option<u16> {
        match self {
            AClass::IN => Some(1u16),
            AClass::CS => Some(2u16),
            AClass::CH => Some(3u16),
            AClass::HS => Some(4u16),
            AClass::Unknown => None,
        }
    }

    /// The wire code of the class, or `Err` for `Unknown`.
    pub fn code(self) -> (r: Result<u16, ()>)
        ensures
            r is Ok <==> self.spec_code() is Some,
            r matches Ok(c) ==> self.spec_code() == Some(c),
    {
        match self {
            AClass::IN => Ok(1),
            AClass::CS => Ok(2),
            AClass::CH => Ok(3),
            AClass::HS => Ok(4),
            AClass::Unknown => Err(()),
        }
    }
}

impl From<u16> for AClass {
    fn from(n: u16) -> (r: AClass) {
        match n {
            1 => AClass::IN,
            2 => AClass::CS,
            3 => AClass::CH,
            4 => AClass::HS,
            _ => AClass::Unknown,
        }
    }
}

impl vstd::std_specs::convert::FromSpecImpl<u16> for AClass {
    open spec fn obeys_from_spec() -> bool {
        true
    }

    open spec fn from_spec(n: u16) -> AClass {
        aclass_of(n)
    }
}

/// The data of an answer record, one shape per record type. Names and byte
/// strings are views into the message.
#[derive(Clone, Debug, PartialEq)]
pub enum AType<'a> {
    /// A host address
    A(u32),
    /// An authoritative name server
    NS(Name<'a>),
    /// The canonical name for an alias
    CNAME(Name<'a>),
    /// Marks the start of a zone of authority
    SOA(Name<'a>, Name<'a>, u32, u32, u32, u32, u32),
    /// A domain name pointer
    PTR(Name<'a>),
    /// Mail exchange
    MX(u16, Name<'a>),
    /// Text strings
    TXT(&'a [u8]),
    /// IPv6 address
    AAAA([u8; 16]),
    /// Location information
    SRV(u16, u16, u16, Name<'a>),
    /// OPT pseudo-RR
    OPT(u16, u8, u8, &'a [u8]),
    /// Any type this codec does not know; it cannot be written back.
    Unknown,
}

/// Whether `len` bytes of record data of type `t`, stored at `pos`, are well
/// formed: they lie within `b` and the type's grammar consumes exactly `len` bytes.
pub open spec fn rdata_valid(t: u16, len: u16, b: Seq<u8>, pos: int) -> bool {
    let end = pos + len;
    &&& 0 <= pos
    &&& end <= b.len()
    &&& if t == 1 {
        len == 4
    } else if t == 2 || t == 5 || t == 12 {
        name_end(b, pos) == Some(end)
    } else if t == 6 {
        match name_end(b, pos) {
            Some(e1) => match name_end(b, e1) {
                Some(e2) => e2 + 20 == end,
                None => false,
            },
            None => false,
        }
    } else if t == 15 {
        name_end(b, pos + 2) == Some(end)
    } else if t == 16 {
        len >= 1
    } else if t == 28 {
        len == 16
    } else if t == 33 {
        name_end(b, pos + 6) == Some(end)
    } else if t == 41 {
        len >= 4
    } else {
        true
    }
}

/// Whether `n` is the name stored at `pos` of `b`.
pub open spec fn name_is(n: Name, b: Seq<u8>, pos: int) -> bool {
    n.source() == b && n.start() == pos
}

/// Whether `v` holds the fields of the well-formed record data of type `t`
/// and length `len` stored at `pos`.
pub open spec fn rdata_fields(v: AType, t: u16, len: u16, b: Seq<u8>, pos: int) -> bool {
    let end = pos + len;
    if t == 1 {
        v == AType::A(be32(b, pos))
    } else if t == 2 {
        v matches AType::NS(n) && name_is(n, b, pos)
    } else if t == 5 {
        v matches AType::CNAME(n) && name_is(n, b, pos)
    } else if t == 12 {
        v matches AType::PTR(n) && name_is(n, b, pos)
    } else if t == 6 {
        v matches AType::SOA(m, r, serial, refresh, retry, expire, minimum) && {
            let e2 = end - 20;
            &&& name_is(m, b, pos)
            &&& r.source() == b && name_end(b, pos) == Some(r.start())
            &&& serial == be32(b, e2)
            &&& refresh == be32(b, e2 + 4)
            &&& retry == be32(b, e2 + 8)
            &&& expire == be32(b, e2 + 12)
            &&& minimum == be32(b, e2 + 16)
        }
    } else if t == 15 {
        v matches AType::MX(pref, n) && pref == be16(b, pos) && name_is(n, b, pos + 2)
    } else if t == 16 {
        v matches AType::TXT(s) && s@ == b.subrange(pos, end)
    } else if t == 28 {
        v matches AType::AAAA(a) && a@ == b.subrange(pos, end)
    } else if t == 33 {
        v matches AType::SRV(priority, weight, port, n) && {
            &&& priority == be16(b, pos)
            &&& weight == be16(b, pos + 2)
            &&& port == be16(b, pos + 4)
            &&& name_is(n, b, pos + 6)
        }
    } else if t == 41 {
        v matches AType::OPT(size, rcode, version, data) && {
            &&& size == be16(b, pos)
            &&& rcode == b[pos + 2]
            &&& version == b[pos + 3]
            &&& data@ == b.subrange(pos + 4, end)
        }
    } else {
        v == AType::Unknown
    }
}

impl<'a> AType<'a> {
    /// The wire type code of the variant; `Unknown` has none.
    pub open spec fn spec_type_id(&self) -> Option<u16> {
        match self {
            AType::A(_) => Some(1u16),
            AType::NS(_) => Some(2u16),
            AType::CNAME(_) => Some(5u16),
            AType::SOA(_, _, _, _, _, _, _) => Some(6u16),
            AType::PTR(_) => Some(12u16),
            AType::MX(_, _) => Some(15u16),
            AType::TXT(_) => Some(16u16),
            AType::AAAA(_) => Some(28u16),
            AType::SRV(_, _, _, _) => Some(33u16),
            AType::OPT(_, _, _, _) => Some(41u16),
            AType::Unknown => None,
        }
    }

    /// The wire type code of the variant, or `Err` for `Unknown`.
    pub fn type_id(&self) -> (r: Result<u16, ()>)
        ensures
            r is Ok <==> self.spec_type_id() is Some,
            r matches Ok(c) ==> self.spec_type_id() == Some(c),
    {
        match self {
            AType::A(_) => Ok(1),
            AType::NS(_) => Ok(2),
            AType::CNAME(_) => Ok(5),
            AType::SOA(_, _, _, _, _, _, _) => Ok(6),
            AType::PTR(_) => Ok(12),
            AType::MX(_, _) => Ok(15),
            AType::TXT(_) => Ok(16),
            AType::AAAA(_) => Ok(28),
            AType::SRV(_, _, _, _) => Ok(33),
            AType::OPT(_, _, _, _) => Ok(41),
            AType::Unknown => Err(()),
        }
    }

    /// Parses `data_len` bytes of record data of type `atype` stored at `*i`,
    /// and moves `*i` past them. Fails unless the type's grammar consumes
    /// exactly `data_len` bytes; on failure `*i` is left alone.
    pub fn parse(atype: u16, data_len: u16, bytes: &'a [u8], i: &mut usize) -> (r: Result<Self, ()>)
        ensures
            r is Ok <==> rdata_valid(atype, data_len, bytes@, *old(i) as int),
            r is Ok ==> *final(i) == *old(i) + data_len,
            r matches Ok(v) ==> rdata_fields(v, atype, data_len, bytes@, *old(i) as int),
            r is Err ==> *final(i) == *old(i),
    {
        let pos = *i;
        if pos > bytes.len() || bytes.len() - pos < data_len as usize {
            return Err(());
        }
        let end = pos + data_len as usize;
        match atype {
            1 => {
                if data_len != 4 {
                    return Err(());
                }
                let addr = read_u32(bytes, pos);
                *i = end;
                Ok(AType::A(addr))
            },
            2 | 5 | 12 => {
                let mut j = pos;
                let name = Name::parse(bytes, &mut j)?;
                if j != end {
                    return Err(());
                }
                *i = end;
                if atype == 2 {
                    Ok(AType::NS(name))
                } else if atype == 5 {
                    Ok(AType::CNAME(name))
                } else {
                    Ok(AType::PTR(name))
                }
            },
            6 => {
                let mut j = pos;
                let mname = Name::parse(bytes, &mut j)?;
                let rname = Name::parse(bytes, &mut j)?;
                if j > end || end - j != 20 {
                    return Err(());
                }
                let serial = read_u32(bytes, j);
                let refresh = read_u32(bytes, j + 4);
                let retry = read_u32(bytes, j + 8);
                let expire = read_u32(bytes, j + 12);
                let minimum = read_u32(bytes, j + 16);
                *i = end;
                Ok(AType::SOA(mname, rname, serial, refresh, retry, expire, minimum))
            },
            15 => {
                if data_len < 2 {
                    proof {
                        lemma_name_end_bounds(bytes@, pos + 2, pos + 2);
                    }
                    return Err(());
                }
                let preference = read_u16(bytes, pos);
                let mut j = pos + 2;
                let exchange = Name::parse(bytes, &mut j)?;
                if j != end {
                    return Err(());
                }
                *i = end;
                Ok(AType::MX(preference, exchange))
            },
            16 => {
                if data_len < 1 {
                    return Err(());
                }
                let txt = slice_subrange(bytes, pos, end);
                *i = end;
                Ok(AType::TXT(txt))
            },
            28 => {
                if data_len != 16 {
                    return Err(());
                }
                let mut addr = [0u8; 16];
                let mut k: usize = 0;
                while k < 16
                    invariant
                        k <= 16,
                        end == pos + 16,
                        end <= bytes@.len(),
                        *i == *old(i),
                        forall|m: int| 0 <= m < k ==> addr@[m] == bytes@[pos + m],
                    decreases 16 - k,
                {
                    addr[k] = bytes[pos + k];
                    k = k + 1;
                }
                assert(addr@ =~= bytes@.subrange(pos as int, end as int));
                *i = end;
                Ok(AType::AAAA(addr))
            },
            33 => {
                if data_len < 6 {
                    proof {
                        lemma_name_end_bounds(bytes@, pos + 6, pos + 6);
                    }
                    return Err(());
                }
                let priority = read_u16(bytes, pos);
                let weight = read_u16(bytes, pos + 2);
                let port = read_u16(bytes, pos + 4);
                let mut j = pos + 6;
                let target = Name::parse(bytes, &mut j)?;
                if j != end {
                    return Err(());
                }
                *i = end;
                Ok(AType::SRV(priority, weight, port, target))
            },
            41 => {
                if data_len < 4 {
                    return Err(());
                }
                let udp_payload_size = read_u16(bytes, pos);
                let extended_rcode = bytes[pos + 2];
                let version = bytes[pos + 3];
                let data = slice_subrange(bytes, pos + 4, end);
                *i = end;
                Ok(AType::OPT(udp_payload_size, extended_rcode, version, data))
            },
            _ => {
                *i = end;
                Ok(AType::Unknown)
            },
        }
    }
}

/// The record data of `v` in wire form, names as literal labels; `None` for
/// `Unknown`, for empty text, and for names that cannot be written.
pub open spec fn rdata_wire(v: AType) -> Option<Seq<u8>> {
    match v {
        AType::A(addr) => Some(u32_bytes(addr)),
        AType::NS(n) => name_wire(n),
        AType::CNAME(n) => name_wire(n),
        AType::PTR(n) => name_wire(n),
        AType::SOA(m, r, serial, refresh, retry, expire, minimum) => match (name_wire(m), name_wire(r)) {
            (Some(x), Some(y)) => Some(x + y + u32_bytes(serial) + u32_bytes(refresh) + u32_bytes(retry)
                + u32_bytes(expire) + u32_bytes(minimum)),
            _ => None,
        },
        AType::MX(pref, n) => match name_wire(n) {
            Some(x) => Some(u16_bytes(pref) + x),
            None => None,
        },
        AType::TXT(t) => if t@.len() > 0 {
            Some(t@)
        } else {
            None
        },
        AType::AAAA(a) => Some(a@),
        AType::SRV(priority, weight, port, n) => match name_wire(n) {
            Some(x) => Some(u16_bytes(priority) + u16_bytes(weight) + u16_bytes(port) + x),
            None => None,
        },
        AType::OPT(size, rcode, version, data) => Some(u16_bytes(size) + seq![rcode, version] + data@),
        AType::Unknown => None,
    }
}

impl<'a> AType<'a> {
    /// The record data in wire form, names as literal labels (pointers are
    /// followed). `Err` for `Unknown`, for empty text, and for names that
    /// cannot be written.
    pub fn to_wire(&self) -> (r: Result<Vec<u8>, ()>)
        ensures
            r is Ok <==> rdata_wire(*self) is Some,
            r matches Ok(v) ==> v@ == rdata_wire(*self)->0,
    {
        let mut out: Vec<u8> = Vec::new();
        match self {
            AType::A(addr) => {
                append_bytes(&mut out, u32_to_be(*addr).as_slice());
            },
            AType::NS(n) | AType::CNAME(n) | AType::PTR(n) => {
                out = n.to_wire()?;
            },
            AType::SOA(m, r, serial, refresh, retry, expire, minimum) => {
                out = m.to_wire()?;
                let y = r.to_wire()?;
                append_bytes(&mut out, y.as_slice());
                append_bytes(&mut out, u32_to_be(*serial).as_slice());
                append_bytes(&mut out, u32_to_be(*refresh).as_slice());
                append_bytes(&mut out, u32_to_be(*retry).as_slice());
                append_bytes(&mut out, u32_to_be(*expire).as_slice());
                append_bytes(&mut out, u32_to_be(*minimum).as_slice());
            },
            AType::MX(pref, n) => {
                append_bytes(&mut out, u16_to_be(*pref).as_slice());
                let x = n.to_wire()?;
                append_bytes(&mut out, x.as_slice());
            },
            AType::TXT(t) => {
                if t.len() == 0 {
                    return Err(());
                }
                append_bytes(&mut out, t);
            },
            AType::AAAA(a) => {
                append_bytes(&mut out, a.as_slice());
            },
            AType::SRV(priority, weight, port, n) => {
                append_bytes(&mut out, u16_to_be(*priority).as_slice());
                append_bytes(&mut out, u16_to_be(*weight).as_slice());
                append_bytes(&mut out, u16_to_be(*port).as_slice());
                let x = n.to_wire()?;
                append_bytes(&mut out, x.as_slice());
            },
            AType::OPT(size, rcode, version, data) => {
                append_bytes(&mut out, u16_to_be(*size).as_slice());
                out.push(*rcode);
                out.push(*version);
                append_bytes(&mut out, data);
            },
            AType::Unknown => {
                return Err(());
            },
        }
        proof {
            if let Some(w) = rdata_wire(*self) {
                assert(out@ =~= w);
            }
        }
        Ok(out)
    }
}

/// Where the name of the answer stored at `pos` ends, when the answer is well
/// formed: the name, ten bytes of type, class, TTL and data length, and the data.
pub open spec fn answer_name_end(b: Seq<u8>, pos: int) -> Option<int> {
    match name_end(b, pos) {
        Some(e) => if e + 10 <= b.len() && rdata_valid(be16(b, e), be16(b, e + 8), b, e + 10) {
            Some(e)
        } else {
            None
        },
        None => None,
    }
}

/// Where the answer stored at `pos` ends, if it is well formed.
pub open spec fn answer_end(b: Seq<u8>, pos: int) -> Option<int> {
    match answer_name_end(b, pos) {
        Some(e) => Some(e + 10 + be16(b, e + 8)),
        None => None,
    }
}

/// Whether `a` holds the fields of the well-formed answer stored at `pos`.
pub open spec fn answer_read_from(a: Answer, b: Seq<u8>, pos: int) -> bool {
    let e = answer_name_end(b, pos)->0;
    &&& name_is(a.spec_name(), b, pos)
    &&& a.spec_cache_flush() == (b[e + 2] >= 128)
    &&& a.spec_aclass() == aclass_of(((b[e + 2] % 128) as int * 256 + b[e + 3] as int) as u16)
    &&& a.spec_ttl() == be32(b, e + 4)
    &&& rdata_fields(a.spec_atype(), be16(b, e), be16(b, e + 8), b, e + 10)
}

/// An answer record parsed from a message.
pub struct Answer<'a> {
    name: Name<'a>,
    atype: AType<'a>,
    cache_flush: bool,
    aclass: AClass,
    ttl: u32,
}

impl<'a> Answer<'a> {
    pub closed spec fn spec_name(&self) -> Name<'a> {
        self.name
    }

    pub closed spec fn spec_atype(&self) -> AType<'a> {
        self.atype
    }

    pub closed spec fn spec_cache_flush(&self) -> bool {
        self.cache_flush
    }

    pub closed spec fn spec_aclass(&self) -> AClass {
        self.aclass
    }

    pub closed spec fn spec_ttl(&self) -> u32 {
        self.ttl
    }

    /// Parses the answer stored at `*i` and moves `*i` past it; on failure
    /// `*i` is left alone. The top bit of the class field is the cache-flush
    /// flag; the class is the remaining fifteen bits.
    pub fn parse(bytes: &'a [u8], i: &mut usize) -> (r: Result<Self, ()>)
        ensures
            r is Ok <==> answer_name_end(bytes@, *old(i) as int) is Some,
            r is Ok ==> answer_end(bytes@, *old(i) as int) == Some(*final(i) as int),
            r matches Ok(a) ==> answer_read_from(a, bytes@, *old(i) as int),
            r is Err ==> *final(i) == *old(i),
    {
        let mut j = *i;
        let name = Name::parse(bytes, &mut j)?;
        if j > bytes.len() || bytes.len() - j < 10 {
            return Err(());
        }
        let atype = read_u16(bytes, j);
        let flag_byte = bytes[j + 2];
        let cache_flush = flag_byte >= 128;
        let aclass = AClass::from(((flag_byte % 128) as u16) * 256 + bytes[j + 3] as u16);
        let ttl = read_u32(bytes, j + 4);
        let data_len = read_u16(bytes, j + 8);
        let mut k = j + 10;
        let atype = AType::parse(atype, data_len, bytes, &mut k)?;
        *i = k;
        Ok(Answer { name, atype, cache_flush, aclass, ttl })
    }

    pub fn name(&self) -> (r: &Name<'a>)
        ensures
            *r == self.spec_name(),
    {
        &self.name
    }

    pub fn atype(&self) -> (r: &AType<'a>)
        ensures
            *r == self.spec_atype(),
    {
        &self.atype
    }

    pub fn cache_flush(&self) -> (r: bool)
        ensures
            r == self.spec_cache_flush(),
    {
        self.cache_flush
    }

    pub fn aclass(&self) -> (r: AClass)
        ensures
            r == self.spec_aclass(),
    {
        self.aclass
    }

    pub fn ttl(&self) -> (r: u32)
        ensures
            r == self.spec_ttl(),
    {
        self.ttl
    }
}

} // verus!
