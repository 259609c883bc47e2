//! Building an answer record: a name, then class, cache-flush flag, TTL and
//! typed data in any order, then finish.
use vstd::prelude::*;
use crate::wire::{be16, u16_bytes, u32_bytes, u16_to_be, u32_to_be};
use crate::buffer::ExtendableBuffer;
use crate::header::{Header, HEADER_LEN};
use crate::body::{MessageBodyMut, AnswersSection, skip_answers};
use crate::name_builder::{NameBuilder, NameParent};
use crate::answer::{AClass, AType, rdata_wire};

verus! {

/// Where an answer under construction stands: where its name ends, and which
/// fields are set. The fixed fields follow the name: type (2 bytes), class
/// with the cache-flush bit on top (2), TTL (4), data length (2), then the data.
#[derive(Clone, Copy)]
pub struct AnswerState {
    name_end: usize,
    has_name: bool,
    has_cache_flush: bool,
    has_type: bool,
    has_class: bool,
    has_ttl: bool,
}

impl AnswerState {
    pub closed spec fn name_end(&self) -> int {
        self.name_end as int
    }

    pub closed spec fn has_name(&self) -> bool {
        self.has_name
    }

    pub closed spec fn has_cache_flush(&self) -> bool {
        self.has_cache_flush
    }

    pub closed spec fn has_type(&self) -> bool {
        self.has_type
    }

    pub closed spec fn has_class(&self) -> bool {
        self.has_class
    }

    pub closed spec fn has_ttl(&self) -> bool {
        self.has_ttl
    }

    /// Where the record data starts.
    pub open spec fn data_start(&self) -> int {
        self.name_end() + 10
    }

    /// The state laid over the bytes of `body`: once the name is written, the
    /// ten bytes of fixed fields follow it; once the type is set, the data
    /// length field matches the data.
    pub open spec fn fits<B: ExtendableBuffer>(&self, body: MessageBodyMut<B, AnswersSection>) -> bool {
        &&& body.wf()
        &&& self.has_name() ==> {
            &&& body.spec_position() < self.name_end()
            &&& self.data_start() <= body.spec_contents().len()
            &&& self.has_type() ==> be16(body.spec_contents(), self.name_end() + 8) + self.data_start()
                == body.spec_contents().len()
        }
        &&& !self.has_name() ==> !self.has_cache_flush() && !self.has_type() && !self.has_class() && !self.has_ttl()
    }
}

/// What an answer's name builder hands back to: nothing beyond the body.
pub struct AnswerName;

impl NameParent for AnswerName {
    open spec fn accepts(&self, position: int, name_start: int) -> bool {
        true
    }
}

impl AnswerState {
    /// The state of an answer whose data starts at `start`, ahead of the cursor
    /// at `position`, and has no type yet.
    pub open spec fn frames(&self, position: int, start: int) -> bool {
        &&& !self.has_type()
        &&& self.has_name() ==> position < self.name_end() && start == self.data_start()
        &&& !self.has_name() ==> !self.has_cache_flush() && !self.has_class() && !self.has_ttl()
    }
}

/// Builds one answer at the cursor of a body.
pub struct AnswerBuilder<B: ExtendableBuffer> {
    body: MessageBodyMut<B, AnswersSection>,
    st: AnswerState,
}

impl<B: ExtendableBuffer> AnswerBuilder<B> {
    pub closed spec fn spec_body(&self) -> MessageBodyMut<B, AnswersSection> {
        self.body
    }

    pub closed spec fn spec_state(&self) -> AnswerState {
        self.st
    }

    pub open spec fn spec_contents(&self) -> Seq<u8> {
        self.spec_body().spec_contents()
    }

    pub open spec fn wf(&self) -> bool {
        self.spec_state().fits(self.spec_body())
    }

    /// Whether `other` differs from `self` only in the bytes: same header,
    /// cursor and capacity, and the same name end.
    pub open spec fn same_frame(&self, other: &Self) -> bool {
        &&& other.spec_body().spec_header() == self.spec_body().spec_header()
        &&& other.spec_body().spec_position() == self.spec_body().spec_position()
        &&& other.spec_body().spec_buffer().capacity() == self.spec_body().spec_buffer().capacity()
        &&& other.spec_state().name_end() == self.spec_state().name_end()
        &&& other.spec_state().has_name() == self.spec_state().has_name()
    }

    /// A builder for an answer at the body's cursor.
    pub fn new(body: MessageBodyMut<B, AnswersSection>) -> (r: Self)
        requires
            body.wf(),
        ensures
            r.wf(),
            r.spec_body() == body,
            !r.spec_state().has_name(),
    {
        AnswerBuilder {
            body,
            st: AnswerState {
                name_end: 0,
                has_name: false,
                has_cache_flush: false,
                has_type: false,
                has_class: false,
                has_ttl: false,
            },
        }
    }

    /// Starts the name; whatever was written for this answer before is dropped.
    pub fn name(self) -> (r: NameBuilder<B, AnswersSection, AnswerName>)
        requires
            self.wf(),
        ensures
            r.wf(),
            !r.spec_ended(),
            r.spec_start() == self.spec_body().spec_position(),
            r.spec_contents() == self.spec_contents().subrange(0, self.spec_body().spec_position()),
            r.spec_body().spec_header() == self.spec_body().spec_header(),
            r.spec_body().spec_position() == self.spec_body().spec_position(),
            r.spec_body().spec_buffer().capacity() == self.spec_body().spec_buffer().capacity(),
    {
        let mut body = self.body;
        let pos = body.position();
        body.cut(pos);
        assert(body.spec_contents() =~= self.spec_contents().subrange(0, self.spec_body().spec_position()));
        NameBuilder::new(body, AnswerName)
    }

    /// Sets the cache-flush bit, the top bit of the class field, keeping the class.
    /// `Err` before the name.
    pub fn cache_flush(self, value: bool) -> (r: Result<Self, ()>)
        requires
            self.wf(),
        ensures
            r is Ok <==> self.spec_state().has_name(),
            r matches Ok(a) ==> {
                let at = self.spec_state().name_end() + 2;
                let old_byte = self.spec_contents()[at];
                &&& a.wf()
                &&& self.same_frame(&a)
                &&& a.spec_contents() == self.spec_contents().update(at, (old_byte % 128 + if value { 128u8 } else { 0u8 }) as u8)
                &&& a.spec_state().has_cache_flush()
                &&& a.spec_state().has_type() == self.spec_state().has_type()
                &&& a.spec_state().has_class() == self.spec_state().has_class()
                &&& a.spec_state().has_ttl() == self.spec_state().has_ttl()
            },
    {
        if !self.st.has_name {
            return Err(());
        }
        let mut a = self;
        let at = a.st.name_end + 2;
        let old_byte = a.body.byte_at(at);
        let flag: u8 = if value { 128 } else { 0 };
        let byte = [old_byte % 128 + flag];
        a.body.put_bytes(at, &byte);
        assert(a.spec_contents() =~= self.spec_contents().update(at as int, (old_byte % 128 + flag) as u8));
        a.st.has_cache_flush = true;
        Ok(a)
    }

    /// Sets the TTL. `Err` before the name.
    pub fn ttl(self, value: u32) -> (r: Result<Self, ()>)
        requires
            self.wf(),
        ensures
            r is Ok <==> self.spec_state().has_name(),
            r matches Ok(a) ==> {
                let at = self.spec_state().name_end() + 4;
                &&& a.wf()
                &&& self.same_frame(&a)
                &&& a.spec_contents() == self.spec_contents().subrange(0, at) + u32_bytes(value)
                    + self.spec_contents().subrange(at + 4, self.spec_contents().len() as int)
                &&& a.spec_state().has_ttl()
                &&& a.spec_state().has_type() == self.spec_state().has_type()
                &&& a.spec_state().has_class() == self.spec_state().has_class()
                &&& a.spec_state().has_cache_flush() == self.spec_state().has_cache_flush()
            },
    {
        if !self.st.has_name {
            return Err(());
        }
        let mut a = self;
        let bytes = u32_to_be(value);
        a.body.put_bytes(a.st.name_end + 4, &bytes);
        proof {
            let c = a.spec_contents();
            let e = self.spec_state().name_end();
            assert(c.subrange(e + 8, e + 10) =~= self.spec_contents().subrange(e + 8, e + 10));
        }
        a.st.has_ttl = true;
        Ok(a)
    }

    /// Sets the class, keeping the cache-flush bit. `Err` before the name, or
    /// for `Unknown`, which has no code.
    pub fn aclass(self, value: AClass) -> (r: Result<Self, ()>)
        requires
            self.wf(),
        ensures
            r is Ok <==> (self.spec_state().has_name() && value.spec_code() is Some),
            r matches Ok(a) ==> {
                let at = self.spec_state().name_end() + 2;
                let code = value.spec_code()->0;
                let top: u8 = if self.spec_contents()[at] >= 128 { 128 } else { 0 };
                &&& a.wf()
                &&& self.same_frame(&a)
                &&& a.spec_contents() == self.spec_contents().subrange(0, at)
                    + seq![((code / 256) % 128 + top) as u8, (code % 256) as u8]
                    + self.spec_contents().subrange(at + 2, self.spec_contents().len() as int)
                &&& a.spec_state().has_class()
                &&& a.spec_state().has_type() == self.spec_state().has_type()
                &&& a.spec_state().has_ttl() == self.spec_state().has_ttl()
                &&& a.spec_state().has_cache_flush() == self.spec_state().has_cache_flush()
            },
    {
        if !self.st.has_name {
            return Err(());
        }
        let code = value.code()?;
        let mut a = self;
        let at = a.st.name_end + 2;
        let old_byte = a.body.byte_at(at);
        let top: u8 = if old_byte >= 128 { 128 } else { 0 };
        let bytes = [((code / 256) % 128) as u8 + top, (code % 256) as u8];
        a.body.put_bytes(at, &bytes);
        proof {
            let c = a.spec_contents();
            let e = self.spec_state().name_end();
            assert(c.subrange(e + 8, e + 10) =~= self.spec_contents().subrange(e + 8, e + 10));
            assert(bytes@ =~= seq![((code / 256) % 128 + top) as u8, (code % 256) as u8]);
        }
        a.st.has_class = true;
        Ok(a)
    }

    /// Starts the record data: any data written before is dropped.
    pub fn atype(self) -> (r: AnswerTypeBuilder<B>)
        requires
            self.wf(),
        ensures
            r.wf(),
            r.spec_state().name_end() == self.spec_state().name_end(),
            r.spec_state().has_name() == self.spec_state().has_name(),
            !r.spec_state().has_type(),
            r.spec_state().has_class() == self.spec_state().has_class(),
            r.spec_state().has_ttl() == self.spec_state().has_ttl(),
            r.spec_state().has_cache_flush() == self.spec_state().has_cache_flush(),
            self.spec_state().has_name() ==> r.spec_contents() == self.spec_contents().subrange(
                0,
                self.spec_state().data_start(),
            ),
            !self.spec_state().has_name() ==> r.spec_contents() == self.spec_contents(),
            r.spec_body().spec_header() == self.spec_body().spec_header(),
            r.spec_body().spec_position() == self.spec_body().spec_position(),
            r.spec_body().spec_buffer().capacity() == self.spec_body().spec_buffer().capacity(),
    {
        let mut body = self.body;
        let mut st = self.st;
        if st.has_name {
            body.cut(st.name_end + 10);
        }
        st.has_type = false;
        AnswerTypeBuilder { body, st }
    }

    /// Adds the answer to the header's count and moves the cursor past it.
    /// `Err` unless name, cache-flush flag, type, class and TTL are all set,
    /// or when the count is full.
    pub fn finish(self) -> (r: Result<MessageBodyMut<B, AnswersSection>, ()>)
        requires
            self.wf(),
        ensures
            r is Ok <==> ({
                let st = self.spec_state();
                &&& st.has_name() && st.has_cache_flush() && st.has_type() && st.has_class() && st.has_ttl()
                &&& self.spec_body().spec_header().spec_answer_count() < 0xFFFF
            }),
            r matches Ok(b) ==> {
                let h = b.spec_header();
                let old_h = self.spec_body().spec_header();
                &&& b.wf()
                &&& h.spec_answer_count() == old_h.spec_answer_count() + 1
                &&& h.spec_question_count() == old_h.spec_question_count()
                &&& h.spec_id() == old_h.spec_id()
                &&& h.spec_flags() == old_h.spec_flags()
                &&& h.spec_name_server_count() == old_h.spec_name_server_count()
                &&& h.spec_additional_records_count() == old_h.spec_additional_records_count()
                &&& b.spec_contents() == h.spec_bytes() + self.spec_contents().subrange(
                    HEADER_LEN as int,
                    self.spec_contents().len() as int,
                )
                &&& b.spec_position() == self.spec_contents().len()
                &&& b.spec_buffer().capacity() == self.spec_body().spec_buffer().capacity()
                &&& b.spec_question_count() == 0
                &&& b.spec_answer_count() == 0
            },
    {
        let st = self.st;
        if !(st.has_name && st.has_cache_flush && st.has_type && st.has_class && st.has_ttl) {
            return Err(());
        }
        let mut h: Header = *self.body.header();
        let count = h.answer_count();
        if count == 0xFFFF {
            return Err(());
        }
        h.set_answer_count(count + 1);
        Ok(self.body.commit(h))
    }

    /// Gives up this answer: the body is handed back with its cursor where the
    /// answer would have started, and the bytes written so far stay until the
    /// next append drops them.
    pub fn cancel(self) -> (r: MessageBodyMut<B, AnswersSection>)
        requires
            self.wf(),
        ensures
            r == self.spec_body(),
    {
        self.body
    }
}

impl<B: ExtendableBuffer> NameBuilder<B, AnswersSection, AnswerName> {
    /// Ends the answer's name; the inner `Err` when its fixed fields cannot be
    /// reserved.
    pub fn finish(self) -> (r: Result<Result<AnswerBuilder<B>, ()>, ()>)
        requires
            self.wf(),
        ensures
            r is Ok <==> (self.spec_contents().len() > self.spec_start() && (self.spec_ended()
                || self.spec_contents().len() + 1 <= self.spec_body().spec_buffer().capacity())),
            r matches Ok(inner) ==> {
                let named = self.spec_contents() + (if self.spec_ended() {
                    Seq::<u8>::empty()
                } else {
                    seq![0u8]
                });
                &&& inner is Ok <==> named.len() + 10 <= self.spec_body().spec_buffer().capacity()
                &&& inner matches Ok(a) ==> {
                    &&& a.wf()
                    &&& a.spec_state().has_name()
                    &&& !a.spec_state().has_cache_flush() && !a.spec_state().has_type()
                    &&& !a.spec_state().has_class() && !a.spec_state().has_ttl()
                    &&& a.spec_state().name_end() == named.len()
                    &&& a.spec_contents() == named + Seq::new(10, |i: int| 0u8)
                    &&& a.spec_body().spec_header() == self.spec_body().spec_header()
                    &&& a.spec_body().spec_position() == self.spec_body().spec_position()
                    &&& a.spec_body().spec_buffer().capacity() == self.spec_body().spec_buffer().capacity()
                }
            },
    {
        let (mut body, _parent) = self.close()?;
        let name_end = body.len();
        let reserved = [0u8; 10];
        match body.push_bytes(&reserved) {
            Ok(()) => {},
            Err(()) => {
                return Ok(Err(()));
            },
        }
        assert(reserved@ =~= Seq::new(10, |i: int| 0u8));
        Ok(Ok(AnswerBuilder {
            body,
            st: AnswerState {
                name_end,
                has_name: true,
                has_cache_flush: false,
                has_type: false,
                has_class: false,
                has_ttl: false,
            },
        }))
    }
}

/// Chooses the type of an answer's data.
pub struct AnswerTypeBuilder<B: ExtendableBuffer> {
    body: MessageBodyMut<B, AnswersSection>,
    st: AnswerState,
}

impl<B: ExtendableBuffer> AnswerTypeBuilder<B> {
    pub closed spec fn spec_body(&self) -> MessageBodyMut<B, AnswersSection> {
        self.body
    }

    pub closed spec fn spec_state(&self) -> AnswerState {
        self.st
    }

    pub open spec fn spec_contents(&self) -> Seq<u8> {
        self.spec_body().spec_contents()
    }

    /// Once the name is written, the data is empty so far.
    pub open spec fn wf(&self) -> bool {
        &&& self.spec_state().fits(self.spec_body())
        &&& !self.spec_state().has_type()
        &&& self.spec_state().has_name() ==> self.spec_contents().len() == self.spec_state().data_start()
    }

    /// Writes the type code, when the name is written.
    fn put_type(self, code: u16) -> (r: DataFrame<B>)
        requires
            self.wf(),
        ensures
            r.wf(),
            r.st == self.spec_state(),
            self.spec_state().has_name() ==> r.body.spec_contents() == self.spec_contents().subrange(
                0,
                self.spec_state().name_end(),
            ) + u16_bytes(code) + self.spec_contents().subrange(
                self.spec_state().name_end() + 2,
                self.spec_contents().len() as int,
            ),
            !self.spec_state().has_name() ==> r.body.spec_contents() == self.spec_contents(),
            self.spec_state().has_name() ==> r.start == self.spec_state().data_start(),
            r.body.spec_header() == self.spec_body().spec_header(),
            r.body.spec_position() == self.spec_body().spec_position(),
            r.body.spec_buffer().capacity() == self.spec_body().spec_buffer().capacity(),
    {
        let mut body = self.body;
        let st = self.st;
        if st.has_name {
            let bytes = u16_to_be(code);
            body.put_bytes(st.name_end, &bytes);
        }
        DataFrame { body, st, start: if st.has_name { st.name_end + 10 } else { 0 } }
    }

    /// Writes `value` as the data, its type code as the type, and the data
    /// length; names are written as literal labels. `Err` before the name,
    /// for `Unknown`, for data that cannot be written (see `AType::to_wire`),
    /// or when it does not fit.
    pub fn data(self, value: &AType) -> (r: Result<AnswerBuilder<B>, ()>)
        requires
            self.wf(),
        ensures
            r is Ok <==> ({
                &&& self.spec_state().has_name()
                &&& rdata_wire(*value) matches Some(w)
                &&& self.spec_state().data_start() + w.len() <= self.spec_body().spec_buffer().capacity()
                &&& w.len() <= 0xFFFF
            }),
            r matches Ok(a) ==> {
                let c = self.spec_contents();
                let e = self.spec_state().name_end();
                let w = rdata_wire(*value)->0;
                &&& a.wf()
                &&& a.spec_state().has_type()
                &&& a.spec_state().has_name()
                &&& a.spec_state().name_end() == e
                &&& a.spec_state().has_class() == self.spec_state().has_class()
                &&& a.spec_state().has_ttl() == self.spec_state().has_ttl()
                &&& a.spec_state().has_cache_flush() == self.spec_state().has_cache_flush()
                &&& a.spec_contents() == c.subrange(0, e) + u16_bytes(value.spec_type_id()->0) + c.subrange(e + 2, e + 8)
                    + u16_bytes(w.len() as u16) + w
                &&& a.spec_body().spec_header() == self.spec_body().spec_header()
                &&& a.spec_body().spec_position() == self.spec_body().spec_position()
                &&& a.spec_body().spec_buffer().capacity() == self.spec_body().spec_buffer().capacity()
            },
    {
        if !self.st.has_name {
            return Err(());
        }
        let wire = value.to_wire()?;
        let code = value.type_id()?;
        let ghost c = self.spec_contents();
        let ghost e = self.spec_state().name_end();
        let frame = self.put_type(code);
        let frame = frame.set_data(wire.as_slice())?;
        let r = frame.close();
        proof {
            if r is Ok {
                assert(r->Ok_0.spec_contents() =~= c.subrange(0, e) + u16_bytes(code) + c.subrange(e + 2, e + 8)
                    + u16_bytes(wire@.len() as u16) + wire@);
            }
        }
        r
    }

    /// Data of type A: a host address.
    pub fn a(self) -> (r: AnswerTypeABuilder<B>)
        requires
            self.wf(),
        ensures
            r.wf(),
            !r.spec_has_ip(),
            self.spec_state().has_name() ==> r.spec_frame().start == self.spec_state().data_start(),
            self.spec_state().has_name() ==> r.spec_frame().body.spec_contents() == self.spec_contents().subrange(
                0,
                self.spec_state().name_end(),
            ) + u16_bytes(1) + self.spec_contents().subrange(
                self.spec_state().name_end() + 2,
                self.spec_contents().len() as int,
            ),
            r.spec_frame().st == self.spec_state(),
            r.spec_frame().body.spec_header() == self.spec_body().spec_header(),
            r.spec_frame().body.spec_position() == self.spec_body().spec_position(),
            r.spec_frame().body.spec_buffer().capacity() == self.spec_body().spec_buffer().capacity(),
            !self.spec_state().has_name() ==> r.spec_frame().body.spec_contents() == self.spec_contents(),
    {
        AnswerTypeABuilder { frame: self.put_type(1), has_ip: false }
    }

    /// Data of type PTR: a domain name.
    pub fn ptr(self) -> (r: AnswerTypePtrBuilder<B>)
        requires
            self.wf(),
        ensures
            r.wf(),
            !r.spec_has_name(),
            self.spec_state().has_name() ==> r.spec_frame().start == self.spec_state().data_start(),
            self.spec_state().has_name() ==> r.spec_frame().body.spec_contents() == self.spec_contents().subrange(
                0,
                self.spec_state().name_end(),
            ) + u16_bytes(12) + self.spec_contents().subrange(
                self.spec_state().name_end() + 2,
                self.spec_contents().len() as int,
            ),
            r.spec_frame().st == self.spec_state(),
            r.spec_frame().body.spec_header() == self.spec_body().spec_header(),
            r.spec_frame().body.spec_position() == self.spec_body().spec_position(),
            r.spec_frame().body.spec_buffer().capacity() == self.spec_body().spec_buffer().capacity(),
            !self.spec_state().has_name() ==> r.spec_frame().body.spec_contents() == self.spec_contents(),
    {
        AnswerTypePtrBuilder { frame: self.put_type(12), has_name: false }
    }

    /// Data of type TXT: opaque text.
    pub fn txt(self) -> (r: AnswerTypeTxtBuilder<B>)
        requires
            self.wf(),
        ensures
            r.wf(),
            !r.spec_has_txt(),
            self.spec_state().has_name() ==> r.spec_frame().start == self.spec_state().data_start(),
            self.spec_state().has_name() ==> r.spec_frame().body.spec_contents() == self.spec_contents().subrange(
                0,
                self.spec_state().name_end(),
            ) + u16_bytes(16) + self.spec_contents().subrange(
                self.spec_state().name_end() + 2,
                self.spec_contents().len() as int,
            ),
            r.spec_frame().st == self.spec_state(),
            r.spec_frame().body.spec_header() == self.spec_body().spec_header(),
            r.spec_frame().body.spec_position() == self.spec_body().spec_position(),
            r.spec_frame().body.spec_buffer().capacity() == self.spec_body().spec_buffer().capacity(),
            !self.spec_state().has_name() ==> r.spec_frame().body.spec_contents() == self.spec_contents(),
    {
        AnswerTypeTxtBuilder { frame: self.put_type(16), has_txt: false }
    }

    /// Data of type SRV: priority, weight, port and target name. Six zero
    /// bytes are reserved for the numbers; `Err` when they do not fit.
    pub fn srv(self) -> (r: Result<AnswerTypeSrvBuilder<B>, ()>)
        requires
            self.wf(),
        ensures
            r is Ok <==> (!self.spec_state().has_name() || self.spec_state().data_start() + 6
                <= self.spec_body().spec_buffer().capacity()),
            r matches Ok(b) ==> {
                &&& b.wf()
                &&& !b.spec_has_priority() && !b.spec_has_weight() && !b.spec_has_port() && !b.spec_has_name()
                &&& b.spec_frame().st == self.spec_state()
                &&& b.spec_frame().body.spec_header() == self.spec_body().spec_header()
                &&& b.spec_frame().body.spec_position() == self.spec_body().spec_position()
                &&& b.spec_frame().body.spec_buffer().capacity() == self.spec_body().spec_buffer().capacity()
                &&& !self.spec_state().has_name() ==> b.spec_frame().body.spec_contents() == self.spec_contents()
                &&& self.spec_state().has_name() ==> {
                    &&& b.spec_frame().start == self.spec_state().data_start()
                    &&& b.spec_frame().body.spec_contents() == self.spec_contents().subrange(
                        0,
                        self.spec_state().name_end(),
                    ) + u16_bytes(33) + self.spec_contents().subrange(
                        self.spec_state().name_end() + 2,
                        self.spec_contents().len() as int,
                    ) + Seq::new(6, |i: int| 0u8)
                }
            },
    {
        AnswerTypeSrvBuilder::new(self.put_type(33))
    }
}

/// An answer whose data is being written from `start` on.
pub struct DataFrame<B: ExtendableBuffer> {
    pub body: MessageBodyMut<B, AnswersSection>,
    pub st: AnswerState,
    pub start: usize,
}

impl<B: ExtendableBuffer> DataFrame<B> {
    pub open spec fn wf(&self) -> bool {
        &&& self.st.fits(self.body)
        &&& !self.st.has_type()
        &&& self.st.has_name() ==> {
            &&& self.start == self.st.data_start()
            &&& self.start <= self.body.spec_contents().len()
        }
    }

    /// `a` is this answer with its data length written and its type set.
    pub open spec fn closed_as(&self, a: AnswerBuilder<B>) -> bool {
        let c = self.body.spec_contents();
        let e = self.st.name_end();
        &&& a.wf()
        &&& a.spec_state().has_type()
        &&& a.spec_state().has_name()
        &&& a.spec_state().name_end() == e
        &&& a.spec_state().has_class() == self.st.has_class()
        &&& a.spec_state().has_ttl() == self.st.has_ttl()
        &&& a.spec_state().has_cache_flush() == self.st.has_cache_flush()
        &&& a.spec_contents() == c.subrange(0, e + 8) + u16_bytes((c.len() - self.start) as u16) + c.subrange(
            e + 10,
            c.len() as int,
        )
        &&& a.spec_body().spec_header() == self.body.spec_header()
        &&& a.spec_body().spec_position() == self.body.spec_position()
        &&& a.spec_body().spec_buffer().capacity() == self.body.spec_buffer().capacity()
    }

    /// Replaces the data with `data`. `Err` before the name, or when the
    /// buffer is full.
    fn set_data(self, data: &[u8]) -> (r: Result<Self, ()>)
        requires
            self.wf(),
        ensures
            r is Ok <==> (self.st.has_name() && self.start + data@.len() <= self.body.spec_buffer().capacity()),
            r matches Ok(f) ==> {
                &&& f.wf()
                &&& f.st == self.st
                &&& f.start == self.start
                &&& f.body.spec_contents() == self.body.spec_contents().subrange(0, self.start as int) + data@
                &&& f.body.spec_header() == self.body.spec_header()
                &&& f.body.spec_position() == self.body.spec_position()
                &&& f.body.spec_buffer().capacity() == self.body.spec_buffer().capacity()
            },
    {
        if !self.st.has_name {
            return Err(());
        }
        let mut f = self;
        f.body.cut(f.start);
        f.body.push_bytes(data)?;
        Ok(f)
    }

    /// Writes the data length and hands the answer back with its type set.
    /// `Err` before the name, or when the data is longer than 65535 bytes.
    fn close(self) -> (r: Result<AnswerBuilder<B>, ()>)
        requires
            self.wf(),
        ensures
            r is Ok <==> (self.st.has_name() && self.body.spec_contents().len() - self.start <= 0xFFFF),
            r matches Ok(a) ==> self.closed_as(a),
    {
        if !self.st.has_name {
            return Err(());
        }
        let mut body = self.body;
        let len = body.len();
        if len - self.start > 0xFFFF {
            return Err(());
        }
        let data_len = (len - self.start) as u16;
        let bytes = u16_to_be(data_len);
        body.put_bytes(self.st.name_end + 8, &bytes);
        proof {
            let c = body.spec_contents();
            let e = self.st.name_end();
            assert(c.subrange(e + 8, e + 10) =~= u16_bytes(data_len));
            crate::wire::lemma_be16_of_bytes(data_len);
            assert(be16(c, e + 8) == be16(u16_bytes(data_len), 0));
        }
        let mut st = self.st;
        st.has_type = true;
        Ok(AnswerBuilder { body, st })
    }
}

/// Writes the data of an A record.
pub struct AnswerTypeABuilder<B: ExtendableBuffer> {
    frame: DataFrame<B>,
    has_ip: bool,
}

impl<B: ExtendableBuffer> AnswerTypeABuilder<B> {
    pub closed spec fn spec_frame(&self) -> DataFrame<B> {
        self.frame
    }

    pub closed spec fn spec_has_ip(&self) -> bool {
        self.has_ip
    }

    pub open spec fn wf(&self) -> bool {
        self.spec_frame().wf()
    }

    /// Sets the address. `Err` before the answer's name, or when the buffer is full.
    pub fn ip(self, ip: &[u8; 4]) -> (r: Result<Self, ()>)
        requires
            self.wf(),
        ensures
            r is Ok <==> (self.spec_frame().st.has_name() && self.spec_frame().start + 4
                <= self.spec_frame().body.spec_buffer().capacity()),
            r matches Ok(b) ==> {
                &&& b.wf()
                &&& b.spec_has_ip()
                &&& b.spec_frame().st == self.spec_frame().st
                &&& b.spec_frame().start == self.spec_frame().start
                &&& b.spec_frame().body.spec_contents() == self.spec_frame().body.spec_contents().subrange(
                    0,
                    self.spec_frame().start as int,
                ) + ip@
            },
    {
        let frame = self.frame.set_data(ip.as_slice())?;
        Ok(AnswerTypeABuilder { frame, has_ip: true })
    }

    /// Writes the data length. `Err` unless the address is set.
    pub fn finish(self) -> (r: Result<AnswerBuilder<B>, ()>)
        requires
            self.wf(),
        ensures
            r is Ok <==> (self.spec_has_ip() && self.spec_frame().st.has_name()
                && self.spec_frame().body.spec_contents().len() - self.spec_frame().start <= 0xFFFF),
            r matches Ok(a) ==> self.spec_frame().closed_as(a),
    {
        if !self.has_ip {
            return Err(());
        }
        self.frame.close()
    }
}

/// Writes the data of a TXT record.
pub struct AnswerTypeTxtBuilder<B: ExtendableBuffer> {
    frame: DataFrame<B>,
    has_txt: bool,
}

impl<B: ExtendableBuffer> AnswerTypeTxtBuilder<B> {
    pub closed spec fn spec_frame(&self) -> DataFrame<B> {
        self.frame
    }

    pub closed spec fn spec_has_txt(&self) -> bool {
        self.has_txt
    }

    pub open spec fn wf(&self) -> bool {
        self.spec_frame().wf()
    }

    /// Sets the text, at least one byte. `Err` before the answer's name, for
    /// empty text, or when the buffer is full.
    pub fn txt(self, txt: &[u8]) -> (r: Result<Self, ()>)
        requires
            self.wf(),
        ensures
            r is Ok <==> (txt@.len() > 0 && self.spec_frame().st.has_name() && self.spec_frame().start
                + txt@.len() <= self.spec_frame().body.spec_buffer().capacity()),
            r matches Ok(b) ==> {
                &&& b.wf()
                &&& b.spec_has_txt()
                &&& b.spec_frame().st == self.spec_frame().st
                &&& b.spec_frame().start == self.spec_frame().start
                &&& b.spec_frame().body.spec_contents() == self.spec_frame().body.spec_contents().subrange(
                    0,
                    self.spec_frame().start as int,
                ) + txt@
            },
    {
        if txt.len() == 0 {
            return Err(());
        }
        let frame = self.frame.set_data(txt)?;
        Ok(AnswerTypeTxtBuilder { frame, has_txt: true })
    }

    /// Writes the data length. `Err` unless the text is set.
    pub fn finish(self) -> (r: Result<AnswerBuilder<B>, ()>)
        requires
            self.wf(),
        ensures
            r is Ok <==> (self.spec_has_txt() && self.spec_frame().st.has_name()
                && self.spec_frame().body.spec_contents().len() - self.spec_frame().start <= 0xFFFF),
            r matches Ok(a) ==> self.spec_frame().closed_as(a),
    {
        if !self.has_txt {
            return Err(());
        }
        self.frame.close()
    }
}

/// What a PTR record's name builder hands back to.
pub struct PtrName {
    st: AnswerState,
    start: usize,
}

impl NameParent for PtrName {
    open spec fn accepts(&self, position: int, name_start: int) -> bool {
        &&& self.spec_st().frames(position, self.spec_start())
        &&& self.spec_st().has_name() ==> name_start == self.spec_start()
    }
}

impl PtrName {
    pub closed spec fn spec_st(&self) -> AnswerState {
        self.st
    }

    pub closed spec fn spec_start(&self) -> int {
        self.start as int
    }
}

/// Writes the data of a PTR record.
pub struct AnswerTypePtrBuilder<B: ExtendableBuffer> {
    frame: DataFrame<B>,
    has_name: bool,
}

impl<B: ExtendableBuffer> AnswerTypePtrBuilder<B> {
    pub closed spec fn spec_frame(&self) -> DataFrame<B> {
        self.frame
    }

    pub closed spec fn spec_has_name(&self) -> bool {
        self.has_name
    }

    pub open spec fn wf(&self) -> bool {
        self.spec_frame().wf()
    }

    /// Starts the target name; a name written before is dropped.
    pub fn name(self) -> (r: NameBuilder<B, AnswersSection, PtrName>)
        requires
            self.wf(),
        ensures
            r.wf(),
            !r.spec_ended(),
            self.spec_frame().st.has_name() ==> r.spec_start() == self.spec_frame().start,
            self.spec_frame().st.has_name() ==> r.spec_contents() == self.spec_frame().body.spec_contents().subrange(
                0,
                self.spec_frame().start as int,
            ),
    {
        let mut body = self.frame.body;
        let st = self.frame.st;
        let start = self.frame.start;
        if st.has_name {
            body.cut(start);
        }
        NameBuilder::new(body, PtrName { st, start })
    }

    /// Writes the data length. `Err` unless the name is set.
    pub fn finish(self) -> (r: Result<AnswerBuilder<B>, ()>)
        requires
            self.wf(),
        ensures
            r is Ok <==> (self.spec_has_name() && self.spec_frame().st.has_name()
                && self.spec_frame().body.spec_contents().len() - self.spec_frame().start <= 0xFFFF),
            r matches Ok(a) ==> self.spec_frame().closed_as(a),
    {
        if !self.has_name {
            return Err(());
        }
        self.frame.close()
    }
}

impl<B: ExtendableBuffer> NameBuilder<B, AnswersSection, PtrName> {
    /// Ends the PTR record's target name.
    pub fn finish(self) -> (r: Result<AnswerTypePtrBuilder<B>, ()>)
        requires
            self.wf(),
        ensures
            r is Ok <==> (self.spec_contents().len() > self.spec_start() && (self.spec_ended()
                || self.spec_contents().len() + 1 <= self.spec_body().spec_buffer().capacity())),
            r matches Ok(p) ==> {
                &&& p.wf()
                &&& p.spec_has_name()
                &&& p.spec_frame().st == self.spec_parent().spec_st()
                &&& p.spec_frame().body.spec_contents() == self.spec_contents() + if self.spec_ended() {
                    Seq::<u8>::empty()
                } else {
                    seq![0u8]
                }
            },
    {
        let (body, parent) = self.close()?;
        Ok(AnswerTypePtrBuilder { frame: DataFrame { body, st: parent.st, start: parent.start }, has_name: true })
    }
}

/// What an SRV record's name builder hands back to.
pub struct SrvName {
    st: AnswerState,
    start: usize,
    has_priority: bool,
    has_weight: bool,
    has_port: bool,
}

impl NameParent for SrvName {
    open spec fn accepts(&self, position: int, name_start: int) -> bool {
        &&& self.spec_st().frames(position, self.spec_start())
        &&& self.spec_st().has_name() ==> name_start == self.spec_start() + 6
    }
}

impl SrvName {
    pub closed spec fn spec_st(&self) -> AnswerState {
        self.st
    }

    pub closed spec fn spec_start(&self) -> int {
        self.start as int
    }
}

/// Writes the data of an SRV record: priority, weight and port (two bytes
/// each), then the target name.
pub struct AnswerTypeSrvBuilder<B: ExtendableBuffer> {
    frame: DataFrame<B>,
    has_priority: bool,
    has_weight: bool,
    has_port: bool,
    has_name: bool,
}

impl<B: ExtendableBuffer> AnswerTypeSrvBuilder<B> {
    pub closed spec fn spec_frame(&self) -> DataFrame<B> {
        self.frame
    }

    pub closed spec fn spec_has_priority(&self) -> bool {
        self.has_priority
    }

    pub closed spec fn spec_has_weight(&self) -> bool {
        self.has_weight
    }

    pub closed spec fn spec_has_port(&self) -> bool {
        self.has_port
    }

    pub closed spec fn spec_has_name(&self) -> bool {
        self.has_name
    }

    /// Once the answer's name is written, six bytes of numbers follow the
    /// data start.
    pub open spec fn wf(&self) -> bool {
        &&& self.spec_frame().wf()
        &&& self.spec_frame().st.has_name() ==> self.spec_frame().start + 6 <= self.spec_frame().body.spec_contents().len()
    }

    /// A builder over an answer whose data starts empty: six zero bytes are
    /// reserved for the numbers. `Err` when they do not fit.
    pub(crate) fn new(frame: DataFrame<B>) -> (r: Result<Self, ()>)
        requires
            frame.wf(),
            frame.st.has_name() ==> frame.body.spec_contents().len() == frame.start,
        ensures
            r is Ok <==> (!frame.st.has_name() || frame.start + 6 <= frame.body.spec_buffer().capacity()),
            r matches Ok(b) ==> {
                &&& b.wf()
                &&& !b.spec_has_priority() && !b.spec_has_weight() && !b.spec_has_port() && !b.spec_has_name()
                &&& b.spec_frame().st == frame.st
                &&& b.spec_frame().start == frame.start
                &&& frame.st.has_name() ==> b.spec_frame().body.spec_contents() == frame.body.spec_contents()
                    + Seq::new(6, |i: int| 0u8)
                &&& !frame.st.has_name() ==> b.spec_frame().body.spec_contents() == frame.body.spec_contents()
                &&& b.spec_frame().body.spec_header() == frame.body.spec_header()
                &&& b.spec_frame().body.spec_position() == frame.body.spec_position()
                &&& b.spec_frame().body.spec_buffer().capacity() == frame.body.spec_buffer().capacity()
            },
    {
        let mut frame = frame;
        if frame.st.has_name {
            let zeros = [0u8; 6];
            frame.body.push_bytes(&zeros)?;
            assert(zeros@ =~= Seq::new(6, |i: int| 0u8));
        }
        Ok(AnswerTypeSrvBuilder { frame, has_priority: false, has_weight: false, has_port: false, has_name: false })
    }

    fn set_number(self, offset: usize, value: u16) -> (r: Result<Self, ()>)
        requires
            self.wf(),
            offset <= 4,
        ensures
            r is Ok <==> self.spec_frame().st.has_name(),
            r matches Ok(b) ==> {
                let c = self.spec_frame().body.spec_contents();
                let at = self.spec_frame().start + offset;
                &&& b.wf()
                &&& b.spec_frame().st == self.spec_frame().st
                &&& b.spec_frame().start == self.spec_frame().start
                &&& b.spec_frame().body.spec_contents() == c.subrange(0, at) + u16_bytes(value) + c.subrange(at + 2, c.len() as int)
                &&& b.spec_frame().body.spec_header() == self.spec_frame().body.spec_header()
                &&& b.spec_frame().body.spec_position() == self.spec_frame().body.spec_position()
                &&& b.spec_frame().body.spec_buffer().capacity() == self.spec_frame().body.spec_buffer().capacity()
                &&& b.spec_has_priority() == self.spec_has_priority()
                &&& b.spec_has_weight() == self.spec_has_weight()
                &&& b.spec_has_port() == self.spec_has_port()
                &&& b.spec_has_name() == self.spec_has_name()
            },
    {
        if !self.frame.st.has_name {
            return Err(());
        }
        let mut b = self;
        let bytes = u16_to_be(value);
        b.frame.body.put_bytes(b.frame.start + offset, &bytes);
        proof {
            let c = b.frame.body.spec_contents();
            let e = self.spec_frame().st.name_end();
            assert(c.subrange(e + 8, e + 10) =~= self.spec_frame().body.spec_contents().subrange(e + 8, e + 10));
        }
        Ok(b)
    }

    /// Sets the priority. `Err` before the answer's name.
    pub fn priority(self, priority: u16) -> (r: Result<Self, ()>)
        requires
            self.wf(),
        ensures
            r is Ok <==> self.spec_frame().st.has_name(),
            r matches Ok(b) ==> {
                let c = self.spec_frame().body.spec_contents();
                let at = self.spec_frame().start + 0;
                &&& b.wf()
                &&& b.spec_frame().st == self.spec_frame().st
                &&& b.spec_frame().start == self.spec_frame().start
                &&& b.spec_frame().body.spec_contents() == c.subrange(0, at) + u16_bytes(priority) + c.subrange(at + 2, c.len() as int)
                &&& b.spec_frame().body.spec_header() == self.spec_frame().body.spec_header()
                &&& b.spec_frame().body.spec_position() == self.spec_frame().body.spec_position()
                &&& b.spec_frame().body.spec_buffer().capacity() == self.spec_frame().body.spec_buffer().capacity()
                &&& b.spec_has_priority()
                &&& b.spec_has_weight() == self.spec_has_weight()
                &&& b.spec_has_port() == self.spec_has_port()
                &&& b.spec_has_name() == self.spec_has_name()
            },
    {
        let mut b = self.set_number(0, priority)?;
        b.has_priority = true;
        proof {
            let s = b.spec_frame().start as int;
            assert(b.spec_frame().body.spec_contents().subrange(s, s + 2) =~= u16_bytes(priority));
        }
        Ok(b)
    }

    /// Sets the weight. `Err` before the answer's name.
    pub fn weight(self, weight: u16) -> (r: Result<Self, ()>)
        requires
            self.wf(),
        ensures
            r is Ok <==> self.spec_frame().st.has_name(),
            r matches Ok(b) ==> {
                let c = self.spec_frame().body.spec_contents();
                let at = self.spec_frame().start + 2;
                &&& b.wf()
                &&& b.spec_frame().st == self.spec_frame().st
                &&& b.spec_frame().start == self.spec_frame().start
                &&& b.spec_frame().body.spec_contents() == c.subrange(0, at) + u16_bytes(weight) + c.subrange(at + 2, c.len() as int)
                &&& b.spec_frame().body.spec_header() == self.spec_frame().body.spec_header()
                &&& b.spec_frame().body.spec_position() == self.spec_frame().body.spec_position()
                &&& b.spec_frame().body.spec_buffer().capacity() == self.spec_frame().body.spec_buffer().capacity()
                &&& b.spec_has_weight()
                &&& b.spec_has_priority() == self.spec_has_priority()
                &&& b.spec_has_port() == self.spec_has_port()
                &&& b.spec_has_name() == self.spec_has_name()
            },
    {
        let mut b = self.set_number(2, weight)?;
        b.has_weight = true;
        proof {
            let s = b.spec_frame().start as int;
            assert(b.spec_frame().body.spec_contents().subrange(s + 2, s + 4) =~= u16_bytes(weight));
        }
        Ok(b)
    }

    /// Sets the port. `Err` before the answer's name.
    pub fn port(self, port: u16) -> (r: Result<Self, ()>)
        requires
            self.wf(),
        ensures
            r is Ok <==> self.spec_frame().st.has_name(),
            r matches Ok(b) ==> {
                let c = self.spec_frame().body.spec_contents();
                let at = self.spec_frame().start + 4;
                &&& b.wf()
                &&& b.spec_frame().st == self.spec_frame().st
                &&& b.spec_frame().start == self.spec_frame().start
                &&& b.spec_frame().body.spec_contents() == c.subrange(0, at) + u16_bytes(port) + c.subrange(at + 2, c.len() as int)
                &&& b.spec_frame().body.spec_header() == self.spec_frame().body.spec_header()
                &&& b.spec_frame().body.spec_position() == self.spec_frame().body.spec_position()
                &&& b.spec_frame().body.spec_buffer().capacity() == self.spec_frame().body.spec_buffer().capacity()
                &&& b.spec_has_port()
                &&& b.spec_has_priority() == self.spec_has_priority()
                &&& b.spec_has_weight() == self.spec_has_weight()
                &&& b.spec_has_name() == self.spec_has_name()
            },
    {
        let mut b = self.set_number(4, port)?;
        b.has_port = true;
        proof {
            let s = b.spec_frame().start as int;
            assert(b.spec_frame().body.spec_contents().subrange(s + 4, s + 6) =~= u16_bytes(port));
        }
        Ok(b)
    }

    /// Starts the target name; a name written before is dropped.
    pub fn name(self) -> (r: NameBuilder<B, AnswersSection, SrvName>)
        requires
            self.wf(),
        ensures
            r.wf(),
            !r.spec_ended(),
            self.spec_frame().st.has_name() ==> r.spec_contents() == self.spec_frame().body.spec_contents().subrange(
                0,
                self.spec_frame().start + 6,
            ),
    {
        let mut body = self.frame.body;
        let st = self.frame.st;
        let start = self.frame.start;
        if st.has_name {
            body.cut(start + 6);
        }
        NameBuilder::new(
            body,
            SrvName {
                st,
                start,
                has_priority: self.has_priority,
                has_weight: self.has_weight,
                has_port: self.has_port,
            },
        )
    }

    /// Writes the data length. `Err` unless priority, weight, port and name are set.
    pub fn finish(self) -> (r: Result<AnswerBuilder<B>, ()>)
        requires
            self.wf(),
        ensures
            r is Ok <==> (self.spec_has_priority() && self.spec_has_weight() && self.spec_has_port()
                && self.spec_has_name() && self.spec_frame().st.has_name()
                && self.spec_frame().body.spec_contents().len() - self.spec_frame().start <= 0xFFFF),
            r matches Ok(a) ==> self.spec_frame().closed_as(a),
    {
        if !(self.has_priority && self.has_weight && self.has_port && self.has_name) {
            return Err(());
        }
        self.frame.close()
    }
}

impl<B: ExtendableBuffer> NameBuilder<B, AnswersSection, SrvName> {
    /// Ends the SRV record's target name.
    pub fn finish(self) -> (r: Result<AnswerTypeSrvBuilder<B>, ()>)
        requires
            self.wf(),
        ensures
            r is Ok <==> (self.spec_contents().len() > self.spec_start() && (self.spec_ended()
                || self.spec_contents().len() + 1 <= self.spec_body().spec_buffer().capacity())),
            r matches Ok(p) ==> {
                &&& p.wf()
                &&& p.spec_has_name()
                &&& p.spec_frame().st == self.spec_parent().spec_st()
                &&& p.spec_frame().body.spec_contents() == self.spec_contents() + if self.spec_ended() {
                    Seq::<u8>::empty()
                } else {
                    seq![0u8]
                }
            },
    {
        let (body, parent) = self.close()?;
        Ok(AnswerTypeSrvBuilder {
            frame: DataFrame { body, st: parent.st, start: parent.start },
            has_priority: parent.has_priority,
            has_weight: parent.has_weight,
            has_port: parent.has_port,
            has_name: true,
        })
    }
}

impl<B: ExtendableBuffer> MessageBodyMut<B, AnswersSection> {
    /// Starts an answer after the answers already stored. Every byte after the
    /// last of them is dropped first.
    pub fn append_answer(self) -> (r: AnswerBuilder<B>)
        requires
            self.wf(),
        ensures
            r.wf(),
            !r.spec_state().has_name(),
            ({
                let (end, left) = skip_answers(self.spec_contents(), self.spec_position(), self.spec_answer_count() as nat);
                &&& r.spec_body().spec_position() == end
                &&& r.spec_contents() == r.spec_body().spec_header().spec_bytes() + self.spec_contents().subrange(HEADER_LEN as int, end)
            }),
            r.spec_body().spec_header().spec_question_count() == self.spec_header().spec_question_count(),
            r.spec_body().spec_header().spec_id() == self.spec_header().spec_id(),
            r.spec_body().spec_header().spec_flags() == self.spec_header().spec_flags(),
            r.spec_body().spec_buffer().capacity() == self.spec_buffer().capacity(),
    {
        AnswerBuilder::new(self.prepare_answer())
    }
}

} // verus!
