//! Building a question record: a name, then its type and class, then finish.
use vstd::prelude::*;
use crate::wire::{u16_bytes, u16_to_be};
use crate::buffer::ExtendableBuffer;
use crate::header::{Header, HEADER_LEN};
use crate::body::{MessageBodyMut, QuestionsSection, skip_questions};
use crate::name_builder::{NameBuilder, NameParent};
use crate::question::{QType, QClass};

verus! {

/// What a question's name builder hands back to: nothing beyond the body.
pub struct QuestionName;

impl NameParent for QuestionName {
    open spec fn accepts(&self, position: int, name_start: int) -> bool {
        true
    }
}

/// Builds one question at the cursor of a body. The name comes first; type
/// and class may then be set in any order; `finish` adds the question to the
/// header's count only when all three are set.
pub struct QuestionBuilder<B: ExtendableBuffer> {
    body: MessageBodyMut<B, QuestionsSection>,
    name_end: usize,
    has_name: bool,
    has_type: bool,
    has_class: bool,
}

impl<B: ExtendableBuffer> QuestionBuilder<B> {
    pub closed spec fn spec_body(&self) -> MessageBodyMut<B, QuestionsSection> {
        self.body
    }

    /// Where the name ends and the type begins.
    pub closed spec fn spec_name_end(&self) -> int {
        self.name_end as int
    }

    pub closed spec fn spec_has_name(&self) -> bool {
        self.has_name
    }

    pub closed spec fn spec_has_type(&self) -> bool {
        self.has_type
    }

    pub closed spec fn spec_has_class(&self) -> bool {
        self.has_class
    }

    pub open spec fn spec_contents(&self) -> Seq<u8> {
        self.spec_body().spec_contents()
    }

    pub open spec fn wf(&self) -> bool {
        &&& self.spec_body().wf()
        &&& self.spec_has_name() ==> {
            &&& self.spec_body().spec_position() < self.spec_name_end()
            &&& self.spec_name_end() + 4 == self.spec_contents().len()
        }
        &&& !self.spec_has_name() ==> !self.spec_has_type() && !self.spec_has_class()
    }

    /// A builder for a question at the body's cursor.
    pub fn new(body: MessageBodyMut<B, QuestionsSection>) -> (r: Self)
        requires
            body.wf(),
        ensures
            r.wf(),
            r.spec_body() == body,
            !r.spec_has_name(),
    {
        QuestionBuilder { body, name_end: 0, has_name: false, has_type: false, has_class: false }
    }

    /// Starts the name; whatever was written for this question before is dropped.
    pub fn name(self) -> (r: NameBuilder<B, QuestionsSection, QuestionName>)
        requires
            self.wf(),
        ensures
            r.wf(),
            !r.spec_ended(),
            r.spec_start() == self.spec_body().spec_position(),
            r.spec_contents() == self.spec_contents().subrange(0, self.spec_body().spec_position()),
            r.spec_body().spec_header() == self.spec_body().spec_header(),
            r.spec_body().spec_position() == self.spec_body().spec_position(),
            r.spec_body().spec_buffer().capacity() == self.spec_body().spec_buffer().capacity(),
    {
        let mut body = self.body;
        let pos = body.position();
        body.cut(pos);
        assert(body.spec_contents() =~= self.spec_contents().subrange(0, self.spec_body().spec_position()));
        NameBuilder::new(body, QuestionName)
    }

    /// Sets the type. `Err` before the name, or for `Reserved`, which has no code.
    pub fn qtype(self, value: QType) -> (r: Result<Self, ()>)
        requires
            self.wf(),
        ensures
            r is Ok <==> (self.spec_has_name() && value.spec_code() is Some),
            r matches Ok(q) ==> {
                &&& q.wf()
                &&& q.spec_contents() == self.spec_contents().subrange(0, self.spec_name_end()) + u16_bytes(
                    value.spec_code()->0,
                ) + self.spec_contents().subrange(self.spec_name_end() + 2, self.spec_contents().len() as int)
                &&& q.spec_has_type() && q.spec_has_class() == self.spec_has_class() && q.spec_has_name()
                &&& q.spec_name_end() == self.spec_name_end()
                &&& q.spec_body().spec_header() == self.spec_body().spec_header()
                &&& q.spec_body().spec_position() == self.spec_body().spec_position()
                &&& q.spec_body().spec_buffer().capacity() == self.spec_body().spec_buffer().capacity()
            },
    {
        if !self.has_name {
            return Err(());
        }
        let code = value.code()?;
        let bytes = u16_to_be(code);
        let mut q = self;
        q.body.put_bytes(q.name_end, &bytes);
        q.has_type = true;
        Ok(q)
    }

    /// Sets the class. `Err` before the name, or for `Reserved`, which has no code.
    pub fn qclass(self, value: QClass) -> (r: Result<Self, ()>)
        requires
            self.wf(),
        ensures
            r is Ok <==> (self.spec_has_name() && value.spec_code() is Some),
            r matches Ok(q) ==> {
                &&& q.wf()
                &&& q.spec_contents() == self.spec_contents().subrange(0, self.spec_name_end() + 2) + u16_bytes(
                    value.spec_code()->0,
                )
                &&& q.spec_has_class() && q.spec_has_type() == self.spec_has_type() && q.spec_has_name()
                &&& q.spec_name_end() == self.spec_name_end()
                &&& q.spec_body().spec_header() == self.spec_body().spec_header()
                &&& q.spec_body().spec_position() == self.spec_body().spec_position()
                &&& q.spec_body().spec_buffer().capacity() == self.spec_body().spec_buffer().capacity()
            },
    {
        if !self.has_name {
            return Err(());
        }
        let code = value.code()?;
        let bytes = u16_to_be(code);
        let mut q = self;
        q.body.put_bytes(q.name_end + 2, &bytes);
        assert(q.spec_contents() =~= self.spec_contents().subrange(0, self.spec_name_end() + 2) + u16_bytes(code));
        q.has_class = true;
        Ok(q)
    }

    /// Adds the question to the header's count and moves the cursor past it.
    /// `Err` unless name, type and class are all set, or when the count is full.
    pub fn finish(self) -> (r: Result<MessageBodyMut<B, QuestionsSection>, ()>)
        requires
            self.wf(),
        ensures
            r is Ok <==> (self.spec_has_name() && self.spec_has_type() && self.spec_has_class()
                && self.spec_body().spec_header().spec_question_count() < 0xFFFF),
            r matches Ok(b) ==> {
                let h = b.spec_header();
                let old_h = self.spec_body().spec_header();
                &&& b.wf()
                &&& h.spec_question_count() == old_h.spec_question_count() + 1
                &&& h.spec_answer_count() == old_h.spec_answer_count()
                &&& h.spec_id() == old_h.spec_id()
                &&& h.spec_flags() == old_h.spec_flags()
                &&& h.spec_name_server_count() == old_h.spec_name_server_count()
                &&& h.spec_additional_records_count() == old_h.spec_additional_records_count()
                &&& b.spec_contents() == h.spec_bytes() + self.spec_contents().subrange(
                    HEADER_LEN as int,
                    self.spec_contents().len() as int,
                )
                &&& b.spec_position() == self.spec_contents().len()
                &&& b.spec_buffer().capacity() == self.spec_body().spec_buffer().capacity()
                &&& b.spec_question_count() == 0
                &&& b.spec_answer_count() == 0
            },
    {
        if !(self.has_name && self.has_type && self.has_class) {
            return Err(());
        }
        let mut h: Header = *self.body.header();
        let count = h.question_count();
        if count == 0xFFFF {
            return Err(());
        }
        h.set_question_count(count + 1);
        Ok(self.body.commit(h))
    }

    /// Gives up this question: the body is handed back with its cursor where
    /// the question would have started, and the bytes written so far stay
    /// until the next append drops them.
    pub fn cancel(self) -> (r: MessageBodyMut<B, QuestionsSection>)
        requires
            self.wf(),
        ensures
            r == self.spec_body(),
    {
        self.body
    }
}

impl<B: ExtendableBuffer> NameBuilder<B, QuestionsSection, QuestionName> {
    /// Ends the question's name and reserves its type and class.
    pub fn finish(self) -> (r: Result<QuestionBuilder<B>, ()>)
        requires
            self.wf(),
        ensures
            r is Ok <==> (self.spec_contents().len() > self.spec_start() && self.spec_contents().len()
                + (if self.spec_ended() { 0int } else { 1int }) + 4 <= self.spec_body().spec_buffer().capacity()),
            r matches Ok(q) ==> {
                &&& q.wf()
                &&& q.spec_has_name() && !q.spec_has_type() && !q.spec_has_class()
                &&& q.spec_contents() == self.spec_contents() + (if self.spec_ended() {
                    Seq::<u8>::empty()
                } else {
                    seq![0u8]
                }) + seq![0u8, 0u8, 0u8, 0u8]
                &&& q.spec_name_end() + 4 == q.spec_contents().len()
                &&& q.spec_body().spec_header() == self.spec_body().spec_header()
                &&& q.spec_body().spec_position() == self.spec_body().spec_position()
                &&& q.spec_body().spec_buffer().capacity() == self.spec_body().spec_buffer().capacity()
            },
    {
        let (mut body, _parent) = self.close()?;
        let name_end = body.len();
        let reserved = [0u8; 4];
        body.push_bytes(&reserved)?;
        assert(reserved@ =~= seq![0u8, 0u8, 0u8, 0u8]);
        Ok(QuestionBuilder { body, name_end, has_name: true, has_type: false, has_class: false })
    }
}

impl<B: ExtendableBuffer> MessageBodyMut<B, QuestionsSection> {
    /// Starts a question after the questions already stored. Every byte after
    /// the last of them is dropped first, answers included, and the header's
    /// answer count becomes zero.
    pub fn append_question(self) -> (r: QuestionBuilder<B>)
        requires
            self.wf(),
        ensures
            r.wf(),
            !r.spec_has_name(),
            ({
                let (end, left) = skip_questions(self.spec_contents(), self.spec_position(), self.spec_question_count() as nat);
                &&& r.spec_body().spec_position() == end
                &&& r.spec_contents() == r.spec_body().spec_header().spec_bytes() + self.spec_contents().subrange(HEADER_LEN as int, end)
            }),
            r.spec_body().spec_header().spec_answer_count() == 0,
            r.spec_body().spec_header().spec_id() == self.spec_header().spec_id(),
            r.spec_body().spec_header().spec_flags() == self.spec_header().spec_flags(),
            r.spec_body().spec_buffer().capacity() == self.spec_buffer().capacity(),
    {
        QuestionBuilder::new(self.prepare_question())
    }
}

} // verus!
