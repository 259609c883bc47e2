//! The message body: a cursor over the question section, then the answer section.
use vstd::prelude::*;
use core::marker::PhantomData;
use crate::question::{Question, question_end, question_read_from};
use crate::answer::{Answer, answer_end, answer_name_end, answer_read_from};
use crate::header::{Header, HEADER_LEN};
use crate::buffer::{Buffer, MutBuffer, ExtendableBuffer};
use crate::name_builder::NamePart;

verus! {

/// A section of the message body that a cursor can stand in.
pub trait Section {}

/// The cursor stands in the question section.
pub struct QuestionsSection;

impl Section for QuestionsSection {}

/// The cursor stands in the answer section.
pub struct AnswersSection;

impl Section for AnswersSection {}

/// Where the cursor stands after skipping up to `count` questions from `pos`,
/// and how many are left: skipping stops at the first question that does not parse.
pub open spec fn skip_questions(b: Seq<u8>, pos: int, count: nat) -> (int, nat)
    decreases count,
{
    if count == 0 {
        (pos, 0)
    } else {
        match question_end(b, pos) {
            None => (pos, count),
            Some(e) => skip_questions(b, e, (count - 1) as nat),
        }
    }
}

/// Where the cursor stands after skipping up to `count` answers from `pos`,
/// and how many are left: skipping stops at the first answer that does not parse.
pub open spec fn skip_answers(b: Seq<u8>, pos: int, count: nat) -> (int, nat)
    decreases count,
{
    if count == 0 {
        (pos, 0)
    } else {
        match answer_end(b, pos) {
            None => (pos, count),
            Some(e) => skip_answers(b, e, (count - 1) as nat),
        }
    }
}

/// Skips up to `count` questions from `pos`.
pub fn skip_questions_exec(b: &[u8], pos: usize, count: u16) -> (r: (usize, u16))
    ensures
        (r.0 as int, r.1 as nat) == skip_questions(b@, pos as int, count as nat),
{
    let mut p = pos;
    let mut c = count;
    while c > 0
        invariant
            skip_questions(b@, p as int, c as nat) == skip_questions(b@, pos as int, count as nat),
        decreases c,
    {
        let mut k = p;
        match Question::parse(b, &mut k) {
            Ok(_) => {
                p = k;
                c = c - 1;
            },
            Err(()) => {
                return (p, c);
            },
        }
    }
    (p, c)
}

/// Skips up to `count` answers from `pos`.
pub fn skip_answers_exec(b: &[u8], pos: usize, count: u16) -> (r: (usize, u16))
    ensures
        (r.0 as int, r.1 as nat) == skip_answers(b@, pos as int, count as nat),
{
    let mut p = pos;
    let mut c = count;
    while c > 0
        invariant
            skip_answers(b@, p as int, c as nat) == skip_answers(b@, pos as int, count as nat),
        decreases c,
    {
        let mut k = p;
        match Answer::parse(b, &mut k) {
            Ok(_) => {
                p = k;
                c = c - 1;
            },
            Err(()) => {
                return (p, c);
            },
        }
    }
    (p, c)
}

/// A read cursor over the body of a parsed message.
pub struct MessageBody<'a, S: Section> {
    bytes: &'a [u8],
    position: usize,
    question_count: u16,
    answer_count: u16,
    section: PhantomData<S>,
}

impl<'a, S: Section> MessageBody<'a, S> {
    pub closed spec fn spec_bytes(&self) -> Seq<u8> {
        self.bytes@
    }

    /// Where the cursor stands.
    pub closed spec fn spec_position(&self) -> int {
        self.position as int
    }

    /// Questions not yet skipped.
    pub closed spec fn spec_question_count(&self) -> u16 {
        self.question_count
    }

    /// Answers not yet skipped.
    pub closed spec fn spec_answer_count(&self) -> u16 {
        self.answer_count
    }

    pub(crate) fn new(bytes: &'a [u8], question_count: u16, answer_count: u16) -> (r: Self)
        ensures
            r.spec_bytes() == bytes@,
            r.spec_position() == HEADER_LEN,
            r.spec_question_count() == question_count,
            r.spec_answer_count() == answer_count,
    {
        MessageBody { bytes, position: HEADER_LEN, question_count, answer_count, section: PhantomData }
    }
}

impl<'a> MessageBody<'a, QuestionsSection> {
    /// The questions from the cursor on. Iterating them does not move the
    /// body's own cursor.
    pub fn questions(&mut self) -> (r: Questions<'a>)
        ensures
            *final(self) == *old(self),
            r.spec_bytes() == old(self).spec_bytes(),
            r.spec_position() == old(self).spec_position(),
            r.spec_count() == old(self).spec_question_count(),
    {
        Questions { bytes: self.bytes, position: self.position, count: self.question_count }
    }

    /// Skips the questions not yet skipped, stopping at the first that does
    /// not parse, and moves the cursor to the answer section.
    pub fn to_answer_section(self) -> (r: MessageBody<'a, AnswersSection>)
        ensures
            r.spec_bytes() == self.spec_bytes(),
            (r.spec_position(), r.spec_question_count() as nat) == skip_questions(
                self.spec_bytes(),
                self.spec_position(),
                self.spec_question_count() as nat,
            ),
            r.spec_answer_count() == self.spec_answer_count(),
    {
        let (position, question_count) = skip_questions_exec(self.bytes, self.position, self.question_count);
        MessageBody {
            bytes: self.bytes,
            position,
            question_count,
            answer_count: self.answer_count,
            section: PhantomData,
        }
    }
}

impl<'a> MessageBody<'a, AnswersSection> {
    /// The answers from the cursor on. Iterating them does not move the
    /// body's own cursor.
    pub fn answers(&mut self) -> (r: Answers<'a>)
        ensures
            *final(self) == *old(self),
            r.spec_bytes() == old(self).spec_bytes(),
            r.spec_position() == old(self).spec_position(),
            r.spec_count() == old(self).spec_answer_count(),
    {
        Answers { bytes: self.bytes, position: self.position, count: self.answer_count }
    }
}

/// The questions of a message, one at a time, up to the announced count.
pub struct Questions<'a> {
    bytes: &'a [u8],
    position: usize,
    count: u16,
}

impl<'a> Questions<'a> {
    pub closed spec fn spec_bytes(&self) -> Seq<u8> {
        self.bytes@
    }

    pub closed spec fn spec_position(&self) -> int {
        self.position as int
    }

    /// Questions left to yield.
    pub closed spec fn spec_count(&self) -> u16 {
        self.count
    }

    /// The next question; `None` once the count is used up or at the first
    /// question that does not parse.
    pub fn next(&mut self) -> (r: Option<Question<'a>>)
        ensures
            final(self).spec_bytes() == old(self).spec_bytes(),
            r is Some <==> (old(self).spec_count() > 0 && question_end(old(self).spec_bytes(), old(self).spec_position()) is Some),
            r matches Some(q) ==> {
                &&& question_read_from(q, old(self).spec_bytes(), old(self).spec_position())
                &&& Some(final(self).spec_position()) == question_end(old(self).spec_bytes(), old(self).spec_position())
                &&& final(self).spec_count() == old(self).spec_count() - 1
            },
            r is None ==> *final(self) == *old(self),
    {
        if self.count == 0 {
            return None;
        }
        let mut k = self.position;
        match Question::parse(self.bytes, &mut k) {
            Ok(q) => {
                self.position = k;
                self.count = self.count - 1;
                Some(q)
            },
            Err(()) => None,
        }
    }
}

/// The answers of a message, one at a time, up to the announced count.
pub struct Answers<'a> {
    bytes: &'a [u8],
    position: usize,
    count: u16,
}

impl<'a> Answers<'a> {
    pub closed spec fn spec_bytes(&self) -> Seq<u8> {
        self.bytes@
    }

    pub closed spec fn spec_position(&self) -> int {
        self.position as int
    }

    /// Answers left to yield.
    pub closed spec fn spec_count(&self) -> u16 {
        self.count
    }

    /// The next answer; `None` once the count is used up or at the first
    /// answer that does not parse.
    pub fn next(&mut self) -> (r: Option<Answer<'a>>)
        ensures
            final(self).spec_bytes() == old(self).spec_bytes(),
            r is Some <==> (old(self).spec_count() > 0 && answer_name_end(old(self).spec_bytes(), old(self).spec_position()) is Some),
            r matches Some(a) ==> {
                &&& answer_read_from(a, old(self).spec_bytes(), old(self).spec_position())
                &&& Some(final(self).spec_position()) == answer_end(old(self).spec_bytes(), old(self).spec_position())
                &&& final(self).spec_count() == old(self).spec_count() - 1
            },
            r is None ==> *final(self) == *old(self),
    {
        if self.count == 0 {
            return None;
        }
        let mut k = self.position;
        match Answer::parse(self.bytes, &mut k) {
            Ok(a) => {
                self.position = k;
                self.count = self.count - 1;
                Some(a)
            },
            Err(()) => None,
        }
    }
}

/// A write cursor over the body of a message being built. It owns the buffer;
/// the buffer always starts with the header's bytes.
pub struct MessageBodyMut<B: ExtendableBuffer, S: Section> {
    buffer: B,
    header: Header,
    position: usize,
    question_count: u16,
    answer_count: u16,
    section: PhantomData<S>,
}

impl<B: ExtendableBuffer, S: Section> MessageBodyMut<B, S> {
    pub closed spec fn spec_buffer(&self) -> B {
        self.buffer
    }

    pub closed spec fn spec_header(&self) -> Header {
        self.header
    }

    /// Where the record that is written next starts.
    pub closed spec fn spec_position(&self) -> int {
        self.position as int
    }

    /// Questions stored after the cursor and not yet skipped.
    pub closed spec fn spec_question_count(&self) -> u16 {
        self.question_count
    }

    /// Answers stored after the cursor and not yet skipped.
    pub closed spec fn spec_answer_count(&self) -> u16 {
        self.answer_count
    }

    pub open spec fn spec_contents(&self) -> Seq<u8> {
        self.spec_buffer().contents()
    }

    /// The buffer starts with the header and fits its capacity; the cursor
    /// lies past the header and within the buffer.
    pub open spec fn wf(&self) -> bool {
        &&& self.spec_contents().len() <= self.spec_buffer().capacity() <= usize::MAX
        &&& HEADER_LEN <= self.spec_position() <= self.spec_contents().len()
        &&& self.spec_contents().subrange(0, HEADER_LEN as int) == self.spec_header().spec_bytes()
    }

    pub(crate) fn from_parts(buffer: B, header: Header, question_count: u16, answer_count: u16) -> (r: Self)
        requires
            buffer.contents().len() <= buffer.capacity(),
            HEADER_LEN <= buffer.contents().len(),
            buffer.contents().subrange(0, HEADER_LEN as int) == header.spec_bytes(),
        ensures
            r.wf(),
            r.spec_buffer() == buffer,
            r.spec_header() == header,
            r.spec_position() == HEADER_LEN,
            r.spec_question_count() == question_count,
            r.spec_answer_count() == answer_count,
    {
        proof {
            buffer.lemma_capacity_fits();
        }
        MessageBodyMut { buffer, header, position: HEADER_LEN, question_count, answer_count, section: PhantomData }
    }

    /// The header as it stands in the buffer.
    pub fn header(&self) -> (r: &Header)
        ensures
            *r == self.spec_header(),
    {
        &self.header
    }

    /// Hands back the buffer and the header.
    pub(crate) fn into_parts(self) -> (r: (B, Header))
        ensures
            r.0 == self.spec_buffer(),
            r.1 == self.spec_header(),
    {
        (self.buffer, self.header)
    }

    /// Writes `h` as the header, in the field and in the buffer.
    fn put_header(&mut self, h: Header)
        requires
            old(self).wf(),
        ensures
            final(self).wf(),
            final(self).spec_header() == h,
            final(self).spec_contents() == h.spec_bytes() + old(self).spec_contents().subrange(
                HEADER_LEN as int,
                old(self).spec_contents().len() as int,
            ),
            final(self).spec_buffer().capacity() == old(self).spec_buffer().capacity(),
            final(self).spec_position() == old(self).spec_position(),
            final(self).spec_question_count() == old(self).spec_question_count(),
            final(self).spec_answer_count() == old(self).spec_answer_count(),
    {
        let bytes = h.to_bytes();
        let r = self.buffer.write_at(0, &bytes);
        assert(r is Ok);
        self.header = h;
        assert(self.spec_contents().subrange(0, HEADER_LEN as int) =~= h.spec_bytes());
        assert(self.spec_contents() =~= h.spec_bytes() + old(self).spec_contents().subrange(
            HEADER_LEN as int,
            old(self).spec_contents().len() as int,
        ));
    }

    /// Appends bytes of the record under construction.
    pub(crate) fn push_bytes(&mut self, data: &[u8]) -> (r: Result<(), ()>)
        requires
            old(self).wf(),
        ensures
            final(self).wf(),
            r is Ok <==> old(self).spec_contents().len() + data@.len() <= old(self).spec_buffer().capacity(),
            r is Ok ==> final(self).spec_contents() == old(self).spec_contents() + data@,
            r is Err ==> final(self).spec_contents() == old(self).spec_contents(),
            final(self).spec_buffer().capacity() == old(self).spec_buffer().capacity(),
            final(self).spec_header() == old(self).spec_header(),
            final(self).spec_position() == old(self).spec_position(),
            final(self).spec_question_count() == old(self).spec_question_count(),
            final(self).spec_answer_count() == old(self).spec_answer_count(),
    {
        let r = self.buffer.extend_from_slice(data);
        assert(self.spec_contents().subrange(0, HEADER_LEN as int) =~= old(self).spec_contents().subrange(0, HEADER_LEN as int));
        r
    }

    /// Overwrites bytes of the record under construction.
    pub(crate) fn put_bytes(&mut self, offset: usize, data: &[u8])
        requires
            old(self).wf(),
            old(self).spec_position() <= offset,
            offset + data@.len() <= old(self).spec_contents().len(),
        ensures
            final(self).wf(),
            final(self).spec_contents() == old(self).spec_contents().subrange(0, offset as int) + data@
                + old(self).spec_contents().subrange(offset + data@.len(), old(self).spec_contents().len() as int),
            final(self).spec_buffer().capacity() == old(self).spec_buffer().capacity(),
            final(self).spec_header() == old(self).spec_header(),
            final(self).spec_position() == old(self).spec_position(),
            final(self).spec_question_count() == old(self).spec_question_count(),
            final(self).spec_answer_count() == old(self).spec_answer_count(),
    {
        let r = self.buffer.write_at(offset, data);
        assert(r is Ok);
        assert(self.spec_contents().subrange(0, HEADER_LEN as int) =~= old(self).spec_contents().subrange(0, HEADER_LEN as int));
    }

    /// Drops the bytes from `len` on, keeping the cursor.
    pub(crate) fn cut(&mut self, len: usize)
        requires
            old(self).wf(),
            old(self).spec_position() <= len,
        ensures
            final(self).wf(),
            final(self).spec_contents() == if len < old(self).spec_contents().len() {
                old(self).spec_contents().subrange(0, len as int)
            } else {
                old(self).spec_contents()
            },
            final(self).spec_buffer().capacity() == old(self).spec_buffer().capacity(),
            final(self).spec_header() == old(self).spec_header(),
            final(self).spec_position() == old(self).spec_position(),
            final(self).spec_question_count() == old(self).spec_question_count(),
            final(self).spec_answer_count() == old(self).spec_answer_count(),
    {
        self.buffer.truncate(len);
        assert(self.spec_contents().subrange(0, HEADER_LEN as int) =~= old(self).spec_contents().subrange(0, HEADER_LEN as int));
    }

    /// The byte at `offset`.
    pub(crate) fn byte_at(&self, offset: usize) -> (r: u8)
        requires
            offset < self.spec_contents().len(),
        ensures
            r == self.spec_contents()[offset as int],
    {
        self.buffer.bytes()[offset]
    }

    pub(crate) fn position(&self) -> (r: usize)
        ensures
            r == self.spec_position(),
    {
        self.position
    }

    pub(crate) fn len(&self) -> (r: usize)
        ensures
            r == self.spec_contents().len(),
    {
        self.buffer.len()
    }

    /// Closes the record that ends at the end of the buffer: the header takes
    /// `h`, and the cursor moves past the record.
    pub(crate) fn commit(self, h: Header) -> (r: Self)
        requires
            self.wf(),
        ensures
            r.wf(),
            r.spec_header() == h,
            r.spec_contents() == h.spec_bytes() + self.spec_contents().subrange(
                HEADER_LEN as int,
                self.spec_contents().len() as int,
            ),
            r.spec_buffer().capacity() == self.spec_buffer().capacity(),
            r.spec_position() == self.spec_contents().len(),
            r.spec_question_count() == 0,
            r.spec_answer_count() == 0,
    {
        let mut body = self;
        body.put_header(h);
        let end = body.buffer.len();
        MessageBodyMut {
            buffer: body.buffer,
            header: body.header,
            position: end,
            question_count: 0,
            answer_count: 0,
            section: PhantomData,
        }
    }
}

impl<B: ExtendableBuffer> MessageBodyMut<B, QuestionsSection> {
    /// Skips the questions already stored, stopping at the first that does not
    /// parse, and moves the cursor to the answer section.
    pub fn to_answer_section(self) -> (r: MessageBodyMut<B, AnswersSection>)
        requires
            self.wf(),
        ensures
            r.wf(),
            r.spec_buffer() == self.spec_buffer(),
            r.spec_header() == self.spec_header(),
            (r.spec_position(), r.spec_question_count() as nat) == skip_questions(
                self.spec_contents(),
                self.spec_position(),
                self.spec_question_count() as nat,
            ),
            r.spec_answer_count() == self.spec_answer_count(),
    {
        let (position, question_count) = skip_questions_exec(self.buffer.bytes(), self.position, self.question_count);
        proof {
            lemma_skip_questions_bounds(self.spec_contents(), self.spec_position(), self.spec_question_count() as nat);
        }
        MessageBodyMut {
            buffer: self.buffer,
            header: self.header,
            position,
            question_count,
            answer_count: self.answer_count,
            section: PhantomData,
        }
    }

    /// Gets ready to append a question: skips the questions already stored,
    /// drops every byte after the last of them (answers included), sets the
    /// header's question count to the questions kept and its answer count to zero.
    pub(crate) fn prepare_question(self) -> (r: Self)
        requires
            self.wf(),
        ensures
            r.wf(),
            ({
                let (end, left) = skip_questions(self.spec_contents(), self.spec_position(), self.spec_question_count() as nat);
                &&& r.spec_position() == end
                &&& r.spec_contents() == r.spec_header().spec_bytes() + self.spec_contents().subrange(HEADER_LEN as int, end)
                &&& r.spec_header().spec_question_count() == if self.spec_header().spec_question_count() >= left {
                    self.spec_header().spec_question_count() - left
                } else {
                    0
                }
            }),
            r.spec_header().spec_answer_count() == 0,
            r.spec_header().spec_id() == self.spec_header().spec_id(),
            r.spec_header().spec_flags() == self.spec_header().spec_flags(),
            r.spec_header().spec_name_server_count() == self.spec_header().spec_name_server_count(),
            r.spec_header().spec_additional_records_count() == self.spec_header().spec_additional_records_count(),
            r.spec_buffer().capacity() == self.spec_buffer().capacity(),
            r.spec_question_count() == 0,
            r.spec_answer_count() == 0,
    {
        let (position, left) = skip_questions_exec(self.buffer.bytes(), self.position, self.question_count);
        proof {
            lemma_skip_questions_bounds(self.spec_contents(), self.spec_position(), self.spec_question_count() as nat);
        }
        let mut body = self;
        body.position = position;
        body.cut(position);
        let mut h = body.header;
        let kept = if h.question_count() >= left { h.question_count() - left } else { 0 };
        h.set_question_count(kept);
        h.set_answer_count(0);
        body.put_header(h);
        body.question_count = 0;
        body.answer_count = 0;
        assert(body.spec_contents() =~= body.spec_header().spec_bytes() + self.spec_contents().subrange(HEADER_LEN as int, position as int));
        body
    }
}

impl<B: ExtendableBuffer> MessageBodyMut<B, AnswersSection> {
    /// Gets ready to append an answer: skips the answers already stored,
    /// drops every byte after the last of them, and sets the header's answer
    /// count to the answers kept.
    pub(crate) fn prepare_answer(self) -> (r: Self)
        requires
            self.wf(),
        ensures
            r.wf(),
            ({
                let (end, left) = skip_answers(self.spec_contents(), self.spec_position(), self.spec_answer_count() as nat);
                &&& r.spec_position() == end
                &&& r.spec_contents() == r.spec_header().spec_bytes() + self.spec_contents().subrange(HEADER_LEN as int, end)
                &&& r.spec_header().spec_answer_count() == if self.spec_header().spec_answer_count() >= left {
                    self.spec_header().spec_answer_count() - left
                } else {
                    0
                }
            }),
            r.spec_header().spec_id() == self.spec_header().spec_id(),
            r.spec_header().spec_flags() == self.spec_header().spec_flags(),
            r.spec_header().spec_question_count() == self.spec_header().spec_question_count(),
            r.spec_header().spec_name_server_count() == self.spec_header().spec_name_server_count(),
            r.spec_header().spec_additional_records_count() == self.spec_header().spec_additional_records_count(),
            r.spec_buffer().capacity() == self.spec_buffer().capacity(),
            r.spec_question_count() == 0,
            r.spec_answer_count() == 0,
    {
        let (position, left) = skip_answers_exec(self.buffer.bytes(), self.position, self.answer_count);
        proof {
            lemma_skip_answers_bounds(self.spec_contents(), self.spec_position(), self.spec_answer_count() as nat);
        }
        let mut body = self;
        body.position = position;
        body.cut(position);
        let mut h = body.header;
        let kept = if h.answer_count() >= left { h.answer_count() - left } else { 0 };
        h.set_answer_count(kept);
        body.put_header(h);
        body.question_count = 0;
        body.answer_count = 0;
        assert(body.spec_contents() =~= body.spec_header().spec_bytes() + self.spec_contents().subrange(HEADER_LEN as int, position as int));
        body
    }
}

pub proof fn lemma_skip_questions_bounds(b: Seq<u8>, pos: int, count: nat)
    requires
        0 <= pos <= b.len(),
    ensures
        pos <= skip_questions(b, pos, count).0 <= b.len(),
        skip_questions(b, pos, count).1 <= count,
    decreases count,
{
    if count > 0 {
        if let Some(e) = question_end(b, pos) {
            crate::name::lemma_name_end_bounds(b, pos, pos);
            lemma_skip_questions_bounds(b, e, (count - 1) as nat);
        }
    }
}

pub proof fn lemma_skip_answers_bounds(b: Seq<u8>, pos: int, count: nat)
    requires
        0 <= pos <= b.len(),
    ensures
        pos <= skip_answers(b, pos, count).0 <= b.len(),
        skip_answers(b, pos, count).1 <= count,
    decreases count,
{
    if count > 0 {
        if let Some(e) = answer_end(b, pos) {
            crate::name::lemma_name_end_bounds(b, pos, pos);
            lemma_skip_answers_bounds(b, e, (count - 1) as nat);
        }
    }
}

impl<B: ExtendableBuffer, S: Section> MessageBodyMut<B, S> {
    /// Appends a name part to the record under construction.
    pub(crate) fn push_part<I: NamePart>(&mut self, part: I) -> (r: Result<(), ()>)
        requires
            old(self).wf(),
        ensures
            final(self).wf(),
            r is Ok <==> (part.spec_encoding(old(self).spec_contents().len() as int) matches Some(e)
                && old(self).spec_contents().len() + e.len() <= old(self).spec_buffer().capacity()),
            r is Ok ==> final(self).spec_contents() == old(self).spec_contents() + part.spec_encoding(
                old(self).spec_contents().len() as int,
            )->0,
            r is Err ==> final(self).spec_contents() == old(self).spec_contents(),
            final(self).spec_buffer().capacity() == old(self).spec_buffer().capacity(),
            final(self).spec_header() == old(self).spec_header(),
            final(self).spec_position() == old(self).spec_position(),
            final(self).spec_question_count() == old(self).spec_question_count(),
            final(self).spec_answer_count() == old(self).spec_answer_count(),
    {
        let r = part.to_bytes(&mut self.buffer);
        assert(self.spec_contents().subrange(0, HEADER_LEN as int) =~= old(self).spec_contents().subrange(0, HEADER_LEN as int));
        r
    }
}

} // verus!
