//! The top-level message: a buffer bound to its header and body.
use vstd::prelude::*;
use crate::header::{Header, HEADER_LEN};
use crate::buffer::{Buffer, MutBuffer, ExtendableBuffer};
use crate::body::{MessageBody, MessageBodyMut, QuestionsSection};

verus! {

/// A message over a buffer: read-only over a byte slice, or being built in a
/// buffer it owns.
pub struct Message<B> {
    buffer: B,
    header: Header,
}

impl<B> Message<B> {
    pub closed spec fn spec_buffer(&self) -> B {
        self.buffer
    }

    pub closed spec fn spec_header(&self) -> Header {
        self.header
    }
}

impl<'a> Message<&'a [u8]> {
    /// A message over `buffer`; `Err` when it is shorter than a header.
    pub fn new(buffer: &'a [u8]) -> (r: Result<Self, ()>)
        ensures
            r is Ok <==> buffer@.len() >= HEADER_LEN,
            r matches Ok(m) ==> m.spec_buffer() == buffer && m.spec_header().spec_bytes() == buffer@.subrange(0, HEADER_LEN as int),
    {
        let header = Header::from_bytes(buffer)?;
        Ok(Message { buffer, header })
    }

    pub fn header(&self) -> (r: Result<&Header, ()>)
        ensures
            r matches Ok(h) && *h == self.spec_header(),
    {
        Ok(&self.header)
    }

    /// A cursor at the first question, with the header's question and answer counts.
    pub fn body(&self) -> (r: Result<MessageBody<'a, QuestionsSection>, ()>)
        ensures
            r matches Ok(b) && {
                &&& b.spec_bytes() == self.spec_buffer()@
                &&& b.spec_position() == HEADER_LEN
                &&& b.spec_question_count() == self.spec_header().spec_question_count()
                &&& b.spec_answer_count() == self.spec_header().spec_answer_count()
            },
    {
        Ok(MessageBody::new(self.buffer, self.header.question_count(), self.header.answer_count()))
    }
}

/// The header a message being built starts with: all fields zero.
pub open spec fn blank_header(h: Header) -> bool {
    h.spec_bytes() == Seq::new(HEADER_LEN as nat, |i: int| 0u8)
}

impl<B: ExtendableBuffer> Message<B> {
    /// The buffer is empty or holds at least a header, and fits its capacity.
    pub open spec fn wf_mut(&self) -> bool {
        &&& self.spec_buffer().contents().len() == 0 || HEADER_LEN <= self.spec_buffer().contents().len()
        &&& self.spec_buffer().contents().len() <= self.spec_buffer().capacity()
    }

    /// Whether the header's place in the buffer is taken or can be.
    pub open spec fn can_reserve(&self) -> bool {
        HEADER_LEN <= self.spec_buffer().contents().len() || HEADER_LEN <= self.spec_buffer().capacity()
    }

    /// The buffer's bytes once the header's place is taken: the header's own
    /// bytes when the buffer was empty.
    pub open spec fn reserved(&self) -> Seq<u8> {
        if self.spec_buffer().contents().len() == 0 {
            self.spec_header().spec_bytes()
        } else {
            self.spec_buffer().contents()
        }
    }

    /// Starts building a message in `buffer`, which must be empty; the header
    /// starts with all fields zero and takes its place in the buffer when it
    /// is first asked for. `Err` when the buffer is not empty.
    pub fn new_mut(buffer: B) -> (r: Result<Self, ()>)
        ensures
            r is Ok <==> buffer.contents().len() == 0,
            r matches Ok(m) ==> {
                &&& m.wf_mut()
                &&& blank_header(m.spec_header())
                &&& m.spec_buffer() == buffer
            },
    {
        if buffer.len() != 0 {
            return Err(());
        }
        Ok(Message { buffer, header: Header::blank() })
    }

    /// Takes the header's place in the buffer if it is not taken yet.
    fn reserve(&mut self) -> (r: Result<(), ()>)
        requires
            old(self).wf_mut(),
        ensures
            final(self).wf_mut(),
            r is Ok <==> old(self).can_reserve(),
            r is Ok ==> final(self).spec_buffer().contents() == old(self).reserved(),
            r is Err ==> final(self).spec_buffer().contents() == old(self).spec_buffer().contents(),
            final(self).spec_buffer().capacity() == old(self).spec_buffer().capacity(),
            final(self).spec_header() == old(self).spec_header(),
    {
        if self.buffer.len() != 0 {
            return Ok(());
        }
        let bytes = self.header.to_bytes();
        self.buffer.extend_from_slice(&bytes)
    }

    /// The header, to be set field by field; its place in the buffer is taken
    /// first, and it reaches the buffer when the body is taken or the buffer
    /// is handed back. `Err`, with nothing changed, when the buffer cannot
    /// hold a header.
    pub fn header_mut(&mut self) -> (r: Result<&mut Header, ()>)
        requires
            old(self).wf_mut(),
        ensures
            r is Ok <==> old(self).can_reserve(),
            final(self).wf_mut(),
            final(self).spec_buffer().capacity() == old(self).spec_buffer().capacity(),
            r matches Ok(h) ==> {
                &&& *h == old(self).spec_header()
                &&& final(self).spec_header() == *final(h)
                &&& final(self).spec_buffer().contents() == old(self).reserved()
            },
            r is Err ==> final(self).spec_buffer().contents() == old(self).spec_buffer().contents()
                && final(self).spec_header() == old(self).spec_header(),
    {
        match self.reserve() {
            Ok(()) => Ok(&mut self.header),
            Err(()) => Err(()),
        }
    }

    /// Writes the header into the buffer and hands out a write cursor at the
    /// first question, with the header's question and answer counts. `Err`
    /// when the buffer cannot hold a header.
    pub fn body_mut(self) -> (r: Result<MessageBodyMut<B, QuestionsSection>, ()>)
        requires
            self.wf_mut(),
        ensures
            r is Ok <==> self.can_reserve(),
            r matches Ok(b) ==> {
                &&& b.wf()
                &&& b.spec_header() == self.spec_header()
                &&& b.spec_contents() == self.spec_header().spec_bytes() + self.reserved().subrange(
                    HEADER_LEN as int,
                    self.reserved().len() as int,
                )
                &&& b.spec_buffer().capacity() == self.spec_buffer().capacity()
                &&& b.spec_position() == HEADER_LEN
                &&& b.spec_question_count() == self.spec_header().spec_question_count()
                &&& b.spec_answer_count() == self.spec_header().spec_answer_count()
            },
    {
        let mut m = self;
        m.reserve()?;
        let (buffer, header) = m.flush();
        assert(buffer.contents().subrange(0, HEADER_LEN as int) =~= header.spec_bytes());
        let qc = header.question_count();
        let ac = header.answer_count();
        Ok(MessageBodyMut::from_parts(buffer, header, qc, ac))
    }

    /// Writes the header into the buffer.
    fn flush(self) -> (r: (B, Header))
        requires
            self.wf_mut(),
            HEADER_LEN <= self.spec_buffer().contents().len(),
        ensures
            r.1 == self.spec_header(),
            r.0.contents() == self.spec_header().spec_bytes() + self.spec_buffer().contents().subrange(
                HEADER_LEN as int,
                self.spec_buffer().contents().len() as int,
            ),
            r.0.capacity() == self.spec_buffer().capacity(),
    {
        let mut buffer = self.buffer;
        let bytes = self.header.to_bytes();
        let w = buffer.write_at(0, &bytes);
        assert(w is Ok);
        assert(buffer.contents() =~= self.spec_header().spec_bytes() + self.spec_buffer().contents().subrange(
            HEADER_LEN as int,
            self.spec_buffer().contents().len() as int,
        ));
        (buffer, self.header)
    }

    /// Writes the header into the buffer, where its place is taken, and hands
    /// the buffer back.
    pub fn into_buffer(self) -> (r: B)
        requires
            self.wf_mut(),
        ensures
            r.contents() == if self.spec_buffer().contents().len() == 0 {
                self.spec_buffer().contents()
            } else {
                self.spec_header().spec_bytes() + self.spec_buffer().contents().subrange(
                    HEADER_LEN as int,
                    self.spec_buffer().contents().len() as int,
                )
            },
    {
        if self.buffer.len() == 0 {
            return self.buffer;
        }
        self.flush().0
    }
}

impl<B: ExtendableBuffer, S: crate::body::Section> MessageBodyMut<B, S> {
    /// Ends writing through this cursor; the message can be taken up again.
    pub fn into_message(self) -> (r: Message<B>)
        requires
            self.wf(),
        ensures
            r.wf_mut(),
            r.spec_buffer() == self.spec_buffer(),
            r.spec_header() == self.spec_header(),
    {
        let (buffer, header) = self.into_parts();
        Message { buffer, header }
    }
}

} // verus!
