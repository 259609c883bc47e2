//! Writing names: literal labels, compression pointers, and copies of parsed names.
use vstd::prelude::*;
use crate::buffer::ExtendableBuffer;
use crate::body::{MessageBodyMut, Section};
use crate::name::{Name, encode_labels};

verus! {

/// The longest literal label.
pub const MAX_LABEL_LEN: usize = 63;

/// Pointers reach only offsets below this.
pub const POINTER_LIMIT: usize = 16384;

/// A literal label on the wire: its length byte, then its bytes. Only labels
/// of one to 63 bytes can be written.
pub open spec fn literal_label(s: Seq<u8>) -> Option<Seq<u8>> {
    if 1 <= s.len() <= 63 {
        Some(seq![s.len() as u8] + s)
    } else {
        None
    }
}

/// A compression pointer to `target`, written at `at`: the top two bits set
/// and fourteen bits of offset. Only backward pointers can be written.
pub open spec fn pointer_bytes(target: int, at: int) -> Option<Seq<u8>> {
    if 0 <= target < at && target < 16384 {
        Some(seq![(192 + target / 256) as u8, (target % 256) as u8])
    } else {
        None
    }
}

/// Something that can be written as the next part of a name.
pub trait NamePart {
    /// The bytes the part adds to a name when written at offset `at`; `None`
    /// when it cannot be written there.
    spec fn spec_encoding(&self, at: int) -> Option<Seq<u8>>;

    /// Whether the part is a compression pointer, which ends a name.
    spec fn spec_is_pointer(&self) -> bool;

    fn is_pointer(&self) -> (r: bool)
        ensures
            r == self.spec_is_pointer(),
    ;

    /// Appends the part to `buf`; on `Err` the buffer is left as it was.
    fn to_bytes<B: ExtendableBuffer>(self, buf: &mut B) -> (r: Result<(), ()>)
        requires
            old(buf).contents().len() <= old(buf).capacity(),
        ensures
            r is Ok <==> (self.spec_encoding(old(buf).contents().len() as int) matches Some(e)
                && old(buf).contents().len() + e.len() <= old(buf).capacity()),
            r is Ok ==> final(buf).contents() == old(buf).contents() + self.spec_encoding(
                old(buf).contents().len() as int,
            )->0,
            r is Err ==> final(buf).contents() == old(buf).contents(),
            final(buf).capacity() == old(buf).capacity(),
    ;
}

/// Appends a literal label.
fn write_literal<B: ExtendableBuffer>(label: &[u8], buf: &mut B) -> (r: Result<(), ()>)
    requires
        old(buf).contents().len() <= old(buf).capacity(),
    ensures
        r is Ok <==> (literal_label(label@) matches Some(e) && old(buf).contents().len() + e.len() <= old(buf).capacity()),
        r is Ok ==> final(buf).contents() == old(buf).contents() + literal_label(label@)->0,
        r is Err ==> final(buf).contents() == old(buf).contents(),
        final(buf).capacity() == old(buf).capacity(),
{
    if label.len() == 0 || label.len() > MAX_LABEL_LEN {
        return Err(());
    }
    let start = buf.len();
    let head = [label.len() as u8];
    match buf.extend_from_slice(&head) {
        Ok(()) => {},
        Err(()) => {
            return Err(());
        },
    }
    match buf.extend_from_slice(label) {
        Ok(()) => {
            assert(buf.contents() =~= old(buf).contents() + literal_label(label@)->0);
            Ok(())
        },
        Err(()) => {
            buf.truncate(start);
            assert(buf.contents() =~= old(buf).contents());
            Err(())
        },
    }
}

/// Appends a compression pointer to `target`.
fn write_pointer<B: ExtendableBuffer>(target: usize, buf: &mut B) -> (r: Result<(), ()>)
    requires
        old(buf).contents().len() <= old(buf).capacity(),
    ensures
        r is Ok <==> (pointer_bytes(target as int, old(buf).contents().len() as int) matches Some(e)
            && old(buf).contents().len() + e.len() <= old(buf).capacity()),
        r is Ok ==> final(buf).contents() == old(buf).contents() + pointer_bytes(
            target as int,
            old(buf).contents().len() as int,
        )->0,
        r is Err ==> final(buf).contents() == old(buf).contents(),
        final(buf).capacity() == old(buf).capacity(),
{
    if target >= buf.len() || target >= POINTER_LIMIT {
        return Err(());
    }
    let bytes = [(192 + target / 256) as u8, (target % 256) as u8];
    assert(bytes@ =~= pointer_bytes(target as int, old(buf).contents().len() as int)->0);
    buf.extend_from_slice(&bytes)
}

impl<'b> NamePart for &'b [u8] {
    open spec fn spec_encoding(&self, at: int) -> Option<Seq<u8>> {
        literal_label(self@)
    }

    open spec fn spec_is_pointer(&self) -> bool {
        false
    }

    fn is_pointer(&self) -> (r: bool) {
        false
    }

    fn to_bytes<B: ExtendableBuffer>(self, buf: &mut B) -> (r: Result<(), ()>) {
        write_literal(self, buf)
    }
}

impl<'b, const N: usize> NamePart for &'b [u8; N] {
    open spec fn spec_encoding(&self, at: int) -> Option<Seq<u8>> {
        literal_label(self@)
    }

    open spec fn spec_is_pointer(&self) -> bool {
        false
    }

    fn is_pointer(&self) -> (r: bool) {
        false
    }

    fn to_bytes<B: ExtendableBuffer>(self, buf: &mut B) -> (r: Result<(), ()>) {
        write_literal(self.as_slice(), buf)
    }
}

/// A pointer to a place in the message being built where a name, or the rest
/// of one, is written.
#[derive(Clone, Copy, Debug)]
pub struct NamePtr {
    offset: usize,
}

impl NamePtr {
    /// The offset pointed to.
    pub closed spec fn spec_offset(&self) -> int {
        self.offset as int
    }

    pub fn offset(&self) -> (r: usize)
        ensures
            r == self.spec_offset(),
    {
        self.offset
    }
}

impl NamePart for NamePtr {
    open spec fn spec_encoding(&self, at: int) -> Option<Seq<u8>> {
        pointer_bytes(self.spec_offset(), at)
    }

    open spec fn spec_is_pointer(&self) -> bool {
        true
    }

    fn is_pointer(&self) -> (r: bool) {
        true
    }

    fn to_bytes<B: ExtendableBuffer>(self, buf: &mut B) -> (r: Result<(), ()>) {
        write_pointer(self.offset, buf)
    }
}

impl<'b> NamePart for &'b NamePtr {
    open spec fn spec_encoding(&self, at: int) -> Option<Seq<u8>> {
        pointer_bytes(self.spec_offset(), at)
    }

    open spec fn spec_is_pointer(&self) -> bool {
        true
    }

    fn is_pointer(&self) -> (r: bool) {
        true
    }

    fn to_bytes<B: ExtendableBuffer>(self, buf: &mut B) -> (r: Result<(), ()>) {
        write_pointer(self.offset, buf)
    }
}

impl<'b> NamePart for Name<'b> {
    open spec fn spec_encoding(&self, at: int) -> Option<Seq<u8>> {
        match self.labels() {
            Some(ls) => Some(encode_labels(ls)),
            None => None,
        }
    }

    open spec fn spec_is_pointer(&self) -> bool {
        false
    }

    fn is_pointer(&self) -> (r: bool) {
        false
    }

    fn to_bytes<B: ExtendableBuffer>(self, buf: &mut B) -> (r: Result<(), ()>) {
        self.write_labels(buf)
    }
}

impl<'b, 'c> NamePart for &'c Name<'b> {
    open spec fn spec_encoding(&self, at: int) -> Option<Seq<u8>> {
        match self.labels() {
            Some(ls) => Some(encode_labels(ls)),
            None => None,
        }
    }

    open spec fn spec_is_pointer(&self) -> bool {
        false
    }

    fn is_pointer(&self) -> (r: bool) {
        false
    }

    fn to_bytes<B: ExtendableBuffer>(self, buf: &mut B) -> (r: Result<(), ()>) {
        self.write_labels(buf)
    }
}

/// What a record's builder keeps while one of its names is written.
pub trait NameParent {
    /// Whether the builder can take the name back when the body's cursor is
    /// at `position` and the name starts at `name_start`.
    spec fn accepts(&self, position: int, name_start: int) -> bool;
}

/// Writes a name part by part into a record under construction. `P` is what
/// the record's builder keeps while the name is written.
pub struct NameBuilder<B: ExtendableBuffer, S: Section, P: NameParent> {
    body: MessageBodyMut<B, S>,
    parent: P,
    start: usize,
    last_offset: usize,
    ended: bool,
}

impl<B: ExtendableBuffer, S: Section, P: NameParent> NameBuilder<B, S, P> {
    pub closed spec fn spec_body(&self) -> MessageBodyMut<B, S> {
        self.body
    }

    pub closed spec fn spec_parent(&self) -> P {
        self.parent
    }

    /// Where the name starts.
    pub closed spec fn spec_start(&self) -> int {
        self.start as int
    }

    /// Where the next part goes.
    pub closed spec fn spec_last_offset(&self) -> int {
        self.last_offset as int
    }

    /// Whether the last part was a pointer, which ends the name.
    pub closed spec fn spec_ended(&self) -> bool {
        self.ended
    }

    pub open spec fn spec_contents(&self) -> Seq<u8> {
        self.spec_body().spec_contents()
    }

    /// The bytes of the name written so far.
    pub open spec fn spec_written(&self) -> Seq<u8> {
        self.spec_contents().subrange(self.spec_start(), self.spec_contents().len() as int)
    }

    pub open spec fn wf(&self) -> bool {
        &&& self.spec_body().wf()
        &&& self.spec_body().spec_position() <= self.spec_start() <= self.spec_contents().len()
        &&& self.spec_last_offset() == self.spec_contents().len()
        &&& self.spec_contents().len() - self.spec_start() <= 255
        &&& self.spec_parent().accepts(self.spec_body().spec_position(), self.spec_start())
    }

    pub(crate) fn new(body: MessageBodyMut<B, S>, parent: P) -> (r: Self)
        requires
            body.wf(),
            parent.accepts(body.spec_position(), body.spec_contents().len() as int),
        ensures
            r.wf(),
            r.spec_body() == body,
            r.spec_parent() == parent,
            r.spec_start() == body.spec_contents().len(),
            !r.spec_ended(),
    {
        let start = body.len();
        NameBuilder { body, parent, start, last_offset: start, ended: false }
    }

    /// Appends a part: a literal label, a pointer, or a parsed name's labels.
    /// `Err` after a pointer, when the part cannot be written here, when the
    /// buffer is full, or when the name would take more than 255 bytes.
    pub fn label<I: NamePart>(self, part: I) -> (r: Result<Self, ()>)
        requires
            self.wf(),
        ensures
            r is Ok <==> ({
                let at = self.spec_contents().len() as int;
                &&& !self.spec_ended()
                &&& part.spec_encoding(at) matches Some(e)
                &&& at + e.len() <= self.spec_body().spec_buffer().capacity()
                &&& at - self.spec_start() + e.len() + (if part.spec_is_pointer() { 0int } else { 1int }) <= 255
            }),
            r matches Ok(nb) ==> {
                &&& nb.wf()
                &&& nb.spec_contents() == self.spec_contents() + part.spec_encoding(self.spec_contents().len() as int)->0
                &&& nb.spec_ended() == part.spec_is_pointer()
                &&& nb.spec_start() == self.spec_start()
                &&& nb.spec_parent() == self.spec_parent()
                &&& nb.spec_body().spec_header() == self.spec_body().spec_header()
                &&& nb.spec_body().spec_position() == self.spec_body().spec_position()
                &&& nb.spec_body().spec_buffer().capacity() == self.spec_body().spec_buffer().capacity()
            },
    {
        if self.ended {
            return Err(());
        }
        let pointer = part.is_pointer();
        let mut nb = self;
        nb.body.push_part(part)?;
        let after = nb.body.len();
        let tail: usize = if pointer { 0 } else { 1 };
        if after - nb.start + tail > 255 {
            return Err(());
        }
        nb.last_offset = after;
        nb.ended = pointer;
        Ok(nb)
    }

    /// A pointer to where the next part goes: the rest of this name from there on.
    pub fn ptr(&self) -> (r: NamePtr)
        ensures
            r.spec_offset() == self.spec_last_offset(),
    {
        NamePtr { offset: self.last_offset }
    }

    /// Ends the name: a zero byte follows unless the last part was a pointer.
    /// `Err` when no part was written or the buffer is full.
    pub(crate) fn close(self) -> (r: Result<(MessageBodyMut<B, S>, P), ()>)
        requires
            self.wf(),
        ensures
            r is Ok <==> (self.spec_contents().len() > self.spec_start() && (self.spec_ended()
                || self.spec_contents().len() + 1 <= self.spec_body().spec_buffer().capacity())),
            r matches Ok((body, parent)) ==> {
                &&& body.wf()
                &&& body.spec_contents() == self.spec_contents() + if self.spec_ended() {
                    Seq::<u8>::empty()
                } else {
                    seq![0u8]
                }
                &&& parent == self.spec_parent()
                &&& parent.accepts(body.spec_position(), self.spec_start())
                &&& body.spec_contents().len() >= self.spec_start()
                &&& body.spec_header() == self.spec_body().spec_header()
                &&& body.spec_position() == self.spec_body().spec_position()
                &&& body.spec_question_count() == self.spec_body().spec_question_count()
                &&& body.spec_answer_count() == self.spec_body().spec_answer_count()
                &&& body.spec_buffer().capacity() == self.spec_body().spec_buffer().capacity()
            },
    {
        let mut body = self.body;
        if body.len() == self.start {
            return Err(());
        }
        if !self.ended {
            let zero = [0u8];
            body.push_bytes(&zero)?;
        } else {
            assert(body.spec_contents() =~= self.spec_contents() + Seq::<u8>::empty());
        }
        Ok((body, self.parent))
    }
}

} // verus!
