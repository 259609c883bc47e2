//! Domain names: lazy, buffer-relative references with backward-only compression pointers.
use vstd::prelude::*;
use crate::buffer::{Buffer, ExtendableBuffer};


verus! {

/// The longest stretch of bytes a name may occupy where it is stored.
pub const MAX_NAME_LEN: usize = 255;

/// What one length byte (or pointer byte pair) of a name announces.
#[derive(PartialEq, Eq, Structural, Clone, Copy, Debug)]
pub enum LabelType {
    /// A compression pointer to an earlier offset of the message.
    Pointer(u16),
    /// A literal label of the given length; length zero ends the name.
    Part(u8),
}

/// Reads the label header at `pos`: `None` when the bytes run out, or when a
/// pointer does not point strictly backward. Otherwise the header and the
/// position right after it.
pub open spec fn spec_label_at(b: Seq<u8>, pos: int) -> Option<(LabelType, int)> {
    if pos < 0 || pos >= b.len() {
        None
    } else if b[pos] >= 192 {
        if pos + 1 >= b.len() {
            None
        } else {
            let target = (b[pos] - 192) * 256 + b[pos + 1];
            if target >= pos {
                None
            } else {
                Some((LabelType::Pointer(target as u16), pos + 2))
            }
        }
    } else {
        Some((LabelType::Part((b[pos] % 64) as u8), pos + 1))
    }
}

/// Where a name stored from `start` ends, scanning from `j`: literal labels are
/// skipped, a zero length or a pointer ends the name. `None` when a label does
/// not fit in `b`, a pointer is not backward, or the name occupies 255 bytes or more.
pub open spec fn name_end_from(b: Seq<u8>, start: int, j: int) -> Option<int>
    decreases b.len() - j,
{
    if j < start || j - start >= 255 {
        None
    } else {
        match spec_label_at(b, j) {
            None => None,
            Some((LabelType::Pointer(_), next)) => Some(next),
            Some((LabelType::Part(len), next)) => {
                if next + len > b.len() {
                    None
                } else if len == 0 {
                    Some(next)
                } else {
                    name_end_from(b, start, next + len)
                }
            },
        }
    }
}

/// Where the name stored at `start` ends, if it is well formed there and
/// occupies at most 255 bytes.
pub open spec fn name_end(b: Seq<u8>, start: int) -> Option<int> {
    match name_end_from(b, start, start) {
        Some(e) => if e - start <= 255 {
            Some(e)
        } else {
            None
        },
        None => None,
    }
}

/// Prepends one label to a label sequence that may be missing.
pub open spec fn prepend_label(l: Seq<u8>, rest: Option<Seq<Seq<u8>>>) -> Option<Seq<Seq<u8>>> {
    match rest {
        None => None,
        Some(r) => Some(seq![l] + r),
    }
}

/// The labels of the name that starts at `origin`, walking from `pos` with
/// `depth` labels and pointers already visited. Pointers are followed only to
/// offsets before `origin`; the walk gives up after 256 steps.
pub open spec fn name_labels_from(b: Seq<u8>, origin: int, pos: int, depth: nat) -> Option<
    Seq<Seq<u8>>,
>
    decreases 256 - depth,
{
    if depth > 255 {
        None
    } else {
        match spec_label_at(b, pos) {
            None => None,
            Some((LabelType::Pointer(t), _)) => {
                if (t as int) < origin {
                    name_labels_from(b, origin, t as int, depth + 1)
                } else {
                    None
                }
            },
            Some((LabelType::Part(len), next)) => {
                if len == 0 {
                    Some(seq![])
                } else if next + len > b.len() {
                    None
                } else {
                    prepend_label(b.subrange(next, next + len), name_labels_from(b, origin, next + len, depth + 1))
                }
            },
        }
    }
}

/// The labels that the name stored at `origin` reads as.
pub open spec fn name_labels(b: Seq<u8>, origin: int) -> Option<Seq<Seq<u8>>> {
    name_labels_from(b, origin, origin, 0)
}

/// A well-formed name occupies at least one byte, and ends inside `b`.
pub proof fn lemma_name_end_bounds(b: Seq<u8>, start: int, j: int)
    ensures
        name_end_from(b, start, j) matches Some(e) ==> j < e <= b.len(),
    decreases b.len() - j,
{
    if start <= j && j - start < 255 {
        if let Some((LabelType::Part(len), next)) = spec_label_at(b, j) {
            if next + len <= b.len() && len != 0 {
                lemma_name_end_bounds(b, start, next + len);
            }
        }
    }
}

/// A label sequence written out with dots between the labels.
pub open spec fn dotted(ls: Seq<Seq<u8>>) -> Seq<u8>
    decreases ls.len(),
{
    if ls.len() == 0 {
        seq![]
    } else if ls.len() == 1 {
        ls[0]
    } else {
        dotted(ls.drop_last()) + seq![46u8] + ls.last()
    }
}

/// A label sequence in wire form: each label after its length byte. The
/// terminating zero is not included.
pub open spec fn encode_labels(ls: Seq<Seq<u8>>) -> Seq<u8>
    decreases ls.len(),
{
    if ls.len() == 0 {
        seq![]
    } else {
        encode_labels(ls.drop_last()) + seq![ls.last().len() as u8] + ls.last()
    }
}

/// Prefixes a label sequence that may be missing with `acc`.
pub open spec fn concat_labels(acc: Seq<Seq<u8>>, rest: Option<Seq<Seq<u8>>>) -> Option<Seq<Seq<u8>>> {
    match rest {
        None => None,
        Some(r) => Some(acc + r),
    }
}

pub proof fn lemma_dotted_concat(a: Seq<Seq<u8>>, r: Seq<Seq<u8>>)
    requires
        a.len() > 0,
        r.len() > 0,
    ensures
        dotted(a + r) == dotted(a) + seq![46u8] + dotted(r),
    decreases r.len(),
{
    if r.len() == 1 {
        assert((a + r).drop_last() =~= a);
    } else {
        assert((a + r).drop_last() =~= a + r.drop_last());
        lemma_dotted_concat(a, r.drop_last());
        assert(dotted(a + r) =~= dotted(a) + seq![46u8] + dotted(r));
    }
}

/// Whatever labels follow, the dotted form starts with that of the labels before.
pub proof fn lemma_dotted_prefix(a: Seq<Seq<u8>>, r: Seq<Seq<u8>>)
    ensures
        dotted(a).len() <= dotted(a + r).len(),
        dotted(a + r).subrange(0, dotted(a).len() as int) == dotted(a),
        a.len() > 0 && r.len() > 0 ==> dotted(a + r).len() > dotted(a).len() && dotted(a + r)[dotted(a).len() as int] == 46u8,
{
    if a.len() == 0 {
        assert(a + r =~= r);
    } else if r.len() == 0 {
        assert(a + r =~= a);
    } else {
        lemma_dotted_concat(a, r);
    }
    assert(dotted(a + r).subrange(0, dotted(a).len() as int) =~= dotted(a));
}

proof fn lemma_dotted_push(acc: Seq<Seq<u8>>, l: Seq<u8>)
    ensures
        dotted(acc.push(l)) == if acc.len() == 0 {
            l
        } else {
            dotted(acc) + seq![46u8] + l
        },
{
    assert(acc.push(l).drop_last() =~= acc);
}

pub proof fn lemma_encode_concat(a: Seq<Seq<u8>>, r: Seq<Seq<u8>>)
    ensures
        encode_labels(a + r) == encode_labels(a) + encode_labels(r),
    decreases r.len(),
{
    if r.len() == 0 {
        assert(a + r =~= a);
        assert(encode_labels(a) + encode_labels(r) =~= encode_labels(a));
    } else {
        assert((a + r).drop_last() =~= a + r.drop_last());
        lemma_encode_concat(a, r.drop_last());
        assert(encode_labels(a + r) =~= encode_labels(a) + encode_labels(r));
    }
}

/// When `other` does not start with the dotted form of `acc2`, no name whose
/// labels start with `acc2` is written as `other`.
proof fn lemma_not_dotted_prefix(acc2: Seq<Seq<u8>>, rest: Option<Seq<Seq<u8>>>, other: Seq<u8>)
    requires
        !(dotted(acc2).len() <= other.len() && other.subrange(0, dotted(acc2).len() as int) == dotted(acc2)),
    ensures
        !(concat_labels(acc2, rest) matches Some(ls) && dotted(ls) == other),
{
    if let Some(r) = rest {
        lemma_dotted_prefix(acc2, r);
    }
}

/// Label sequences that differ at the next label are different.
proof fn lemma_diverge(acc: Seq<Seq<u8>>, x: Seq<u8>, y: Seq<u8>, r1: Option<Seq<Seq<u8>>>, r2: Option<Seq<Seq<u8>>>)
    requires
        x != y,
    ensures
        concat_labels(acc.push(x), r1) is Some ==> concat_labels(acc.push(x), r1) != concat_labels(
            acc.push(y),
            r2,
        ),
{
    if let (Some(a), Some(b)) = (r1, r2) {
        assert((acc.push(x) + a)[acc.len() as int] == x);
        assert((acc.push(y) + b)[acc.len() as int] == y);
    }
}

/// A finished label sequence differs from one with a further label.
proof fn lemma_ended_differs(acc: Seq<Seq<u8>>, x: Seq<u8>, r: Option<Seq<Seq<u8>>>)
    ensures
        Some(acc) != concat_labels(acc.push(x), r),
{
    if let Some(a) = r {
        assert((acc.push(x) + a).len() > acc.len());
    }
}

proof fn lemma_push_concat(acc: Seq<Seq<u8>>, l: Seq<u8>, rest: Option<Seq<Seq<u8>>>)
    ensures
        concat_labels(acc, prepend_label(l, rest)) == concat_labels(acc.push(l), rest),
{
    if let Some(r) = rest {
        assert(acc + (seq![l] + r) =~= acc.push(l) + r);
    }
}

/// One literal label reached from `pos`, following pointers on the way.
/// `None` when the labels from `pos` do not read as a name. Otherwise where the
/// label's bytes start, its length (zero at the end of the name), and the
/// depth after it; the bytes after the label come next.
fn next_part(b: &[u8], origin: usize, pos: usize, depth: usize) -> (r: Option<(usize, usize, usize)>)
    requires
        depth <= 256,
    ensures
        r is None ==> name_labels_from(b@, origin as int, pos as int, depth as nat) is None,
        r matches Some((s, len, d)) ==> {
            &&& s + len <= b@.len()
            &&& s + len <= b.len()
            &&& depth < d <= 256
            &&& len < 64
            &&& name_labels_from(b@, origin as int, pos as int, depth as nat) == if len == 0 {
                Some(Seq::<Seq<u8>>::empty())
            } else {
                prepend_label(b@.subrange(s as int, s + len), name_labels_from(b@, origin as int, s + len, d as nat))
            }
        },
{
    let mut p = pos;
    let mut dep = depth;
    loop
        invariant
            depth <= dep <= 256,
            name_labels_from(b@, origin as int, p as int, dep as nat) == name_labels_from(
                b@,
                origin as int,
                pos as int,
                depth as nat,
            ),
        decreases 256 - dep,
    {
        if dep > 255 {
            return None;
        }
        let mut k = p;
        match LabelType::from_bytes(b, &mut k) {
            Err(()) => {
                return None;
            },
            Ok(LabelType::Pointer(t)) => {
                if (t as usize) < origin {
                    p = t as usize;
                    dep = dep + 1;
                } else {
                    return None;
                }
            },
            Ok(LabelType::Part(len)) => {
                if len == 0 {
                    return Some((k, 0, dep + 1));
                }
                if len as usize > b.len() - k {
                    return None;
                }
                return Some((k, len as usize, dep + 1));
            },
        }
    }
}

/// Whether the bytes `x[xs..xs+len]` and `y[ys..ys+len]` are equal.
fn same_bytes(x: &[u8], xs: usize, y: &[u8], ys: usize, len: usize) -> (r: bool)
    requires
        xs + len <= x@.len(),
        ys + len <= y@.len(),
    ensures
        r == (x@.subrange(xs as int, xs + len) == y@.subrange(ys as int, ys + len)),
{
    let mut k: usize = 0;
    while k < len
        invariant
            k <= len,
            xs + len <= x@.len(),
            ys + len <= y@.len(),
            x@.len() == x.len(),
            y@.len() == y.len(),
            forall|m: int| 0 <= m < k ==> #[trigger] x@[xs + m] == y@[ys + m],
        decreases len - k,
    {
        if x[xs + k] != y[ys + k] {
            assert(x@.subrange(xs as int, xs + len)[k as int] != y@.subrange(ys as int, ys + len)[k as int]);
            return false;
        }
        k = k + 1;
    }
    assert forall|m: int| 0 <= m < len implies #[trigger] x@.subrange(xs as int, xs + len)[m] == y@.subrange(
        ys as int,
        ys + len,
    )[m] by {
        assert(x@[xs + m] == y@[ys + m]);
    }
    assert(x@.subrange(xs as int, xs + len) =~= y@.subrange(ys as int, ys + len));
    true
}

impl LabelType {
    /// Reads the label header at `*i` and moves `*i` past it.
    pub fn from_bytes(bytes: &[u8], i: &mut usize) -> (r: Result<Self, ()>)
        ensures
            r is Ok <==> spec_label_at(bytes@, *old(i) as int) is Some,
            r matches Ok(l) ==> spec_label_at(bytes@, *old(i) as int) == Some((l, *final(i) as int)),
            r is Err ==> *final(i) == *old(i),
    {
        let pos = *i;
        if pos >= bytes.len() {
            return Err(());
        }
        let c = bytes[pos];
        if c >= 192 {
            if pos + 1 >= bytes.len() {
                return Err(());
            }
            let target: u16 = ((c - 192) as u16) * 256 + bytes[pos + 1] as u16;
            if target as usize >= pos {
                return Err(());
            }
            *i = pos + 2;
            Ok(LabelType::Pointer(target))
        } else {
            *i = pos + 1;
            Ok(LabelType::Part(c % 64))
        }
    }
}

/// A domain name inside a message: the message's bytes and the offset where
/// the name starts. Nothing is copied; every use walks the labels again.
#[derive(Clone, Copy, Debug)]
pub struct Name<'a> {
    bytes: &'a [u8],
    offset: usize,
}

impl<'a> Name<'a> {
    /// The bytes of the message the name lives in.
    pub closed spec fn source(&self) -> Seq<u8> {
        self.bytes@
    }

    /// The offset where the name starts.
    pub closed spec fn start(&self) -> int {
        self.offset as int
    }

    /// The labels the name reads as, when every label and pointer is sound.
    pub open spec fn labels(&self) -> Option<Seq<Seq<u8>>> {
        name_labels(self.source(), self.start())
    }

    /// Parses the name stored at `*i`, checking that it is well formed where it
    /// is stored, and moves `*i` past it. Pointers are checked, not followed.
    pub fn parse(bytes: &'a [u8], i: &mut usize) -> (r: Result<Self, ()>)
        ensures
            r is Ok <==> name_end(bytes@, *old(i) as int) is Some,
            r is Ok ==> name_end(bytes@, *old(i) as int) == Some(*final(i) as int),
            r matches Ok(n) ==> n.source() == bytes@ && n.start() == *old(i),
            r is Err ==> *final(i) == *old(i),
    {
        let start = *i;
        let mut j = start;
        loop
            invariant_except_break
                start == *old(i),
                *i == *old(i),
                start <= j,
                j == start || j <= bytes@.len(),
                name_end_from(bytes@, start as int, j as int) == name_end_from(bytes@, start as int, start as int),
            ensures
                start == *old(i),
                *i == *old(i),
                start <= j,
                name_end_from(bytes@, start as int, start as int) == Some(j as int),
            decreases bytes@.len() - j,
        {
            proof {
                reveal_with_fuel(name_end_from, 2);
            }
            if j - start >= MAX_NAME_LEN {
                return Err(());
            }
            let mut k = j;
            match LabelType::from_bytes(bytes, &mut k) {
                Err(()) => {
                    return Err(());
                },
                Ok(LabelType::Pointer(_)) => {
                    j = k;
                    break ;
                },
                Ok(LabelType::Part(len)) => {
                    if len as usize > bytes.len() - k {
                        return Err(());
                    }
                    j = k + len as usize;
                    if len == 0 {
                        break ;
                    }
                },
            }
        }
        if j - start > MAX_NAME_LEN {
            return Err(());
        }
        *i = j;
        Ok(Name { bytes, offset: start })
    }
}

impl<'a> Name<'a> {
    /// Whether the name reads as `other`, its labels separated by dots.
    pub fn eq_bytes(&self, other: &[u8]) -> (r: bool)
        ensures
            r == (self.labels() matches Some(ls) && dotted(ls) == other@),
    {
        let b = self.bytes;
        let origin = self.offset;
        let ghost full = self.labels();
        let mut pos = origin;
        let mut depth: usize = 0;
        let mut j: usize = 0;
        let ghost mut acc: Seq<Seq<u8>> = seq![];
        loop
            invariant
                b@ == self.source(),
                origin == self.start(),
                full == self.labels(),
                depth <= 256,
                j <= other@.len(),
                other@.len() == other.len(),
                full == concat_labels(acc, name_labels_from(b@, origin as int, pos as int, depth as nat)),
                dotted(acc).len() == j,
                other@.subrange(0, j as int) == dotted(acc),
                (acc.len() == 0) == (j == 0),
            decreases 256 - depth,
        {
            let next = next_part(b, origin, pos, depth);
            match next {
                None => {
                    return false;
                },
                Some((s, len, d)) => {
                    let ghost rest = name_labels_from(b@, origin as int, (s + len) as int, d as nat);
                    if len == 0 {
                        assert(full == Some(acc)) by {
                            assert(acc + Seq::<Seq<u8>>::empty() =~= acc);
                        }
                        if j == other.len() {
                            assert(other@.subrange(0, j as int) =~= other@);
                        }
                        return j == other.len();
                    }
                    let ghost l = b@.subrange(s as int, s + len);
                    proof {
                        lemma_push_concat(acc, l, rest);
                        lemma_dotted_push(acc, l);
                    }
                    let ghost acc2 = acc.push(l);
                    let mut k = j;
                    if j > 0 {
                        if j >= other.len() || other[j] != 46u8 {
                            proof {
                                assert(dotted(acc2)[j as int] == 46u8);
                                if dotted(acc2).len() <= other@.len() && j < other@.len() {
                                    assert(other@.subrange(0, dotted(acc2).len() as int)[j as int] == other@[j as int]);
                                }
                                lemma_not_dotted_prefix(acc2, rest, other@);
                            }
                            return false;
                        }
                        k = j + 1;
                    }
                    if other.len() - k < len {
                        proof {
                            lemma_not_dotted_prefix(acc2, rest, other@);
                        }
                        return false;
                    }
                    if !same_bytes(b, s, other, k, len) {
                        proof {
                            assert(dotted(acc2).subrange(k as int, k + len) =~= l);
                            if other@.subrange(0, dotted(acc2).len() as int) == dotted(acc2) {
                                assert(other@.subrange(k as int, k + len) =~= other@.subrange(0, dotted(acc2).len() as int).subrange(k as int, k + len));
                            }
                            lemma_not_dotted_prefix(acc2, rest, other@);
                        }
                        return false;
                    }
                    proof {
                        if j > 0 {
                            assert(other@.subrange(0, k + len) =~= other@.subrange(0, j as int) + seq![46u8] + other@.subrange(k as int, k + len));
                        } else {
                            assert(other@.subrange(0, k + len) =~= other@.subrange(k as int, k + len));
                        }
                        acc = acc2;
                    }
                    j = k + len;
                    pos = s + len;
                    depth = d;
                },
            }
        }
    }

    /// Whether the two names read as the same labels; pointers are followed
    /// on both sides.
    pub fn eq_name(&self, other: &Name) -> (r: bool)
        ensures
            r == (self.labels() is Some && self.labels() == other.labels()),
    {
        let ghost fa = self.labels();
        let ghost fb = other.labels();
        let mut pa = self.offset;
        let mut da: usize = 0;
        let mut pb = other.offset;
        let mut db: usize = 0;
        let ghost mut acc: Seq<Seq<u8>> = seq![];
        loop
            invariant
                fa == self.labels(),
                fb == other.labels(),
                da <= 256,
                db <= 256,
                fa == concat_labels(acc, name_labels_from(self.source(), self.start(), pa as int, da as nat)),
                fb == concat_labels(acc, name_labels_from(other.source(), other.start(), pb as int, db as nat)),
            decreases 256 - da,
        {
            let na = next_part(self.bytes, self.offset, pa, da);
            let nb = next_part(other.bytes, other.offset, pb, db);
            match (na, nb) {
                (Some((sa, la, da2)), Some((sb, lb, db2))) => {
                    let ghost ra = name_labels_from(self.source(), self.start(), (sa + la) as int, da2 as nat);
                    let ghost rb = name_labels_from(other.source(), other.start(), (sb + lb) as int, db2 as nat);
                    let ghost xa = self.bytes@.subrange(sa as int, sa + la);
                    let ghost xb = other.bytes@.subrange(sb as int, sb + lb);
                    assert(acc + Seq::<Seq<u8>>::empty() =~= acc);
                    if la == 0 && lb == 0 {
                        return true;
                    }
                    if la == 0 {
                        proof {
                            lemma_push_concat(acc, xb, rb);
                            lemma_ended_differs(acc, xb, rb);
                        }
                        return false;
                    }
                    if lb == 0 {
                        proof {
                            lemma_push_concat(acc, xa, ra);
                            lemma_ended_differs(acc, xa, ra);
                        }
                        return false;
                    }
                    proof {
                        lemma_push_concat(acc, xa, ra);
                        lemma_push_concat(acc, xb, rb);
                    }
                    if la != lb {
                        proof {
                            assert(xa.len() != xb.len());
                            lemma_diverge(acc, xa, xb, ra, rb);
                        }
                        return false;
                    }
                    if !same_bytes(self.bytes, sa, other.bytes, sb, la) {
                        proof {
                            lemma_diverge(acc, xa, xb, ra, rb);
                        }
                        return false;
                    }
                    proof {
                        acc = acc.push(xa);
                    }
                    pa = sa + la;
                    da = da2;
                    pb = sb + lb;
                    db = db2;
                },
                _ => {
                    return false;
                },
            }
        }
    }

    /// The name written out with dots between its labels; `Err` when its
    /// labels do not read as a name.
    pub fn to_dotted(&self) -> (r: Result<Vec<u8>, ()>)
        ensures
            r is Ok <==> self.labels() is Some,
            r matches Ok(v) ==> v@ == dotted(self.labels()->0),
    {
        let b = self.bytes;
        let origin = self.offset;
        let ghost full = self.labels();
        let mut pos = origin;
        let mut depth: usize = 0;
        let mut out: Vec<u8> = Vec::new();
        let mut first = true;
        let ghost mut acc: Seq<Seq<u8>> = seq![];
        loop
            invariant
                first == (acc.len() == 0),
                b@ == self.source(),
                origin == self.start(),
                full == self.labels(),
                depth <= 256,
                full == concat_labels(acc, name_labels_from(b@, origin as int, pos as int, depth as nat)),
                out@ == dotted(acc),
            decreases 256 - depth,
        {
            match next_part(b, origin, pos, depth) {
                None => {
                    return Err(());
                },
                Some((s, len, d)) => {
                    if len == 0 {
                        assert(acc + Seq::<Seq<u8>>::empty() =~= acc);
                        return Ok(out);
                    }
                    let ghost l = b@.subrange(s as int, s + len);
                    proof {
                        lemma_push_concat(acc, l, name_labels_from(b@, origin as int, (s + len) as int, d as nat));
                        lemma_dotted_push(acc, l);
                    }
                    if !first {
                        out.push(46u8);
                    }
                    let ghost mid = out@;
                    let mut k: usize = 0;
                    while k < len
                        invariant
                            k <= len,
                            s + len <= b@.len(),
                            s + len <= b.len(),
                            out@ == mid + b@.subrange(s as int, s + k),
                        decreases len - k,
                    {
                        out.push(b[s + k]);
                        k = k + 1;
                        assert(out@ =~= mid + b@.subrange(s as int, s + k));
                    }
                    proof {
                        acc = acc.push(l);
                    }
                    first = false;
                    pos = s + len;
                    depth = d;
                },
            }
        }
    }

    /// The name as text, its labels separated by dots; `Err` when its labels
    /// do not read as a name or are not UTF-8.
    pub fn to_string(&self) -> (r: Result<String, ()>)
        ensures
            r is Ok ==> self.labels() is Some,
            r matches Ok(t) ==> utf8_decode(dotted(self.labels()->0)) == Some(t@),
            self.labels() matches Some(ls) ==> (r is Ok <==> utf8_decode(dotted(ls)) is Some),
            self.labels() matches Some(ls) ==> (is_ascii(dotted(ls)) ==> (r matches Ok(t) && t@
                == ascii_text(dotted(ls)))),
    {
        let v = self.to_dotted()?;
        match utf8_string(v) {
            Some(t) => Ok(t),
            None => Err(()),
        }
    }

    /// Appends the name's labels, each after its length byte, to `buf`; pointers
    /// are followed, so only literal labels are written. On `Err` the buffer
    /// is left as it was.
    pub fn write_labels<B: ExtendableBuffer>(&self, buf: &mut B) -> (r: Result<(), ()>)
        requires
            old(buf).contents().len() <= old(buf).capacity(),
        ensures
            r is Ok <==> (self.labels() matches Some(ls) && old(buf).contents().len() + encode_labels(ls).len() <= old(buf).capacity()),
            r is Ok ==> final(buf).contents() == old(buf).contents() + encode_labels(self.labels()->0),
            r is Err ==> final(buf).contents() == old(buf).contents(),
            final(buf).capacity() == old(buf).capacity(),
    {
        let b = self.bytes;
        let origin = self.offset;
        let ghost full = self.labels();
        let ghost start = buf.contents();
        let start_len = buf.len();
        let mut pos = origin;
        let mut depth: usize = 0;
        let ghost mut acc: Seq<Seq<u8>> = seq![];
        loop
            invariant
                b@ == self.source(),
                origin == self.start(),
                full == self.labels(),
                depth <= 256,
                start_len == start.len(),
                full == concat_labels(acc, name_labels_from(b@, origin as int, pos as int, depth as nat)),
                buf.contents() == start + encode_labels(acc),
                buf.contents().len() <= buf.capacity(),
                buf.capacity() == old(buf).capacity(),
                start == old(buf).contents(),
            decreases 256 - depth,
        {
            match next_part(b, origin, pos, depth) {
                None => {
                    buf.truncate(start_len);
                    assert(buf.contents() =~= start);
                    return Err(());
                },
                Some((s, len, d)) => {
                    if len == 0 {
                        assert(acc + Seq::<Seq<u8>>::empty() =~= acc);
                        return Ok(());
                    }
                    let ghost l = b@.subrange(s as int, s + len);
                    let ghost rest = name_labels_from(b@, origin as int, (s + len) as int, d as nat);
                    proof {
                        lemma_push_concat(acc, l, rest);
                        assert(acc.push(l).drop_last() =~= acc);
                    }
                    let ghost acc2 = acc.push(l);
                    let head = [len as u8];
                    let label = vstd::slice::slice_subrange(b, s, s + len);
                    let ghost mid = buf.contents();
                    let ok = match buf.extend_from_slice(&head) {
                        Ok(()) => buf.extend_from_slice(label),
                        Err(()) => Err(()),
                    };
                    assert(encode_labels(acc2) == encode_labels(acc) + seq![len as u8] + l);
                    if ok.is_err() {
                        assert(mid.len() + 1 + len > buf.capacity());
                        proof {
                            if let Some(r) = rest {
                                lemma_encode_concat(acc2, r);
                            }
                        }
                        buf.truncate(start_len);
                        assert(buf.contents() =~= start);
                        return Err(());
                    }
                    assert(buf.contents() =~= start + encode_labels(acc2));
                    proof {
                        acc = acc2;
                    }
                    pos = s + len;
                    depth = d;
                },
            }
        }
    }
}

/// Appends `s` to `v`.
pub fn append_bytes(v: &mut Vec<u8>, s: &[u8])
    ensures
        final(v)@ == old(v)@ + s@,
{
    let mut k: usize = 0;
    while k < s.len()
        invariant
            k <= s@.len(),
            v@ == old(v)@ + s@.subrange(0, k as int),
        decreases s@.len() - k,
    {
        v.push(s[k]);
        k = k + 1;
        assert(v@ =~= old(v)@ + s@.subrange(0, k as int));
    }
    assert(s@.subrange(0, s@.len() as int) =~= s@);
}

/// A name in wire form as literal labels and a terminating zero; `None` when
/// its labels do not read as a name or would take more than 255 bytes.
pub open spec fn name_wire(n: Name) -> Option<Seq<u8>> {
    match n.labels() {
        Some(ls) => if encode_labels(ls).len() + 1 <= 255 {
            Some(encode_labels(ls) + seq![0u8])
        } else {
            None
        },
        None => None,
    }
}

impl<'a> Name<'a> {
    /// The name in wire form, as literal labels and a terminating zero;
    /// pointers are followed. `Err` when its labels do not read as a name or
    /// would take more than 255 bytes.
    pub fn to_wire(&self) -> (r: Result<Vec<u8>, ()>)
        ensures
            r is Ok <==> name_wire(*self) is Some,
            r matches Ok(v) ==> v@ == name_wire(*self)->0,
    {
        let b = self.bytes;
        let origin = self.offset;
        let ghost full = self.labels();
        let mut pos = origin;
        let mut depth: usize = 0;
        let mut out: Vec<u8> = Vec::new();
        let ghost mut acc: Seq<Seq<u8>> = seq![];
        loop
            invariant
                b@ == self.source(),
                origin == self.start(),
                full == self.labels(),
                depth <= 256,
                full == concat_labels(acc, name_labels_from(b@, origin as int, pos as int, depth as nat)),
                out@ == encode_labels(acc),
                out@.len() <= 255,
            decreases 256 - depth,
        {
            match next_part(b, origin, pos, depth) {
                None => {
                    return Err(());
                },
                Some((s, len, d)) => {
                    if len == 0 {
                        assert(acc + Seq::<Seq<u8>>::empty() =~= acc);
                        if out.len() + 1 > MAX_NAME_LEN {
                            return Err(());
                        }
                        out.push(0u8);
                        return Ok(out);
                    }
                    let ghost l = b@.subrange(s as int, s + len);
                    let ghost rest = name_labels_from(b@, origin as int, (s + len) as int, d as nat);
                    proof {
                        lemma_push_concat(acc, l, rest);
                        assert(acc.push(l).drop_last() =~= acc);
                    }
                    let ghost acc2 = acc.push(l);
                    if out.len() + 1 + len + 1 > MAX_NAME_LEN {
                        proof {
                            if let Some(r) = rest {
                                lemma_encode_concat(acc2, r);
                            }
                        }
                        return Err(());
                    }
                    out.push(len as u8);
                    append_bytes(&mut out, vstd::slice::slice_subrange(b, s, s + len));
                    assert(out@ =~= encode_labels(acc2));
                    proof {
                        acc = acc2;
                    }
                    pos = s + len;
                    depth = d;
                },
            }
        }
    }
}

impl PartialEq<[u8]> for Name<'_> {
    fn eq(&self, other: &[u8]) -> (r: bool) {
        self.eq_bytes(other)
    }
}

impl vstd::std_specs::cmp::PartialEqSpecImpl<[u8]> for Name<'_> {
    open spec fn obeys_eq_spec() -> bool {
        true
    }

    open spec fn eq_spec(&self, other: &[u8]) -> bool {
        self.labels() matches Some(ls) && dotted(ls) == other@
    }
}

impl PartialEq<Name<'_>> for Name<'_> {
    fn eq(&self, other: &Name<'_>) -> (r: bool) {
        self.eq_name(other)
    }
}

impl vstd::std_specs::cmp::PartialEqSpecImpl<Name<'_>> for Name<'_> {
    open spec fn obeys_eq_spec() -> bool {
        true
    }

    open spec fn eq_spec(&self, other: &Name<'_>) -> bool {
        self.labels() is Some && self.labels() == other.labels()
    }
}

/// What UTF-8 decoding makes of the bytes: `None` when they are not UTF-8.
pub uninterp spec fn utf8_decode(b: Seq<u8>) -> Option<Seq<char>>;

/// Whether every byte is ASCII.
pub open spec fn is_ascii(b: Seq<u8>) -> bool {
    forall|i: int| 0 <= i < b.len() ==> #[trigger] b[i] < 128
}

/// ASCII bytes read as text: one character per byte, of the same value.
pub open spec fn ascii_text(b: Seq<u8>) -> Seq<char> {
    b.map_values(|c: u8| c as char)
}

/// Relies on `String::from_utf8`: the text when the bytes are UTF-8. ASCII
/// bytes are UTF-8, each byte one character of the same value.
#[verifier::external_body]
fn utf8_string(v: Vec<u8>) -> (r: Option<String>)
    ensures
        r is Some <==> utf8_decode(v@) is Some,
        r is Some ==> utf8_decode(v@) == Some(r->0@),
        is_ascii(v@) ==> r is Some && r->0@ == ascii_text(v@),
{
    String::from_utf8(v).ok()
}

} // verus!
