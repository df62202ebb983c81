//! Paths into the store: ordered sequences of segments.
//!
//! The root is the empty sequence. Every segment is non-empty and free of the
//! separator `/`. In byte form the segments are joined by single separators;
//! reading bytes splits on the separator and drops empty segments, so
//! `"/a//b/"` and `"a/b"` name the same path.

use vstd::prelude::*;
use crate::bytes::copy_bytes;
use vstd::utf8::{decode_utf8, encode_utf8, valid_utf8};
use crate::percent::{
    decoded, encoded, lemma_decode_encode, percent_decode, percent_encode, SLASH,
};
use crate::text::{ascii_text, lemma_ascii_is_utf8, lossy, lossy_text};

verus! {

/// A segment is a non-empty run of bytes without a separator.
pub open spec fn is_segment(s: Seq<u8>) -> bool {
    s.len() > 0 && forall|i: int| 0 <= i < s.len() ==> s[i] != SLASH
}

/// Whether every element of `p` is a segment.
pub open spec fn are_segments(p: Seq<Seq<u8>>) -> bool {
    forall|i: int| 0 <= i < p.len() ==> is_segment(#[trigger] p[i])
}

/// The segments of `bytes`: its maximal separator-free runs, in order.
///
/// Read from the end: a separator closes the segment before it; any other
/// byte extends the segment that the byte before it belongs to, or opens a new
/// one after a separator or at the start.
pub open spec fn split(bytes: Seq<u8>) -> Seq<Seq<u8>>
    decreases bytes.len(),
{
    if bytes.len() == 0 {
        Seq::empty()
    } else {
        let init = bytes.drop_last();
        let segments = split(init);
        if bytes.last() == SLASH {
            segments
        } else if init.len() > 0 && init.last() != SLASH {
            segments.drop_last().push(segments.last().push(bytes.last()))
        } else {
            segments.push(seq![bytes.last()])
        }
    }
}

/// The byte form of a path: its segments with one separator between
/// neighbours.
pub open spec fn joined(p: Seq<Seq<u8>>) -> Seq<u8>
    decreases p.len(),
{
    if p.len() == 0 {
        Seq::empty()
    } else if p.len() == 1 {
        p[0]
    } else {
        joined(p.drop_last()) + seq![SLASH] + p.last()
    }
}

/// The views of the byte vectors in `v`, in order.
pub open spec fn views(v: Seq<Vec<u8>>) -> Seq<Seq<u8>> {
    v.map_values(|s: Vec<u8>| s@)
}

/// Splitting yields segments, and while the input does not end in a
/// separator the last of them is still open: it ends at the input's end.
pub proof fn lemma_split_segments(bytes: Seq<u8>)
    ensures
        are_segments(split(bytes)),
        bytes.len() > 0 && bytes.last() != SLASH ==> split(bytes).len() > 0,
    decreases bytes.len(),
{
    if bytes.len() > 0 {
        let init = bytes.drop_last();
        lemma_split_segments(init);
        let segments = split(init);
        if bytes.last() == SLASH {
        } else if init.len() > 0 && init.last() != SLASH {
            let grown = segments.last().push(bytes.last());
            assert(is_segment(segments.last()));
            assert(is_segment(grown));
            assert forall|i: int| 0 <= i < split(bytes).len() implies is_segment(
                #[trigger] split(bytes)[i],
            ) by {
                if i < segments.len() - 1 {
                    assert(split(bytes)[i] == segments[i]);
                }
            }
        } else {
            assert(is_segment(seq![bytes.last()]));
            assert forall|i: int| 0 <= i < split(bytes).len() implies is_segment(
                #[trigger] split(bytes)[i],
            ) by {
                if i < segments.len() {
                    assert(split(bytes)[i] == segments[i]);
                }
            }
        }
    }
}

/// A segment written after a separator, or at the very start, is read back as
/// one more segment.
proof fn lemma_split_append_segment(head: Seq<u8>, s: Seq<u8>)
    requires
        head.len() == 0 || head.last() == SLASH,
        is_segment(s),
    ensures
        split(head + s) == split(head).push(s),
    decreases s.len(),
{
    let whole = head + s;
    let init = whole.drop_last();
    assert(whole.last() == s.last());
    assert(init =~= head + s.drop_last());
    if s.len() == 1 {
        assert(init =~= head);
        assert(seq![whole.last()] =~= s);
    } else {
        let shorter = s.drop_last();
        assert(is_segment(shorter));
        lemma_split_append_segment(head, shorter);
        assert(init.last() == shorter.last());
        let segments = split(init);
        assert(segments.last() == shorter);
        assert(segments.drop_last() =~= split(head));
        assert(shorter.push(s.last()) =~= s);
    }
}

/// A segment on its own is read as the path of that one segment.
pub proof fn lemma_split_segment(s: Seq<u8>)
    requires
        is_segment(s),
    ensures
        split(s) == seq![s],
{
    lemma_split_append_segment(Seq::empty(), s);
    assert(Seq::<u8>::empty() + s =~= s);
    assert(Seq::<Seq<u8>>::empty().push(s) =~= seq![s]);
}

/// The byte form of a path is read back as the same path.
pub proof fn lemma_split_joined(p: Seq<Seq<u8>>)
    requires
        are_segments(p),
    ensures
        split(joined(p)) == p,
    decreases p.len(),
{
    if p.len() == 0 {
    } else if p.len() == 1 {
        assert(is_segment(p[0]));
        lemma_split_append_segment(Seq::empty(), p[0]);
        assert(Seq::<u8>::empty() + p[0] =~= p[0]);
        assert(Seq::<Seq<u8>>::empty().push(p[0]) =~= p);
    } else {
        let front = p.drop_last();
        assert(are_segments(front)) by {
            assert forall|i: int| 0 <= i < front.len() implies is_segment(#[trigger] front[i]) by {
                assert(front[i] == p[i]);
            }
        }
        lemma_split_joined(front);
        let head = joined(front) + seq![SLASH];
        assert(head.drop_last() =~= joined(front));
        assert(split(head) == front);
        assert(is_segment(p.last()));
        lemma_split_append_segment(head, p.last());
        assert(front.push(p.last()) =~= p);
    }
}

/// A path survives the trip through its percent-encoded byte form.
pub proof fn lemma_percent_round_trip(p: Seq<Seq<u8>>)
    requires
        are_segments(p),
    ensures
        split(decoded(encoded(joined(p)))) == p,
{
    lemma_decode_encode(joined(p));
    lemma_split_joined(p);
}

/// A path: the segments from the root down to an item.
#[derive(Debug)]
pub struct Path {
    segments: Vec<Vec<u8>>,
}

impl View for Path {
    type V = Seq<Seq<u8>>;

    closed spec fn view(&self) -> Seq<Seq<u8>> {
        views(self.segments@)
    }
}

impl Clone for Path {
    fn clone(&self) -> (r: Path)
        ensures
            r@ == self@,
    {
        proof {
            use_type_invariant(self);
        }
        let segments = self.copy_range(0, self.segments.len());
        assert(self@.subrange(0, self.segments.len() as int) =~= self@);
        Path { segments }
    }
}

impl vstd::std_specs::convert::FromSpecImpl<String> for Path {
    open spec fn obeys_from_spec() -> bool {
        false
    }

    open spec fn from_spec(text: String) -> Path {
        arbitrary()
    }
}

impl From<String> for Path {
    /// The path that the bytes of `text` name.
    fn from(text: String) -> (r: Path)
        ensures
            r@ == split(encode_utf8(text@)),
    {
        Path::from_bytes(text.as_str().as_bytes())
    }
}

impl Path {
    #[verifier::type_invariant]
    spec fn well_formed(self) -> bool {
        are_segments(views(self.segments@))
    }

    /// Fresh copies of the segments from position `from` up to, not
    /// including, position `to`.
    fn copy_range(&self, from: usize, to: usize) -> (v: Vec<Vec<u8>>)
        requires
            from <= to <= self@.len(),
        ensures
            views(v@) == self@.subrange(from as int, to as int),
    {
        let mut v: Vec<Vec<u8>> = Vec::new();
        let mut i: usize = from;
        assert(views(v@) =~= self@.subrange(from as int, from as int));
        while i < to
            invariant
                from <= i <= to <= self.segments.len(),
                views(v@) == self@.subrange(from as int, i as int),
            decreases to - i,
        {
            let ghost before = views(v@);
            let copy = copy_bytes(self.segments[i].as_slice());
            v.push(copy);
            assert(views(v@) =~= before.push(self.segments@[i as int]@));
            assert(self@.subrange(from as int, i as int).push(self@[i as int]) =~= self@.subrange(
                from as int,
                i + 1,
            ));
            i = i + 1;
        }
        v
    }

    /// The root.
    pub fn new() -> (r: Path)
        ensures
            r@ == Seq::<Seq<u8>>::empty(),
    {
        let segments: Vec<Vec<u8>> = Vec::new();
        assert(views(segments@) =~= Seq::<Seq<u8>>::empty());
        Path { segments }
    }

    /// The path that `bytes` name: their segments, empty ones dropped.
    pub fn from_bytes(bytes: &[u8]) -> (r: Path)
        ensures
            r@ == split(bytes@),
            are_segments(r@),
    {
        let mut segments: Vec<Vec<u8>> = Vec::new();
        let mut open: Vec<u8> = Vec::new();
        let mut i: usize = 0;
        assert(views(segments@) =~= Seq::<Seq<u8>>::empty());
        assert(bytes@.take(0) =~= Seq::<u8>::empty());
        while i < bytes.len()
            invariant
                i <= bytes.len(),
                open@.len() > 0 <==> i > 0 && bytes@[i - 1] != SLASH,
                split(bytes@.take(i as int)) == if open@.len() > 0 {
                    views(segments@).push(open@)
                } else {
                    views(segments@)
                },
            decreases bytes.len() - i,
        {
            let b: u8 = bytes[i];
            let ghost before = bytes@.take(i as int);
            let ghost now = bytes@.take(i + 1);
            let ghost closed = views(segments@);
            let ghost old_open = open@;
            assert(now.drop_last() =~= before);
            assert(now.last() == b);
            assert(i > 0 ==> before.last() == bytes@[i - 1]);
            if b == SLASH {
                assert(split(now) == split(before));
                if open.len() > 0 {
                    segments.push(open);
                    open = Vec::new();
                    assert(views(segments@) =~= closed.push(old_open));
                }
            } else {
                open.push(b);
                proof {
                    if old_open.len() > 0 {
                        assert(closed.push(old_open).drop_last() =~= closed);
                        assert(closed.push(old_open).last() == old_open);
                        assert(split(now) == closed.push(old_open.push(b)));
                    } else {
                        assert(open@ =~= seq![b]);
                        assert(split(now) == closed.push(seq![b]));
                    }
                }
            }
            i = i + 1;
        }
        assert(bytes@.take(i as int) =~= bytes@);
        if open.len() > 0 {
            let ghost closed = open@;
            let ghost old_segments = views(segments@);
            segments.push(open);
            assert(views(segments@) =~= old_segments.push(closed));
        }
        proof {
            lemma_split_segments(bytes@);
        }
        Path { segments }
    }

    /// The path that percent-encoded `text` names.
    pub fn from_percent_encoded(text: &[u8]) -> (r: Path)
        ensures
            r@ == split(decoded(text@)),
            are_segments(r@),
    {
        let bytes = percent_decode(text);
        Path::from_bytes(bytes.as_slice())
    }

    /// Whether this is the root.
    pub fn is_empty(&self) -> (r: bool)
        ensures
            r == (self@.len() == 0),
    {
        self.segments.len() == 0
    }

    /// The number of segments.
    pub fn segments(&self) -> (n: usize)
        ensures
            n == self@.len(),
    {
        self.segments.len()
    }

    /// The segment at position `i`, counted from the root.
    pub fn segment(&self, i: usize) -> (s: &[u8])
        requires
            i < self@.len(),
        ensures
            s@ == self@[i as int],
    {
        self.segments[i].as_slice()
    }

    /// The path one level up, or nothing for the root.
    pub fn parent(&self) -> (r: Option<Path>)
        ensures
            self@.len() == 0 ==> r is None,
            self@.len() > 0 ==> r is Some && r->Some_0@ == self@.drop_last(),
    {
        if self.segments.len() == 0 {
            return None;
        }
        proof {
            use_type_invariant(self);
        }
        let segments = self.copy_range(0, self.segments.len() - 1);
        assert(self@.subrange(0, self.segments.len() - 1) =~= self@.drop_last());
        Some(Path { segments })
    }

    /// The last segment, or nothing for the root.
    pub fn filename(&self) -> (r: Option<Vec<u8>>)
        ensures
            self@.len() == 0 ==> r is None,
            self@.len() > 0 ==> r is Some && r->Some_0@ == self@.last(),
    {
        let n: usize = self.segments.len();
        if n == 0 {
            None
        } else {
            Some(copy_bytes(self.segments[n - 1].as_slice()))
        }
    }

    /// Removes the first segment and returns it; the root stays as it is.
    pub fn pop_first(&mut self) -> (r: Option<Vec<u8>>)
        ensures
            old(self)@.len() == 0 ==> r is None && final(self)@ == old(self)@,
            old(self)@.len() > 0 ==> r is Some && r->Some_0@ == old(self)@[0] && final(self)@
                == old(self)@.skip(1),
    {
        proof {
            use_type_invariant(&*self);
        }
        if self.segments.len() == 0 {
            return None;
        }
        let first = copy_bytes(self.segments[0].as_slice());
        let rest = self.copy_range(1, self.segments.len());
        assert(self@.subrange(1, self.segments.len() as int) =~= self@.skip(1));
        self.segments = rest;
        Some(first)
    }

    /// Appends the segments of `bytes`.
    pub fn push(&mut self, bytes: &[u8])
        ensures
            final(self)@ == old(self)@ + split(bytes@),
    {
        proof {
            use_type_invariant(&*self);
        }
        let mut segments = self.copy_range(0, self.segments.len());
        assert(self@.subrange(0, self.segments.len() as int) =~= self@);
        let Path { segments: mut more } = Path::from_bytes(bytes);
        let ghost before = views(segments@);
        let ghost added = views(more@);
        segments.append(&mut more);
        assert(views(segments@) =~= before + added);
        self.segments = segments;
    }

    /// The byte form: the segments with one separator between neighbours.
    pub fn bytes(&self) -> (r: Vec<u8>)
        ensures
            r@ == joined(self@),
            split(r@) == self@,
    {
        proof {
            use_type_invariant(self);
            lemma_split_joined(self@);
        }
        let mut r: Vec<u8> = Vec::new();
        let mut i: usize = 0;
        assert(self@.take(0) =~= Seq::<Seq<u8>>::empty());
        while i < self.segments.len()
            invariant
                i <= self.segments.len(),
                r@ == joined(self@.take(i as int)),
            decreases self.segments.len() - i,
        {
            let ghost sofar = self@.take(i as int);
            let ghost next = self@.take(i + 1);
            assert(next.drop_last() =~= sofar);
            assert(next.last() == self.segments@[i as int]@);
            if i > 0 {
                r.push(SLASH);
            }
            let segment = &self.segments[i];
            let mut j: usize = 0;
            let ghost start = r@;
            while j < segment.len()
                invariant
                    j <= segment.len(),
                    r@ == start + segment@.take(j as int),
                decreases segment.len() - j,
            {
                r.push(segment[j]);
                assert(segment@.take(j + 1) =~= segment@.take(j as int).push(segment@[j as int]));
                j = j + 1;
            }
            assert(segment@.take(j as int) =~= segment@);
            assert(r@ =~= joined(next));
            i = i + 1;
        }
        assert(self@.take(i as int) =~= self@);
        r
    }

    /// The path as text, for display: the byte form, read as UTF-8.
    pub fn to_string(&self) -> (text: String)
        ensures
            text@ == lossy(joined(self@)),
            valid_utf8(joined(self@)) ==> text@ == decode_utf8(joined(self@)),
    {
        let bytes = self.bytes();
        lossy_text(bytes.as_slice())
    }

    /// The percent-encoded byte form, as ASCII text.
    pub fn percent_encode(&self) -> (text: String)
        ensures
            text@ == ascii_text(encoded(joined(self@))),
            split(decoded(encoded(joined(self@)))) == self@,
    {
        proof {
            use_type_invariant(self);
            lemma_percent_round_trip(self@);
        }
        let bytes = self.bytes();
        let encoding = percent_encode(bytes.as_slice());
        proof {
            lemma_ascii_is_utf8(encoding@);
        }
        lossy_text(encoding.as_slice())
    }
}

} // verus!
