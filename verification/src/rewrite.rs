//! The source rewriter: a working copy of the source from which whole byte
//! spans are struck out, every other byte keeping its place in the order.

use vstd::prelude::*;

verus! {

/// The offset lies inside one of the spans. A span is a pair of a start and
/// an end offset, the end not included.
pub open spec fn struck(spans: Seq<(int, int)>, offset: int) -> bool {
    exists|k: int| 0 <= k < spans.len() && (#[trigger] spans[k]).0 <= offset < spans[k].1
}

/// The source without the bytes that lie inside one of the spans: the bytes
/// that stay keep their order.
pub open spec fn excise(source: Seq<u8>, spans: Seq<(int, int)>) -> Seq<u8>
    decreases source.len(),
{
    if source.len() == 0 {
        Seq::empty()
    } else {
        let rest = excise(source.drop_last(), spans);
        if struck(spans, source.len() - 1) {
            rest
        } else {
            rest.push(source.last())
        }
    }
}

/// How many of the first `upto` offsets lie inside one of the spans.
pub open spec fn struck_before(spans: Seq<(int, int)>, upto: int) -> nat
    decreases upto,
{
    if upto <= 0 {
        0
    } else if struck(spans, upto - 1) {
        struck_before(spans, upto - 1) + 1
    } else {
        struck_before(spans, upto - 1)
    }
}

/// What has been struck out of a source: a mark for each byte, and the
/// spans that the marks come from.
struct Strikes {
    marks: Vec<bool>,
    spans: Ghost<Seq<(int, int)>>,
}

/// A working copy of a source text from which spans can be struck out.
pub struct SourceBuffer {
    source: Vec<u8>,
    strikes: Strikes,
}

impl SourceBuffer {
    /// The buffer knows of every byte of the source whether a removed span
    /// covers it.
    #[verifier::type_invariant]
    spec fn wf(&self) -> bool {
        &&& self.strikes.marks@.len() == self.source@.len()
        &&& forall|i: int|
            0 <= i < self.source@.len() ==> #[trigger] self.strikes.marks@[i] == struck(
                self.strikes.spans@,
                i,
            )
    }

    /// The source that the buffer was made from.
    pub closed spec fn source(&self) -> Seq<u8> {
        self.source@
    }

    /// The spans removed so far, in the order of their removal.
    pub closed spec fn removed(&self) -> Seq<(int, int)> {
        self.strikes.spans@
    }

    /// The text that is left.
    pub open spec fn text(&self) -> Seq<u8> {
        excise(self.source(), self.removed())
    }

    /// Starts a working copy of `source`, with nothing removed.
    pub fn new(source: &[u8]) -> (buffer: SourceBuffer)
        ensures
            buffer.source() == source@,
            buffer.removed() == Seq::<(int, int)>::empty(),
    {
        let mut copy: Vec<u8> = Vec::new();
        let mut marks: Vec<bool> = Vec::new();
        let mut i: usize = 0;
        while i < source.len()
            invariant
                i <= source@.len(),
                copy@ == source@.take(i as int),
                marks@.len() == i,
                forall|j: int| 0 <= j < i ==> !(#[trigger] marks@[j]),
            decreases source@.len() - i,
        {
            copy.push(source[i]);
            marks.push(false);
            proof {
                assert(source@.take(i + 1) == source@.take(i as int).push(source@[i as int]));
            }
            i += 1;
        }
        proof {
            assert(source@.take(source@.len() as int) == source@);
        }
        SourceBuffer { source: copy, strikes: Strikes { marks, spans: Ghost(Seq::empty()) } }
    }

    /// Strikes the bytes of the span `[start, end)` out of the text. Offsets
    /// are those of the source as it was, whatever was removed before.
    pub fn remove_span(&mut self, start: usize, end: usize)
        ensures
            final(self).source() == old(self).source(),
            final(self).removed() == old(self).removed().push((start as int, end as int)),
    {
        proof {
            use_type_invariant(&*self);
        }
        let ghost before = self.strikes.spans@;
        let ghost after = before.push((start as int, end as int));
        let length = self.strikes.marks.len();
        let mut marks: Vec<bool> = Vec::new();
        let mut i: usize = 0;
        while i < length
            invariant
                i <= length,
                length == self.strikes.marks@.len(),
                marks@.len() == i,
                forall|j: int|
                    0 <= j < i ==> #[trigger] marks@[j] == (self.strikes.marks@[j] || start <= j
                        < end),
            decreases length - i,
        {
            marks.push(self.strikes.marks[i] || (start <= i && i < end));
            i += 1;
        }
        proof {
            assert forall|j: int| 0 <= j < marks@.len() implies #[trigger] marks@[j] == struck(
                after,
                j,
            ) by {
                lemma_struck_push(before, (start as int, end as int), j);
                assert(self.strikes.marks@[j] == struck(before, j));
            }
        }
        self.strikes = Strikes { marks, spans: Ghost(after) };
    }

    /// Copies out the text that is left.
    pub fn to_bytes(&self) -> (bytes: Vec<u8>)
        ensures
            bytes@ == self.text(),
    {
        proof {
            use_type_invariant(self);
        }
        let mut bytes: Vec<u8> = Vec::new();
        let mut i: usize = 0;
        while i < self.source.len()
            invariant
                self.strikes.marks@.len() == self.source@.len(),
                forall|j: int|
                    0 <= j < self.source@.len() ==> #[trigger] self.strikes.marks@[j] == struck(
                        self.strikes.spans@,
                        j,
                    ),
                i <= self.source@.len(),
                bytes@ == excise(self.source@.take(i as int), self.strikes.spans@),
            decreases self.source@.len() - i,
        {
            proof {
                assert(self.source@.take(i + 1).drop_last() == self.source@.take(i as int));
            }
            if !self.strikes.marks[i] {
                bytes.push(self.source[i]);
            }
            i += 1;
        }
        proof {
            assert(self.source@.take(self.source@.len() as int) == self.source@);
        }
        bytes
    }
}

/// An offset lies inside the spans with one more span added exactly when it
/// lay inside the spans before or lies inside the added one.
pub proof fn lemma_struck_push(spans: Seq<(int, int)>, span: (int, int), offset: int)
    ensures
        struck(spans.push(span), offset) == (struck(spans, offset) || span.0 <= offset < span.1),
{
    let more = spans.push(span);
    assert(more[spans.len() as int] == span);
    if struck(spans, offset) {
        let k = choose|k: int| 0 <= k < spans.len() && (#[trigger] spans[k]).0 <= offset < spans[k].1;
        assert(more[k] == spans[k]);
    }
    if struck(more, offset) {
        let k = choose|k: int| 0 <= k < more.len() && (#[trigger] more[k]).0 <= offset < more[k].1;
        if k < spans.len() {
            assert(more[k] == spans[k]);
        }
    }
}

/// Removing one span that lies inside the source leaves the text before the
/// span followed by the text after it, and nothing else.
pub proof fn lemma_excise_one_span(source: Seq<u8>, start: int, end: int)
    requires
        0 <= start <= end <= source.len(),
    ensures
        excise(source, seq![(start, end)]) == source.subrange(0, start) + source.subrange(
            end,
            source.len() as int,
        ),
    decreases source.len(),
{
    let spans = seq![(start, end)];
    let whole = source.len() as int;
    assert(forall|i: int| struck(spans, i) <==> start <= i < end) by {
        assert(spans[0] == (start, end));
    }
    if whole == 0 {
        assert(source.subrange(0, start) + source.subrange(end, whole) =~= Seq::<u8>::empty());
    } else if end == whole {
        lemma_excise_covered_tail(source, spans, start);
        assert(source.subrange(0, start) + source.subrange(end, whole) =~= source.subrange(
            0,
            start,
        ));
        lemma_excise_untouched(source.subrange(0, start), spans);
    } else {
        let shorter = source.drop_last();
        lemma_excise_one_span(shorter, start, end);
        assert(shorter.subrange(0, start) =~= source.subrange(0, start));
        assert(shorter.subrange(end, whole - 1).push(source.last()) =~= source.subrange(
            end,
            whole,
        ));
        assert((source.subrange(0, start) + shorter.subrange(end, whole - 1)).push(source.last())
            =~= source.subrange(0, start) + source.subrange(end, whole));
    }
}

/// A source of which no byte lies inside a span comes through unchanged.
pub proof fn lemma_excise_untouched(source: Seq<u8>, spans: Seq<(int, int)>)
    requires
        forall|i: int| 0 <= i < source.len() ==> !struck(spans, i),
    ensures
        excise(source, spans) == source,
    decreases source.len(),
{
    if source.len() > 0 {
        lemma_excise_untouched(source.drop_last(), spans);
        assert(source.drop_last().push(source.last()) =~= source);
    }
}

/// Where every byte from `from` on lies inside a span, only the bytes before
/// `from` can stay.
pub proof fn lemma_excise_covered_tail(source: Seq<u8>, spans: Seq<(int, int)>, from: int)
    requires
        0 <= from <= source.len(),
        forall|i: int| from <= i < source.len() ==> struck(spans, i),
    ensures
        excise(source, spans) == excise(source.subrange(0, from), spans),
    decreases source.len(),
{
    if from == source.len() {
        assert(source.subrange(0, from) =~= source);
    } else {
        lemma_excise_covered_tail(source.drop_last(), spans, from);
        assert(source.drop_last().subrange(0, from) =~= source.subrange(0, from));
    }
}

/// Where the byte at `offset` of the source stands in the text that is left,
/// if no span covers it: it moves towards the front by the number of struck
/// bytes before it.
pub open spec fn place_after(spans: Seq<(int, int)>, offset: int) -> int {
    offset - struck_before(spans, offset)
}

/// Every byte of the source that lies inside no span stands in the text that
/// is left, at its place; the text holds as many bytes as the source has
/// outside the spans.
pub proof fn lemma_excise_keeps_places(source: Seq<u8>, spans: Seq<(int, int)>)
    ensures
        excise(source, spans).len() == place_after(spans, source.len() as int),
        forall|i: int|
            0 <= i < source.len() && !struck(spans, i) ==> 0 <= #[trigger] place_after(spans, i)
                < excise(source, spans).len(),
        forall|i: int|
            0 <= i < source.len() && !struck(spans, i) ==> excise(source, spans)[#[trigger] place_after(
                spans,
                i,
            )] == source[i],
    decreases source.len(),
{
    if source.len() > 0 {
        let shorter = source.drop_last();
        let last = source.len() - 1;
        let kept = excise(shorter, spans);
        lemma_excise_keeps_places(shorter, spans);
        assert(kept.len() == place_after(spans, last));
        assert forall|i: int| 0 <= i < source.len() && !struck(spans, i) implies 0
            <= #[trigger] place_after(spans, i) < excise(source, spans).len() && excise(
            source,
            spans,
        )[place_after(spans, i)] == source[i] by {
            if i < last {
                assert(shorter[i] == source[i]);
                assert(kept[place_after(spans, i)] == shorter[i]);
            } else {
                assert(excise(source, spans) == kept.push(source.last()));
            }
        }
    }
}

/// The places of the bytes that stay never move past each other, and no byte
/// moves towards the back.
pub proof fn lemma_places_keep_order(spans: Seq<(int, int)>, first: int, second: int)
    requires
        0 <= first <= second,
    ensures
        place_after(spans, first) <= place_after(spans, second),
        place_after(spans, second) <= second,
        !struck(spans, first) && first < second ==> place_after(spans, first) < place_after(
            spans,
            second,
        ),
    decreases second - first,
{
    lemma_struck_before_bounds(spans, second);
    if first < second {
        lemma_places_keep_order(spans, first, second - 1);
        if first == second - 1 {
        }
    }
}

/// No more offsets are struck before `upto` than there are offsets.
pub proof fn lemma_struck_before_bounds(spans: Seq<(int, int)>, upto: int)
    requires
        0 <= upto,
    ensures
        struck_before(spans, upto) <= upto,
    decreases upto,
{
    if upto > 0 {
        lemma_struck_before_bounds(spans, upto - 1);
    }
}

} // verus!
