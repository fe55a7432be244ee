use vstd::prelude::*;
use crate::types::{Segment, TranscriptChunk};

verus! {

/// The cut times: the boundaries, then the end of the last chunk (0 without chunks).
pub open spec fn boundary_times(chunks: Seq<TranscriptChunk>, boundaries: Seq<u64>) -> Seq<u64> {
    boundaries.push(if chunks.len() == 0 { 0 } else { chunks.last().end_time })
}

/// Texts of the chunks that overlap the open interval (start, end), in order.
pub open spec fn texts_between(chunks: Seq<TranscriptChunk>, start: u64, end: u64) -> Seq<Seq<char>>
    decreases chunks.len(),
{
    if chunks.len() == 0 {
        seq![]
    } else {
        let prev = texts_between(chunks.drop_last(), start, end);
        let c = chunks.last();
        if c.start_time < end && c.end_time > start {
            prev.push(c.text@)
        } else {
            prev
        }
    }
}

/// The texts joined with single spaces.
pub open spec fn join_spaced(ts: Seq<Seq<char>>) -> Seq<char>
    decreases ts.len(),
{
    if ts.len() == 0 {
        seq![]
    } else if ts.len() == 1 {
        ts[0]
    } else {
        join_spaced(ts.drop_last()) + seq![' '] + ts.last()
    }
}

/// Joining two non-empty runs of texts one after the other is joining each and putting
/// one space between: no text is dropped or repeated, and every two neighbours are
/// separated by exactly one space.
pub proof fn lemma_join_spaced_append(a: Seq<Seq<char>>, b: Seq<Seq<char>>)
    requires
        a.len() > 0,
        b.len() > 0,
    ensures
        join_spaced(a + b) == join_spaced(a) + seq![' '] + join_spaced(b),
    decreases b.len(),
{
    let ab = a + b;
    assert(ab.last() == b.last());
    if b.len() == 1 {
        assert(ab.drop_last() =~= a);
    } else {
        let b1 = b.drop_last();
        assert(ab.drop_last() =~= a + b1);
        lemma_join_spaced_append(a, b1);
        assert(join_spaced(ab) =~= join_spaced(a) + seq![' '] + join_spaced(b));
    }
}

/// The join of a single text is that text.
pub proof fn lemma_join_spaced_single(t: Seq<char>)
    ensures
        join_spaced(seq![t]) == t,
{
}

/// A segment's texts are those of exactly the chunks that overlap it, in chunk order.
pub proof fn lemma_texts_between_overlapping(chunks: Seq<TranscriptChunk>, start: u64, end: u64)
    ensures
        texts_between(chunks, start, end) == chunks.filter_map(
            |c: TranscriptChunk|
                if c.start_time < end && c.end_time > start {
                    Some(c.text@)
                } else {
                    None
                },
        ),
    decreases chunks.len(),
{
    if chunks.len() > 0 {
        lemma_texts_between_overlapping(chunks.drop_last(), start, end);
    }
}

/// Start of the `i`-th segment: 0 for the first, else the previous cut.
pub open spec fn segment_start(cuts: Seq<u64>, i: int) -> u64 {
    if i == 0 {
        0
    } else {
        cuts[i - 1]
    }
}

fn text_between(chunks: &[TranscriptChunk], start: u64, end: u64) -> (text: String)
    ensures
        text@ == join_spaced(texts_between(chunks@, start, end)),
{
    let mut text = String::new();
    let mut any = false;
    let n = chunks.len();
    proof {
        reveal_strlit(" ");
    }
    for j in 0..n
        invariant
            n == chunks@.len(),
            text@ == join_spaced(texts_between(chunks@.take(j as int), start, end)),
            any == (texts_between(chunks@.take(j as int), start, end).len() > 0),
    {
        let ghost before = texts_between(chunks@.take(j as int), start, end);
        proof {
            reveal_strlit(" ");
            assert(chunks@.take(j + 1).drop_last() =~= chunks@.take(j as int));
        }
        let c = &chunks[j];
        if c.start_time < end && c.end_time > start {
            if any {
                proof {
                    if before.len() == 0 {
                    } else if before.len() == 1 {
                        assert(join_spaced(before) == before[0]);
                    }
                }
                text.append(" ");
            }
            text.append(c.text.as_str());
            any = true;
            proof {
                let after = before.push(c.text@);
                assert(after.drop_last() =~= before);
                if before.len() == 0 {
                    assert(text@ =~= join_spaced(after));
                } else {
                    assert(join_spaced(after) == join_spaced(before) + seq![' '] + c.text@);
                    assert(text@ =~= join_spaced(after));
                }
            }
        }
    }
    proof {
        assert(chunks@.take(n as int) =~= chunks@);
    }
    text
}

/// Splits the transcript at the boundaries: one segment per cut, from the previous
/// cut (or 0) to this one, holding the text of the chunks that overlap it.
pub fn create_segments(chunks: &[TranscriptChunk], boundaries: &[u64]) -> (segments: Vec<Segment>)
    ensures
        segments@.len() == boundaries@.len() + 1,
        forall|i: int|
            0 <= i < segments@.len() ==> {
                let cuts = boundary_times(chunks@, boundaries@);
                &&& #[trigger] segments@[i].start_time == segment_start(cuts, i)
                &&& segments@[i].end_time == cuts[i]
                &&& segments@[i].text@ == join_spaced(
                    texts_between(chunks@, segment_start(cuts, i), cuts[i]),
                )
            },
        segments@[0].start_time == 0,
        forall|i: int|
            0 <= i < segments@.len() - 1 ==> #[trigger] segments@[i].end_time == segments@[i
                + 1].start_time,
        segments@.last().end_time == (if chunks@.len() == 0 {
            0
        } else {
            chunks@.last().end_time
        }),
{
    let ghost cuts = boundary_times(chunks@, boundaries@);
    let mut times: Vec<u64> = Vec::new();
    for i in 0..boundaries.len()
        invariant
            times@ == boundaries@.take(i as int),
    {
        times.push(boundaries[i]);
        proof {
            assert(boundaries@.take(i + 1) =~= boundaries@.take(i as int).push(boundaries@[i as int]));
        }
    }
    proof {
        assert(boundaries@.take(boundaries@.len() as int) =~= boundaries@);
    }
    let last_end = if chunks.len() == 0 {
        0
    } else {
        chunks[chunks.len() - 1].end_time
    };
    times.push(last_end);
    let mut segments: Vec<Segment> = Vec::new();
    let mut current_start: u64 = 0;
    let n = times.len();
    let mut i: usize = 0;
    while i < n
        invariant
            n == times@.len(),
            i <= n,
            times@ == cuts,
            segments@.len() == i,
            current_start == segment_start(cuts, i as int),
            forall|k: int|
                0 <= k < i ==> {
                    &&& #[trigger] segments@[k].start_time == segment_start(cuts, k)
                    &&& segments@[k].end_time == cuts[k]
                    &&& segments@[k].text@ == join_spaced(
                        texts_between(chunks@, segment_start(cuts, k), cuts[k]),
                    )
                },
        decreases n - i,
    {
        let boundary_time = times[i];
        let text = text_between(chunks, current_start, boundary_time);
        let ghost prev = segments@;
        segments.push(Segment { start_time: current_start, end_time: boundary_time, text });
        proof {
            assert forall|k: int| 0 <= k < i + 1 implies {
                &&& #[trigger] segments@[k].start_time == segment_start(cuts, k)
                &&& segments@[k].end_time == cuts[k]
                &&& segments@[k].text@ == join_spaced(
                    texts_between(chunks@, segment_start(cuts, k), cuts[k]),
                )
            } by {
                if k < i {
                    assert(segments@[k] == prev[k]);
                } else {
                    assert(k == i);
                    assert(segments@[k].start_time == current_start);
                    assert(segments@[k].end_time == cuts[k]);
                    assert(segments@[k].text@ == join_spaced(
                        texts_between(chunks@, current_start, boundary_time)));
                }
            }
        }
        current_start = boundary_time;
        i = i + 1;
    }
    proof {
        assert forall|i: int| 0 <= i < segments@.len() - 1 implies #[trigger] segments@[i].end_time
            == segments@[i + 1].start_time by {
            assert(segments@[i].start_time == segment_start(cuts, i));
            assert(segments@[i + 1].start_time == segment_start(cuts, i + 1));
        }
        assert(segments@[0].start_time == segment_start(cuts, 0));
        assert(segments@.last() == segments@[n - 1]);
        assert(segments@[n - 1].start_time == segment_start(cuts, n - 1));
        assert(cuts[n - 1] == last_end);
    }
    segments
}

} // verus!
