use vstd::prelude::*;
use crate::error::AppError;
use crate::types::ProcessedSegment;
use crate::text::{escape_quotes, push_escaped, push_seconds, seconds_text};

verus! {

broadcast use vstd::seq_lib::group_to_multiset_ensures;

/// What the editor reads of a segment: (start, end, is it an ad).
pub type SegmentKey = (u64, u64, bool);

pub open spec fn key_of(s: ProcessedSegment) -> SegmentKey {
    (s.start_time, s.end_time, s.is_ad)
}

pub open spec fn keys_of(s: Seq<ProcessedSegment>) -> Seq<SegmentKey> {
    s.map_values(|x: ProcessedSegment| key_of(x))
}

/// Inserts `x` behind every element that starts no later than it.
pub open spec fn insert_by_start(s: Seq<SegmentKey>, x: SegmentKey) -> Seq<SegmentKey>
    decreases s.len(),
{
    if s.len() == 0 {
        seq![x]
    } else if s.last().0 <= x.0 {
        s.push(x)
    } else {
        insert_by_start(s.drop_last(), x).push(s.last())
    }
}

/// Stable sort by start time (segments with equal starts keep their order).
pub open spec fn sort_by_start(s: Seq<SegmentKey>) -> Seq<SegmentKey>
    decreases s.len(),
{
    if s.len() == 0 {
        seq![]
    } else {
        insert_by_start(sort_by_start(s.drop_last()), s.last())
    }
}

pub open spec fn sorted_by_start(s: Seq<SegmentKey>) -> bool {
    forall|i: int, j: int| 0 <= i <= j < s.len() ==> s[i].0 <= s[j].0
}

/// Scan state: closed blocks, start of the open block, end of the last kept segment.
pub type KeepState = (Seq<(u64, u64)>, Option<u64>, u64);

pub open spec fn keep_step(st: KeepState, k: SegmentKey) -> KeepState {
    if !k.2 {
        (st.0, if st.1 is None { Some(k.0) } else { st.1 }, k.1)
    } else {
        match st.1 {
            Some(start) => (st.0.push((start, st.2)), None, st.2),
            None => st,
        }
    }
}

pub open spec fn keep_scan(s: Seq<SegmentKey>) -> KeepState
    decreases s.len(),
{
    if s.len() == 0 {
        (seq![], None, 0)
    } else {
        keep_step(keep_scan(s.drop_last()), s.last())
    }
}

/// Maximal runs of consecutive non-ad segments, each as (start of its first, end of its last).
pub open spec fn keep_blocks(s: Seq<SegmentKey>) -> Seq<(u64, u64)> {
    let st = keep_scan(s);
    match st.1 {
        Some(start) => st.0.push((start, st.2)),
        None => st.0,
    }
}

/// The blocks the editor keeps for a detection result.
pub open spec fn keep_blocks_of(segments: Seq<ProcessedSegment>) -> Seq<(u64, u64)> {
    keep_blocks(sort_by_start(keys_of(segments)))
}

proof fn lemma_insert_at(s: Seq<SegmentKey>, x: SegmentKey, p: int)
    requires
        sorted_by_start(s),
        0 <= p <= s.len(),
        forall|j: int| 0 <= j < p ==> s[j].0 <= x.0,
        p < s.len() ==> s[p].0 > x.0,
    ensures
        insert_by_start(s, x) == s.insert(p, x),
    decreases s.len(),
{
    if s.len() == 0 {
        assert(s.insert(p, x) =~= seq![x]);
    } else if s.last().0 <= x.0 {
        assert(p == s.len());
        assert(s.insert(p, x) =~= s.push(x));
    } else {
        let t = s.drop_last();
        assert(p < s.len());
        lemma_insert_at(t, x, p);
        assert(insert_by_start(s, x) == t.insert(p, x).push(s.last()));
        assert(t.insert(p, x).push(s.last()) =~= s.insert(p, x));
    }
}

proof fn lemma_insert_multiset(s: Seq<SegmentKey>, x: SegmentKey)
    ensures
        insert_by_start(s, x).to_multiset() == s.to_multiset().insert(x),
    decreases s.len(),
{
    if s.len() == 0 {
    } else if s.last().0 <= x.0 {
    } else {
        let t = s.drop_last();
        lemma_insert_multiset(t, x);
        assert(s == t.push(s.last()));
        assert(insert_by_start(s, x).to_multiset() =~= s.to_multiset().insert(x));
    }
}

proof fn lemma_insert_sorted(s: Seq<SegmentKey>, x: SegmentKey)
    requires
        sorted_by_start(s),
    ensures
        sorted_by_start(insert_by_start(s, x)),
    decreases s.len(),
{
    if s.len() == 0 {
    } else if s.last().0 <= x.0 {
    } else {
        let t = s.drop_last();
        lemma_insert_sorted(t, x);
        lemma_insert_multiset(t, x);
        let u = insert_by_start(t, x);
        assert forall|i: int| 0 <= i < u.len() implies u[i].0 <= s.last().0 by {
            assert(u.to_multiset().count(u[i]) > 0);
            if u[i] != x {
                assert(t.to_multiset().count(u[i]) > 0);
                assert(t.contains(u[i]));
                let j = choose|j: int| 0 <= j < t.len() && t[j] == u[i];
                assert(s[j] == t[j]);
            }
        }
    }
}

/// Sorting by start time orders the segments by start.
pub proof fn lemma_sort_by_start_sorted(s: Seq<SegmentKey>)
    ensures
        sorted_by_start(sort_by_start(s)),
    decreases s.len(),
{
    if s.len() > 0 {
        lemma_sort_by_start_sorted(s.drop_last());
        lemma_insert_sorted(sort_by_start(s.drop_last()), s.last());
    }
}

/// Sorting by start time neither adds nor drops segments.
pub proof fn lemma_sort_by_start_permutes(s: Seq<SegmentKey>)
    ensures
        sort_by_start(s).to_multiset() == s.to_multiset(),
    decreases s.len(),
{
    if s.len() > 0 {
        let t = s.drop_last();
        lemma_sort_by_start_permutes(t);
        lemma_insert_multiset(sort_by_start(t), s.last());
        assert(s == t.push(s.last()));
    }
}

proof fn lemma_scan_open_or_closed(s: Seq<SegmentKey>)
    ensures
        (keep_scan(s).0.len() > 0 || keep_scan(s).1 is Some) <==> exists|i: int|
            0 <= i < s.len() && !#[trigger] s[i].2,
    decreases s.len(),
{
    if s.len() > 0 {
        let t = s.drop_last();
        lemma_scan_open_or_closed(t);
        if exists|i: int| 0 <= i < t.len() && !#[trigger] t[i].2 {
            let i = choose|i: int| 0 <= i < t.len() && !#[trigger] t[i].2;
            assert(!s[i].2);
        }
        if exists|i: int| 0 <= i < s.len() && !#[trigger] s[i].2 {
            let i = choose|i: int| 0 <= i < s.len() && !#[trigger] s[i].2;
            if i < t.len() {
                assert(!t[i].2);
            }
        }
    }
}

/// Nothing is kept exactly when every segment is an ad.
pub proof fn lemma_keep_blocks_empty_iff_all_ads(segments: Seq<ProcessedSegment>)
    ensures
        keep_blocks_of(segments).len() == 0 <==> forall|i: int|
            0 <= i < segments.len() ==> #[trigger] segments[i].is_ad,
{
    let keys = keys_of(segments);
    let sorted = sort_by_start(keys);
    lemma_sort_by_start_permutes(keys);
    lemma_scan_open_or_closed(sorted);
    if exists|i: int| 0 <= i < sorted.len() && !#[trigger] sorted[i].2 {
        let i = choose|i: int| 0 <= i < sorted.len() && !#[trigger] sorted[i].2;
        assert(sorted.to_multiset().count(sorted[i]) > 0);
        assert(keys.contains(sorted[i]));
        let j = choose|j: int| 0 <= j < keys.len() && keys[j] == sorted[i];
        assert(!segments[j].is_ad);
    }
    if exists|i: int| 0 <= i < segments.len() && !#[trigger] segments[i].is_ad {
        let i = choose|i: int| 0 <= i < segments.len() && !#[trigger] segments[i].is_ad;
        assert(keys[i] == key_of(segments[i]));
        assert(keys.to_multiset().count(keys[i]) > 0);
        assert(sorted.contains(keys[i]));
        let j = choose|j: int| 0 <= j < sorted.len() && sorted[j] == keys[i];
        assert(!sorted[j].2);
    }
}

pub open spec fn starts_in_order(b: Seq<(u64, u64)>) -> bool {
    forall|i: int, j: int| 0 <= i <= j < b.len() ==> b[i].0 <= b[j].0
}

proof fn lemma_scan_starts_in_order(s: Seq<SegmentKey>)
    requires
        sorted_by_start(s),
    ensures
        starts_in_order(keep_scan(s).0),
        s.len() > 0 ==> forall|i: int|
            0 <= i < keep_scan(s).0.len() ==> #[trigger] keep_scan(s).0[i].0 <= s.last().0,
        keep_scan(s).1 matches Some(o) ==> s.len() > 0 && o <= s.last().0 && forall|i: int|
            0 <= i < keep_scan(s).0.len() ==> #[trigger] keep_scan(s).0[i].0 <= o,
    decreases s.len(),
{
    if s.len() > 0 {
        let t = s.drop_last();
        assert(sorted_by_start(t));
        lemma_scan_starts_in_order(t);
        if t.len() > 0 {
            assert(t.last() == s[s.len() - 2]);
        }
    }
}

/// The kept blocks come in the order of their start times.
pub proof fn lemma_keep_blocks_in_order(segments: Seq<ProcessedSegment>)
    ensures
        starts_in_order(keep_blocks_of(segments)),
{
    let sorted = sort_by_start(keys_of(segments));
    lemma_sort_by_start_sorted(keys_of(segments));
    lemma_scan_starts_in_order(sorted);
}

/// No two keys start at the same time.
pub open spec fn distinct_starts(s: Seq<SegmentKey>) -> bool {
    forall|i: int, j: int| 0 <= i < s.len() && 0 <= j < s.len() && i != j ==> s[i].0 != s[j].0
}

proof fn lemma_in_multiset_at(s: Seq<SegmentKey>, x: SegmentKey) -> (j: int)
    requires
        s.to_multiset().count(x) > 0,
    ensures
        0 <= j < s.len() && s[j] == x,
{
    assert(s.contains(x));
    choose|j: int| 0 <= j < s.len() && s[j] == x
}

proof fn lemma_insert_distinct(s: Seq<SegmentKey>, x: SegmentKey)
    requires
        distinct_starts(s),
        forall|i: int| 0 <= i < s.len() ==> #[trigger] s[i].0 != x.0,
    ensures
        distinct_starts(insert_by_start(s, x)),
    decreases s.len(),
{
    if s.len() == 0 {
    } else if s.last().0 <= x.0 {
    } else {
        let t = s.drop_last();
        let y = s.last();
        lemma_insert_distinct(t, x);
        lemma_insert_multiset(t, x);
        let u = insert_by_start(t, x);
        assert forall|i: int| 0 <= i < u.len() implies #[trigger] u[i].0 != y.0 by {
            assert(u.to_multiset().count(u[i]) > 0);
            if u[i] != x {
                assert(t.to_multiset().count(u[i]) > 0);
                let j = lemma_in_multiset_at(t, u[i]);
                assert(s[j] == t[j]);
                assert(s[s.len() - 1] == y);
            }
        }
        assert(insert_by_start(s, x) == u.push(y));
    }
}

proof fn lemma_sort_distinct(s: Seq<SegmentKey>)
    requires
        distinct_starts(s),
    ensures
        distinct_starts(sort_by_start(s)),
    decreases s.len(),
{
    if s.len() > 0 {
        let t = s.drop_last();
        let x = s.last();
        lemma_sort_distinct(t);
        lemma_sort_by_start_permutes(t);
        let st = sort_by_start(t);
        assert forall|i: int| 0 <= i < st.len() implies #[trigger] st[i].0 != x.0 by {
            assert(st.to_multiset().count(st[i]) > 0);
            let j = lemma_in_multiset_at(t, st[i]);
            assert(s[j] == t[j]);
            assert(s[s.len() - 1] == x);
        }
        lemma_insert_distinct(st, x);
    }
}

/// Two orderings by start of the same keys, no two starting together, are the same.
proof fn lemma_sorted_unique(a: Seq<SegmentKey>, b: Seq<SegmentKey>)
    requires
        sorted_by_start(a),
        sorted_by_start(b),
        distinct_starts(a),
        a.to_multiset() == b.to_multiset(),
    ensures
        a == b,
    decreases a.len(),
{
    assert(a.len() == a.to_multiset().len());
    assert(b.len() == b.to_multiset().len());
    if a.len() == 0 {
        assert(a =~= b);
    } else {
        let x = a.last();
        let y = b.last();
        let ta = a.drop_last();
        let tb = b.drop_last();
        assert(a == ta.push(x));
        assert(b == tb.push(y));
        assert(a.to_multiset().count(x) > 0);
        let j = lemma_in_multiset_at(b, x);
        assert(b.to_multiset().count(y) > 0);
        let i = lemma_in_multiset_at(a, y);
        assert(x.0 <= y.0);
        assert(y.0 <= x.0);
        assert(i == a.len() - 1);
        assert(x == y);
        assert(ta.to_multiset() =~= a.to_multiset().remove(x));
        assert(tb.to_multiset() =~= b.to_multiset().remove(y));
        lemma_sorted_unique(ta, tb);
    }
}

proof fn lemma_keys_permute(s: Seq<ProcessedSegment>, p: Seq<ProcessedSegment>)
    requires
        s.to_multiset() == p.to_multiset(),
    ensures
        keys_of(s).to_multiset() == keys_of(p).to_multiset(),
    decreases s.len(),
{
    assert(s.len() == s.to_multiset().len());
    assert(p.len() == p.to_multiset().len());
    if s.len() == 0 {
        assert(keys_of(s) =~= keys_of(p));
    } else {
        let x = s.last();
        let t = s.drop_last();
        assert(s == t.push(x));
        assert(p.to_multiset().count(x) > 0);
        assert(p.contains(x));
        let j = choose|j: int| 0 <= j < p.len() && p[j] == x;
        let q = p.remove(j);
        assert(q.to_multiset() =~= p.to_multiset().remove(x));
        assert(t.to_multiset() =~= s.to_multiset().remove(x));
        lemma_keys_permute(t, q);
        assert(keys_of(q) =~= keys_of(p).remove(j));
        assert(keys_of(s) =~= keys_of(t).push(key_of(x)));
        assert(keys_of(p)[j] == key_of(x));
        assert(keys_of(q).to_multiset() =~= keys_of(p).to_multiset().remove(key_of(x)));
        assert(keys_of(p).to_multiset().count(key_of(x)) > 0);
        assert(keys_of(s).to_multiset() =~= keys_of(p).to_multiset());
    }
}

/// The kept blocks do not depend on the order the segments come in, when no two
/// segments start at the same time.
pub proof fn lemma_keep_blocks_order_free(segments: Seq<ProcessedSegment>, p: Seq<ProcessedSegment>)
    requires
        p.to_multiset() == segments.to_multiset(),
        forall|i: int, j: int|
            0 <= i < segments.len() && 0 <= j < segments.len() && i != j ==> segments[i].start_time
                != segments[j].start_time,
    ensures
        keep_blocks_of(p) == keep_blocks_of(segments),
{
    let ks = keys_of(segments);
    let kp = keys_of(p);
    lemma_keys_permute(segments, p);
    assert(distinct_starts(ks)) by {
        assert forall|i: int, j: int| 0 <= i < ks.len() && 0 <= j < ks.len() && i != j implies ks[i].0
            != ks[j].0 by {
            assert(ks[i].0 == segments[i].start_time);
            assert(ks[j].0 == segments[j].start_time);
        }
    }
    lemma_sort_by_start_permutes(ks);
    lemma_sort_by_start_permutes(kp);
    lemma_sort_by_start_sorted(ks);
    lemma_sort_by_start_sorted(kp);
    lemma_sort_distinct(ks);
    lemma_sorted_unique(sort_by_start(ks), sort_by_start(kp));
}

/// The segment keys of `segments`, stably sorted by start time.
fn sorted_keys(segments: &[ProcessedSegment]) -> (r: Vec<SegmentKey>)
    ensures
        r@ == sort_by_start(keys_of(segments@)),
{
    let ghost keys = keys_of(segments@);
    let mut r: Vec<SegmentKey> = Vec::new();
    let n = segments.len();
    for i in 0..n
        invariant
            n == segments@.len(),
            keys == keys_of(segments@),
            r@ == sort_by_start(keys.take(i as int)),
            sorted_by_start(r@),
    {
        let k: SegmentKey = (segments[i].start_time, segments[i].end_time, segments[i].is_ad);
        let mut p: usize = 0;
        while p < r.len() && r[p].0 <= k.0
            invariant
                p <= r@.len(),
                forall|j: int| 0 <= j < p ==> r@[j].0 <= k.0,
            decreases r@.len() - p,
        {
            p = p + 1;
        }
        proof {
            lemma_insert_at(r@, k, p as int);
            assert(keys.take(i + 1).drop_last() =~= keys.take(i as int));
            assert(keys.take(i + 1).last() == k);
            lemma_insert_sorted(r@, k);
        }
        r.insert(p, k);
    }
    proof {
        assert(keys.take(n as int) =~= keys);
    }
    r
}

/// The lines that keep one block of the input: the file, then where to start and stop.
pub open spec fn block_lines(input: Seq<char>, b: (u64, u64)) -> Seq<char> {
    "file '"@ + input + "'\n"@ + "inpoint "@ + seconds_text(b.0) + "\n"@ + "outpoint "@
        + seconds_text(b.1) + "\n"@
}

/// The line that plays the beep where an ad was cut.
pub open spec fn beep_line(beep: Seq<char>) -> Seq<char> {
    "file '"@ + beep + "'\n"@
}

/// Concat instructions for the first `n` blocks; a beep follows every block but the last.
pub open spec fn concat_prefix(input: Seq<char>, beep: Seq<char>, blocks: Seq<(u64, u64)>, n: nat) -> Seq<
    char,
>
    decreases n,
{
    if n == 0 {
        seq![]
    } else {
        concat_prefix(input, beep, blocks, (n - 1) as nat) + block_lines(input, blocks[n - 1])
            + if n < blocks.len() {
            beep_line(beep)
        } else {
            seq![]
        }
    }
}

/// The ffmpeg concat list that splices the kept blocks of `input` with a beep between them.
pub open spec fn concat_script(input: Seq<char>, beep: Seq<char>, blocks: Seq<(u64, u64)>) -> Seq<
    char,
> {
    concat_prefix(escape_quotes(input), escape_quotes(beep), blocks, blocks.len())
}

proof fn lemma_concat_prefix_extend(input: Seq<char>, beep: Seq<char>, blocks: Seq<(u64, u64)>, b: (
    u64,
    u64,
), n: nat)
    requires
        n < blocks.len(),
    ensures
        concat_prefix(input, beep, blocks.push(b), n) == concat_prefix(input, beep, blocks, n),
    decreases n,
{
    if n > 0 {
        lemma_concat_prefix_extend(input, beep, blocks, b, (n - 1) as nat);
        assert(blocks.push(b)[n - 1] == blocks[n - 1]);
    }
}

/// A concat list for no block is empty; for one block it holds just that block's
/// lines, with no beep.
pub proof fn lemma_concat_single_block(input: Seq<char>, beep: Seq<char>, b: (u64, u64))
    ensures
        concat_script(input, beep, Seq::empty()) == Seq::<char>::empty(),
        concat_script(input, beep, seq![b]) == block_lines(escape_quotes(input), b),
{
    let i = escape_quotes(input);
    let bp = escape_quotes(beep);
    assert(concat_prefix(i, bp, seq![b], 0) == Seq::<char>::empty());
    assert(concat_prefix(i, bp, seq![b], 1) =~= block_lines(i, b));
}

/// Adding a block to a non-empty list adds a beep where the previous last block
/// ended, then the new block's lines: a beep stands between every two kept blocks.
pub proof fn lemma_concat_add_block(input: Seq<char>, beep: Seq<char>, blocks: Seq<(u64, u64)>, b: (
    u64,
    u64,
))
    requires
        blocks.len() > 0,
    ensures
        concat_script(input, beep, blocks.push(b)) == concat_script(input, beep, blocks) + beep_line(
            escape_quotes(beep),
        ) + block_lines(escape_quotes(input), b),
{
    let i = escape_quotes(input);
    let bp = escape_quotes(beep);
    let n = blocks.len();
    let bs = blocks.push(b);
    lemma_concat_prefix_extend(i, bp, blocks, b, (n - 1) as nat);
    assert(bs[n - 1] == blocks[n - 1]);
    assert(bs[n as int] == b);
    assert(concat_prefix(i, bp, bs, n) == concat_prefix(i, bp, blocks, n) + beep_line(bp));
    assert(concat_prefix(i, bp, bs, n + 1) == concat_prefix(i, bp, bs, n) + block_lines(i, b));
}

fn push_block_lines(out: &mut String, safe_input: &String, b: (u64, u64))
    ensures
        final(out)@ == old(out)@ + block_lines(safe_input@, b),
{
    proof {
        reveal_strlit("file '");
        reveal_strlit("'\n");
        reveal_strlit("inpoint ");
        reveal_strlit("outpoint ");
        reveal_strlit("\n");
    }
    out.append("file '");
    out.append(safe_input.as_str());
    out.append("'\n");
    out.append("inpoint ");
    push_seconds(out, b.0);
    out.append("\n");
    out.append("outpoint ");
    push_seconds(out, b.1);
    out.append("\n");
    proof {
        assert(final(out)@ =~= old(out)@ + block_lines(safe_input@, b));
    }
}

fn push_beep_line(out: &mut String, safe_beep: &String)
    ensures
        final(out)@ == old(out)@ + beep_line(safe_beep@),
{
    proof {
        reveal_strlit("file '");
        reveal_strlit("'\n");
    }
    out.append("file '");
    out.append(safe_beep.as_str());
    out.append("'\n");
    proof {
        assert(final(out)@ =~= old(out)@ + beep_line(safe_beep@));
    }
}

/// Writes the ffmpeg concat list for `blocks`.
pub fn concat_instructions(input_path: &str, beep_path: &str, blocks: &Vec<(u64, u64)>) -> (r: String)
    ensures
        r@ == concat_script(input_path@, beep_path@, blocks@),
{
    let mut safe_input = String::new();
    push_escaped(&mut safe_input, input_path);
    let mut safe_beep = String::new();
    push_escaped(&mut safe_beep, beep_path);
    let ghost inp = escape_quotes(input_path@);
    let ghost bp = escape_quotes(beep_path@);
    let mut out = String::new();
    let n = blocks.len();
    for index in 0..n
        invariant
            n == blocks@.len(),
            safe_input@ == inp,
            safe_beep@ == bp,
            out@ == concat_prefix(inp, bp, blocks@, index as nat),
    {
        let ghost before = out@;
        push_block_lines(&mut out, &safe_input, blocks[index]);
        if index < n - 1 {
            push_beep_line(&mut out, &safe_beep);
        }
        proof {
            let k = (index + 1) as nat;
            assert(concat_prefix(inp, bp, blocks@, k) == before + block_lines(inp, blocks@[index as int])
                + if k < blocks@.len() { beep_line(bp) } else { seq![] });
            assert(out@ =~= concat_prefix(inp, bp, blocks@, k));
        }
    }
    out
}

/// Outcome of planning an ad removal: the concat list, or why there is nothing to keep.
pub open spec fn removal_plan_ok(
    input: Seq<char>,
    beep: Seq<char>,
    segments: Seq<ProcessedSegment>,
    r: Result<String, AppError>,
) -> bool {
    match r {
        Ok(script) => keep_blocks_of(segments).len() > 0 && script@ == concat_script(
            input,
            beep,
            keep_blocks_of(segments),
        ),
        Err(e) => keep_blocks_of(segments).len() == 0 && (e matches AppError::InternalServerError(m)
            && m@ == "Entire file marked as ads"@),
    }
}

/// The editor's core with the directory that holds its assets.
#[derive(Clone)]
pub struct EditorCore {
    pub base_dir: String,
}

impl EditorCore {
    pub fn new(base_dir: String) -> (core: EditorCore)
        ensures
            core.base_dir == base_dir,
    {
        EditorCore { base_dir }
    }

    /// Continuous blocks of audio to keep: segments sorted by start time, each
    /// run of non-ad segments merged into (start of its first, end of its last).
    pub fn calculate_keep_blocks(segments: &[ProcessedSegment]) -> (blocks: Vec<(u64, u64)>)
        ensures
            blocks@ == keep_blocks_of(segments@),
    {
        let keys = sorted_keys(segments);
        let ghost sorted = keys@;
        let mut blocks: Vec<(u64, u64)> = Vec::new();
        let mut current_start: Option<u64> = None;
        let mut current_end: u64 = 0;
        let n = keys.len();
        for i in 0..n
            invariant
                n == keys@.len(),
                sorted == keys@,
                (blocks@, current_start, current_end) == keep_scan(sorted.take(i as int)),
        {
            let k = keys[i];
            proof {
                assert(sorted.take(i + 1).drop_last() =~= sorted.take(i as int));
            }
            if !k.2 {
                if current_start.is_none() {
                    current_start = Some(k.0);
                }
                current_end = k.1;
            } else {
                if let Some(start) = current_start {
                    blocks.push((start, current_end));
                    current_start = None;
                }
            }
        }
        proof {
            assert(sorted.take(n as int) =~= sorted);
        }
        if let Some(start) = current_start {
            blocks.push((start, current_end));
        }
        blocks
    }

    /// Name of the edited file: the original stem with `_clean`, then the extension.
    pub fn clean_file_name(stem: &str, extension: &str) -> (name: String)
        ensures
            name@ == stem@ + "_clean."@ + extension@,
    {
        let mut name = String::from_str(stem);
        name.append("_clean.");
        name.append(extension);
        name
    }

    /// The decisions of an ad removal: refuse when every segment is an ad, else the
    /// concat list that keeps the non-ad blocks of `episode_path` with a beep between them.
    pub fn plan_ad_removal(episode_path: &str, beep_path: &str, detection: &[ProcessedSegment]) -> (r:
        Result<String, AppError>)
        ensures
            removal_plan_ok(episode_path@, beep_path@, detection@, r),
    {
        let keep_blocks = Self::calculate_keep_blocks(detection);
        if keep_blocks.len() == 0 {
            return Err(AppError::InternalServerError(String::from_str("Entire file marked as ads")));
        }
        Ok(concat_instructions(episode_path, beep_path, &keep_blocks))
    }
}

} // verus!

verus! {

/// An episode whose detected ads should be cut out of its audio.
#[derive(Debug, Clone)]
pub struct EditorJob {
    pub episode_id: u128,
    pub episode_path: String,
    pub segments: Vec<ProcessedSegment>,
}

/// What the editor reports back for a job.
pub enum EditorResult {
    Success { episode_id: u128, path: String },
    Failure { episode_id: u128, error: AppError },
}

impl EditorResult {
    pub open spec fn episode_id_of(self) -> u128 {
        match self {
            EditorResult::Success { episode_id, .. } => episode_id,
            EditorResult::Failure { episode_id, .. } => episode_id,
        }
    }

    /// Returns true if the result was a success.
    pub fn is_success(&self) -> (b: bool)
        ensures
            b == (*self is Success),
    {
        match self {
            EditorResult::Success { .. } => true,
            EditorResult::Failure { .. } => false,
        }
    }

    /// Returns true if the result was a failure.
    pub fn is_failure(&self) -> (b: bool)
        ensures
            b == (*self is Failure),
    {
        match self {
            EditorResult::Success { .. } => false,
            EditorResult::Failure { .. } => true,
        }
    }

    /// The episode the result is about, whatever the outcome.
    pub fn episode_id(&self) -> (id: u128)
        ensures
            id == self.episode_id_of(),
    {
        match self {
            EditorResult::Success { episode_id, .. } => *episode_id,
            EditorResult::Failure { episode_id, .. } => *episode_id,
        }
    }

    /// The report for `job` once the editor has finished with it.
    pub fn for_job(job: &EditorJob, outcome: Result<String, AppError>) -> (r: EditorResult)
        ensures
            r.episode_id_of() == job.episode_id,
            outcome matches Ok(path) ==> r == (EditorResult::Success { episode_id: job.episode_id, path }),
            outcome matches Err(error) ==> r == (EditorResult::Failure { episode_id: job.episode_id, error }),
    {
        match outcome {
            Ok(path) => EditorResult::Success { episode_id: job.episode_id, path },
            Err(error) => EditorResult::Failure { episode_id: job.episode_id, error },
        }
    }
}

} // verus!
