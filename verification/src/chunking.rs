use vstd::prelude::*;
use crate::error::AppError;
use crate::types::TranscriptChunk;

verus! {

/// One timed piece of a transcript as the speech-to-text service returns it
/// (times in milliseconds; any field may be missing).
#[derive(Debug, Clone)]
pub struct TranscriptEntry {
    pub text: Option<String>,
    pub start: Option<u64>,
    pub end: Option<u64>,
}

/// The arrays a transcript document may hold its pieces in: the document itself, and
/// its `segments`, `words` and `results` fields (`None` where that is not an array).
#[derive(Debug, Clone)]
pub struct TranscriptArrays {
    pub root: Option<Vec<TranscriptEntry>>,
    pub segments: Option<Vec<TranscriptEntry>>,
    pub words: Option<Vec<TranscriptEntry>>,
    pub results: Option<Vec<TranscriptEntry>>,
}

impl TranscriptArrays {
    /// The pieces chunking reads: the first array among the document itself,
    /// `segments`, `words` and `results`; `None` when there is none.
    pub fn select(self) -> (r: Option<Vec<TranscriptEntry>>)
        ensures
            r == (if self.root is Some {
                self.root
            } else if self.segments is Some {
                self.segments
            } else if self.words is Some {
                self.words
            } else {
                self.results
            }),
    {
        if self.root.is_some() {
            self.root
        } else if self.segments.is_some() {
            self.segments
        } else if self.words.is_some() {
            self.words
        } else {
            self.results
        }
    }
}

/// What Rust's `str::trim` leaves of a text (leading and trailing Unicode white space removed).
pub uninterp spec fn trimmed_of(s: Seq<char>) -> Seq<char>;

/// What Rust's `str::trim_end` leaves of a text (trailing Unicode white space removed).
pub uninterp spec fn trimmed_end_of(s: Seq<char>) -> Seq<char>;

/// Calls `str::trim`; the result is named by `trimmed_of`.
#[verifier::external_body]
fn trim(s: &str) -> (r: String)
    ensures
        r@ == trimmed_of(s@),
{
    s.trim().to_string()
}

/// Calls `str::trim_end`; the result is named by `trimmed_end_of`.
#[verifier::external_body]
fn trim_end(s: &str) -> (r: String)
    ensures
        r@ == trimmed_end_of(s@),
{
    s.trim_end().to_string()
}

/// (text, start, end) of a chunk.
pub type ChunkView = (Seq<char>, u64, u64);

pub open spec fn chunk_view(c: TranscriptChunk) -> ChunkView {
    (c.text@, c.start_time, c.end_time)
}

/// Scan state: text gathered so far, its start, the last end seen, finished chunks.
pub type ChunkScan = (Seq<char>, Option<u64>, u64, Seq<ChunkView>);

pub open spec fn entry_text(e: TranscriptEntry) -> Seq<char> {
    match e.text {
        Some(t) => t@,
        None => seq![],
    }
}

/// A text ends a sentence when, without trailing white space, it ends in `.`, `?` or `!`.
pub open spec fn ends_sentence(t: Seq<char>) -> bool {
    let u = trimmed_end_of(t);
    u.len() > 0 && (u.last() == '.' || u.last() == '?' || u.last() == '!')
}

/// Whether a space goes between the gathered text and the next piece: the gathered text
/// is non-empty and does not already end in a space, and the piece either has words or
/// (being blank) does not begin with a space. A blank piece so leaves a single trailing
/// space, which the next piece's words then follow directly.
pub open spec fn needs_space(current: Seq<char>, trimmed: Seq<char>, leading_space: bool) -> bool {
    current.len() > 0 && current.last() != ' ' && (trimmed.len() > 0 || !leading_space)
}

/// The gathered text with the next piece's trimmed text joined on.
pub open spec fn join_piece(current: Seq<char>, trimmed: Seq<char>, leading_space: bool) -> Seq<char> {
    if needs_space(current, trimmed, leading_space) {
        current.push(' ') + trimmed
    } else {
        current + trimmed
    }
}

/// What chunking reads of a piece of transcript: its text trimmed, whether it ends a
/// sentence, its start and end, and whether its text begins with a space.
pub type PieceView = (Seq<char>, bool, Option<u64>, Option<u64>, bool);

pub open spec fn piece_of(e: TranscriptEntry) -> PieceView {
    let t = entry_text(e);
    (trimmed_of(t), ends_sentence(t), e.start, e.end, t.len() > 0 && t[0] == ' ')
}

pub open spec fn chunk_step(st: ChunkScan, p: PieceView, size: u64) -> ChunkScan {
    let start = match p.2 {
        Some(s) => s,
        None => st.2,
    };
    let end = match p.3 {
        Some(x) => x,
        None => start,
    };
    let open = match st.1 {
        Some(s) => s,
        None => start,
    };
    let text = join_piece(st.0, p.0, p.4);
    if end - open >= size && p.1 {
        (seq![], None, end, st.3.push((text, open, end)))
    } else {
        (text, Some(open), end, st.3)
    }
}

pub open spec fn chunk_scan(pieces: Seq<PieceView>, size: u64) -> ChunkScan
    decreases pieces.len(),
{
    if pieces.len() == 0 {
        (seq![], None, 0, seq![])
    } else {
        chunk_step(chunk_scan(pieces.drop_last(), size), pieces.last(), size)
    }
}

/// Chunks of a run of pieces: trimmed texts are joined as `join_piece` says until a
/// piece ends a sentence at least `size` ms after the chunk began; what is left at the
/// end forms a last chunk.
pub open spec fn piece_chunks(pieces: Seq<PieceView>, size: u64) -> Seq<ChunkView> {
    let st = chunk_scan(pieces, size);
    if st.0.len() > 0 {
        st.3.push(
            (
                st.0,
                match st.1 {
                    Some(s) => s,
                    None => 0,
                },
                st.2,
            ),
        )
    } else {
        st.3
    }
}

/// Chunks of a transcript, read piece by piece.
pub open spec fn chunks_of(entries: Seq<TranscriptEntry>, size: u64) -> Seq<ChunkView> {
    piece_chunks(entries.map_values(|e: TranscriptEntry| piece_of(e)), size)
}

/// A piece whose text, without trailing white space, ends in `.`, `?` or `!` and that
/// ends at least `size` ms after the open chunk began closes that chunk: the chunk is
/// finished with the piece's end and nothing is left open. Any other piece closes nothing.
pub proof fn lemma_sentence_end_closes_chunk(st: ChunkScan, e: TranscriptEntry, size: u64)
    requires
        e.start is Some,
        e.end is Some,
        e.end->0 >= (match st.1 {
            Some(o) => o,
            None => e.start->0,
        }) + size,
    ensures
        ({
            let u = trimmed_end_of(entry_text(e));
            let punct = u.len() > 0 && (u[u.len() - 1] == '?' || u[u.len() - 1] == '.' || u[u.len() - 1]
                == '!');
            let next = chunk_step(st, piece_of(e), size);
            &&& punct ==> next.3.len() == st.3.len() + 1 && next.3.last().2 == e.end->0
                && next.0.len() == 0 && next.1 is None
            &&& !punct ==> next.3 == st.3 && next.1 is Some
        }),
{
}

/// How a piece's words join the gathered text: directly when nothing is gathered yet,
/// after exactly one space when the gathered text does not already end in one. The
/// joined text is what stays open, or the text of the chunk the piece closes.
pub proof fn lemma_piece_words_join(st: ChunkScan, e: TranscriptEntry, size: u64)
    requires
        trimmed_of(entry_text(e)).len() > 0,
    ensures
        ({
            let w = trimmed_of(entry_text(e));
            let next = chunk_step(st, piece_of(e), size);
            let joined = if next.3.len() > st.3.len() {
                next.3.last().0
            } else {
                next.0
            };
            &&& st.0.len() == 0 ==> joined == w
            &&& st.0.len() > 0 && st.0.last() != ' ' ==> joined == st.0 + seq![' '] + w
            &&& st.0.len() > 0 && st.0.last() == ' ' ==> joined == st.0 + w
        }),
{
}

proof fn lemma_scan_chunks_long_enough(pieces: Seq<PieceView>, size: u64)
    ensures
        forall|i: int|
            0 <= i < chunk_scan(pieces, size).3.len() ==> #[trigger] chunk_scan(pieces, size).3[i].2
                - chunk_scan(pieces, size).3[i].1 >= size,
    decreases pieces.len(),
{
    if pieces.len() > 0 {
        let prev_pieces = pieces.drop_last();
        lemma_scan_chunks_long_enough(prev_pieces, size);
        let prev = chunk_scan(prev_pieces, size);
        let st = chunk_scan(pieces, size);
        assert(st == chunk_step(prev, pieces.last(), size));
        assert forall|i: int| 0 <= i < st.3.len() implies #[trigger] st.3[i].2 - st.3[i].1 >= size by {
            if i < prev.3.len() {
                assert(st.3[i] == prev.3[i]);
            }
        }
    }
}

/// Every chunk but the last spans at least `size` ms (the last holds what was left).
pub proof fn lemma_chunks_long_enough(entries: Seq<TranscriptEntry>, size: u64)
    ensures
        forall|i: int|
            0 <= i < chunks_of(entries, size).len() - 1 ==> #[trigger] chunks_of(entries, size)[i].2
                - chunks_of(entries, size)[i].1 >= size,
{
    let pieces = entries.map_values(|e: TranscriptEntry| piece_of(e));
    lemma_scan_chunks_long_enough(pieces, size);
    let st = chunk_scan(pieces, size);
    assert forall|i: int| 0 <= i < chunks_of(entries, size).len() - 1 implies #[trigger] chunks_of(
        entries,
        size,
    )[i].2 - chunks_of(entries, size)[i].1 >= size by {
        assert(chunks_of(entries, size)[i] == st.3[i]);
    }
}

pub open spec fn no_array_message() -> Seq<char> {
    "Transcript JSON does not contain a valid array of segments."@
}

pub open spec fn too_short_message() -> Seq<char> {
    "Transcript contains fewer than 2 segments; cannot create sliding windows."@
}

fn last_is_space(s: &String) -> (b: bool)
    ensures
        b == (s@.len() > 0 && s@.last() == ' '),
{
    let n = s.as_str().unicode_len();
    n > 0 && s.as_str().get_char(n - 1) == ' '
}

fn first_is_space(s: &str) -> (b: bool)
    ensures
        b == (s@.len() > 0 && s@[0] == ' '),
{
    let n = s.unicode_len();
    n > 0 && s.get_char(0) == ' '
}

fn is_sentence_end(t: &str) -> (b: bool)
    ensures
        b == ends_sentence(t@),
{
    let u = trim_end(t);
    let n = u.as_str().unicode_len();
    if n == 0 {
        return false;
    }
    let c = u.as_str().get_char(n - 1);
    c == '.' || c == '?' || c == '!'
}

/// A piece of transcript prepared for chunking: its text with surrounding white space
/// removed, whether it ends a sentence, its times in ms, and whether its text begins
/// with a space.
#[derive(Debug, Clone)]
pub struct TranscriptPiece {
    pub trimmed: String,
    pub ends_sentence: bool,
    pub start: Option<u64>,
    pub end: Option<u64>,
    pub leading_space: bool,
}

pub open spec fn piece_view(p: TranscriptPiece) -> PieceView {
    (p.trimmed@, p.ends_sentence, p.start, p.end, p.leading_space)
}

impl TranscriptPiece {
    /// Prepares a transcript entry: a missing text counts as empty.
    pub fn from_entry(entry: &TranscriptEntry) -> (p: TranscriptPiece)
        ensures
            piece_view(p) == piece_of(*entry),
    {
        let empty = String::new();
        let text: &String = match &entry.text {
            Some(t) => t,
            None => &empty,
        };
        let trimmed = trim(text.as_str());
        let ends_sentence = is_sentence_end(text.as_str());
        let leading_space = first_is_space(text.as_str());
        TranscriptPiece { trimmed, ends_sentence, start: entry.start, end: entry.end, leading_space }
    }
}

/// Groups prepared pieces into chunks: the trimmed texts are joined as `join_piece` says
/// until a piece ends a sentence at least `chunk_size` ms after the chunk began; a
/// missing start is the last end seen, a missing end the start.
pub fn chunk_pieces(pieces: &Vec<TranscriptPiece>, chunk_size: u64) -> (chunks: Vec<TranscriptChunk>)
    ensures
        chunks@.map_values(|c: TranscriptChunk| chunk_view(c)) == piece_chunks(
            pieces@.map_values(|p: TranscriptPiece| piece_view(p)),
            chunk_size,
        ),
{
    let ghost ps = pieces@.map_values(|p: TranscriptPiece| piece_view(p));
    let mut raw: Vec<TranscriptChunk> = Vec::new();
    let mut current_text = String::new();
    let mut current_start: Option<u64> = None;
    let mut current_end: u64 = 0;
    let n = pieces.len();
    for i in 0..n
        invariant
            n == ps.len(),
            ps == pieces@.map_values(|p: TranscriptPiece| piece_view(p)),
            ({
                let st = chunk_scan(ps.take(i as int), chunk_size);
                &&& current_text@ == st.0
                &&& current_start == st.1
                &&& current_end == st.2
                &&& raw@.map_values(|c: TranscriptChunk| chunk_view(c)) == st.3
            }),
    {
        proof {
            assert(ps.take(i + 1).drop_last() =~= ps.take(i as int));
            reveal_strlit(" ");
        }
        let ghost prev = chunk_scan(ps.take(i as int), chunk_size);
        let ghost next = chunk_step(prev, ps[i as int], chunk_size);
        proof {
            assert(chunk_scan(ps.take(i + 1), chunk_size) == next);
        }
        let piece = &pieces[i];
        let start = match piece.start {
            Some(s) => s,
            None => current_end,
        };
        let end = match piece.end {
            Some(x) => x,
            None => start,
        };
        if current_start.is_none() {
            current_start = Some(start);
        }
        let open = match current_start {
            Some(s) => s,
            None => start,
        };
        if current_text.as_str().unicode_len() > 0 && !last_is_space(&current_text) && (
        piece.trimmed.as_str().unicode_len() > 0 || !piece.leading_space) {
            current_text.append(" ");
        }
        current_text.append(piece.trimmed.as_str());
        current_end = end;
        proof {
            assert(ps[i as int] == piece_view(*piece));
            assert(open == (match prev.1 { Some(s) => s, None => start }));
            let gathered = join_piece(prev.0, piece.trimmed@, piece.leading_space);
            assert(current_text@ =~= gathered);
        }
        let long_enough = end >= open && end - open >= chunk_size;
        if long_enough && piece.ends_sentence {
            let done_text = current_text;
            current_text = String::new();
            let ghost before = raw@.map_values(|c: TranscriptChunk| chunk_view(c));
            raw.push(TranscriptChunk { text: done_text, start_time: open, end_time: end });
            current_start = None;
            proof {
                assert(raw@.map_values(|c: TranscriptChunk| chunk_view(c)) =~= before.push(
                    (done_text@, open, end),
                ));
            }
        }
    }
    proof {
        assert(ps.take(n as int) =~= ps);
    }
    if current_text.as_str().unicode_len() > 0 {
        let start = match current_start {
            Some(s) => s,
            None => 0,
        };
        let ghost before = raw@.map_values(|c: TranscriptChunk| chunk_view(c));
        let ghost t = current_text@;
        raw.push(TranscriptChunk { text: current_text, start_time: start, end_time: current_end });
        proof {
            assert(raw@.map_values(|c: TranscriptChunk| chunk_view(c)) =~= before.push(
                (t, start, current_end),
            ));
        }
    }
    raw
}

/// Groups transcript pieces into sentence-ending chunks of at least `chunk_size` ms.
/// Fails when the transcript has no list of pieces, or fewer than two of them.
pub fn generate_chunks(entries: &Option<Vec<TranscriptEntry>>, chunk_size: u64) -> (r: Result<
    Vec<TranscriptChunk>,
    AppError,
>)
    ensures
        match r {
            Ok(chunks) => entries matches Some(es) && es@.len() >= 2 && chunks@.map_values(
                |c: TranscriptChunk| chunk_view(c),
            ) == chunks_of(es@, chunk_size),
            Err(e) => match entries {
                None => e matches AppError::InternalServerError(m) && m@ == no_array_message(),
                Some(es) => es@.len() < 2 && (e matches AppError::InternalServerError(m) && m@
                    == too_short_message()),
            },
        },
{
    let items = match entries {
        None => {
            return Err(
                AppError::InternalServerError(
                    String::from_str("Transcript JSON does not contain a valid array of segments."),
                ),
            );
        },
        Some(items) => items,
    };
    if items.len() < 2 {
        return Err(
            AppError::InternalServerError(
                String::from_str(
                    "Transcript contains fewer than 2 segments; cannot create sliding windows.",
                ),
            ),
        );
    }
    let ghost es = items@;
    let mut pieces: Vec<TranscriptPiece> = Vec::new();
    let n = items.len();
    for i in 0..n
        invariant
            n == es.len(),
            es == items@,
            pieces@.len() == i,
            pieces@.map_values(|p: TranscriptPiece| piece_view(p)) == es.take(i as int).map_values(
                |e: TranscriptEntry| piece_of(e),
            ),
    {
        let piece = TranscriptPiece::from_entry(&items[i]);
        let ghost before = pieces@;
        pieces.push(piece);
        proof {
            let lhs = pieces@.map_values(|p: TranscriptPiece| piece_view(p));
            let rhs = es.take(i + 1).map_values(|e: TranscriptEntry| piece_of(e));
            assert forall|j: int| 0 <= j < lhs.len() implies lhs[j] == rhs[j] by {
                if j < i {
                    assert(pieces@[j] == before[j]);
                    assert(es.take(i as int)[j] == es.take(i + 1)[j]);
                    assert(before.map_values(|p: TranscriptPiece| piece_view(p))[j]
                        == es.take(i as int).map_values(|e: TranscriptEntry| piece_of(e))[j]);
                } else {
                    assert(pieces@[j] == piece);
                    assert(es.take(i + 1)[j] == items@[j]);
                }
            }
            assert(lhs =~= rhs);
        }
    }
    proof {
        assert(es.take(n as int) =~= es);
    }
    Ok(chunk_pieces(&pieces, chunk_size))
}

} // verus!
