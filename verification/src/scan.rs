use vstd::prelude::*;

use crate::types::CellV;
use crate::types::CellValue;
use crate::types::Row;

verus! {

/// One opened source, as the cursor sees it: a display name, its layer name
/// for multi-layer containers, and its rows in their stable order.
pub struct ScanSource {
    pub filename: String,
    pub layer: Option<String>,
    pub rows: Vec<Row>,
}

/// The metadata cells appended to every row of a source: the filename, then
/// the layer name where the source has one.
pub open spec fn meta_cells(src: ScanSource) -> Seq<CellV> {
    match src.layer {
        Some(l) => seq![CellV::Text(src.filename@), CellV::Text(l@)],
        None => seq![CellV::Text(src.filename@)],
    }
}

/// Row `i` of a source as it leaves the engine: the stored cells with the
/// metadata cells behind them.
pub open spec fn out_row(src: ScanSource, i: int) -> Seq<CellV> {
    src.rows@[i].deep_view() + meta_cells(src)
}

/// All rows of one source, in order.
pub open spec fn source_out_rows(src: ScanSource) -> Seq<Seq<CellV>> {
    Seq::new(src.rows@.len(), |i: int| out_row(src, i))
}

/// The whole stream of a scan: every source's rows, sources in discovery
/// order, rows in source order.
pub open spec fn stream_of(sources: Seq<ScanSource>) -> Seq<Seq<CellV>>
    decreases sources.len(),
{
    if sources.len() == 0 {
        Seq::empty()
    } else {
        source_out_rows(sources[0]) + stream_of(sources.drop_first())
    }
}

/// How many rows the first `k` sources hold together.
pub open spec fn total_rows(sources: Seq<ScanSource>, k: int) -> int
    decreases k,
{
    if k <= 0 {
        0
    } else {
        total_rows(sources, k - 1) + sources[k - 1].rows@.len()
    }
}

/// The scan position between two steps: which source is being read and how
/// many of its rows earlier steps already took. `cur_source_idx` equal to
/// the number of sources is the terminal state.
pub struct StReadMultiInitData {
    pub cur_source_idx: usize,
    pub offset: usize,
}

/// What every reachable scan position satisfies.
pub open spec fn cursor_ok(cur: StReadMultiInitData, sources: Seq<ScanSource>) -> bool {
    &&& cur.cur_source_idx <= sources.len()
    &&& (cur.cur_source_idx < sources.len() ==> cur.offset <= sources[
        cur.cur_source_idx as int
    ].rows@.len())
    &&& (cur.cur_source_idx == sources.len() ==> cur.offset == 0)
}

/// How many rows of the stream stand before the given position.
pub open spec fn consumed(cur: StReadMultiInitData, sources: Seq<ScanSource>) -> int {
    total_rows(sources, cur.cur_source_idx as int) + cur.offset
}

impl StReadMultiInitData {
    /// The initial position: the first row of the first source.
    pub fn new() -> (r: Self)
        ensures
            r.cur_source_idx == 0,
            r.offset == 0,
    {
        StReadMultiInitData { cur_source_idx: 0, offset: 0 }
    }
}

proof fn lemma_total_rows_monotonic(sources: Seq<ScanSource>, k1: int, k2: int)
    requires
        0 <= k1 <= k2,
    ensures
        total_rows(sources, k1) <= total_rows(sources, k2),
    decreases k2 - k1,
{
    if k1 < k2 {
        lemma_total_rows_monotonic(sources, k1, k2 - 1);
    }
}

proof fn lemma_stream_len(sources: Seq<ScanSource>)
    ensures
        stream_of(sources).len() == total_rows(sources, sources.len() as int),
    decreases sources.len(),
{
    if sources.len() > 0 {
        lemma_stream_len(sources.drop_first());
        let t = sources.drop_first();
        assert(total_rows(t, t.len() as int) + sources[0].rows@.len() == total_rows(
            sources,
            sources.len() as int,
        )) by {
            lemma_total_rows_shift(sources, sources.len() as int);
        }
    }
}

/// Dropping the first source shifts row counting by that source's length.
proof fn lemma_total_rows_shift(sources: Seq<ScanSource>, k: int)
    requires
        1 <= k <= sources.len(),
    ensures
        total_rows(sources, k) == sources[0].rows@.len() + total_rows(
            sources.drop_first(),
            k - 1,
        ),
    decreases k,
{
    if k == 1 {
        assert(total_rows(sources, 1) == total_rows(sources, 0) + sources[0].rows@.len());
        assert(total_rows(sources, 0) == 0);
        assert(total_rows(sources.drop_first(), 0) == 0);
    } else {
        lemma_total_rows_shift(sources, k - 1);
        assert(sources.drop_first()[k - 2] == sources[k - 1]);
        assert(total_rows(sources, k) == total_rows(sources, k - 1) + sources[k - 1].rows@.len());
        assert(total_rows(sources.drop_first(), k - 1) == total_rows(sources.drop_first(), k - 2)
            + sources.drop_first()[k - 2].rows@.len());
    }
}

/// Row `i` of source `k` stands in the stream at the position given by the
/// rows of all earlier sources.
proof fn lemma_stream_index(sources: Seq<ScanSource>, k: int, i: int)
    requires
        0 <= k < sources.len(),
        0 <= i < sources[k].rows@.len(),
    ensures
        0 <= total_rows(sources, k) + i < stream_of(sources).len(),
        stream_of(sources)[total_rows(sources, k) + i] == out_row(sources[k], i),
    decreases k,
{
    lemma_stream_len(sources);
    lemma_total_rows_monotonic(sources, 0, k);
    assert(total_rows(sources, k) + i < total_rows(sources, k + 1)) by {
        lemma_total_rows_monotonic(sources, k, k);
    }
    lemma_total_rows_monotonic(sources, k + 1, sources.len() as int);
    if k == 0 {
        assert(stream_of(sources)[i] == source_out_rows(sources[0])[i]);
    } else {
        lemma_stream_index(sources.drop_first(), k - 1, i);
        lemma_total_rows_shift(sources, k);
        assert(sources.drop_first()[k - 1] == sources[k]);
        let t = sources.drop_first();
        assert(stream_of(sources)[total_rows(sources, k) + i] == stream_of(t)[total_rows(t, k - 1)
            + i]);
    }
}

/// A reachable position never stands outside the stream.
pub proof fn lemma_consumed_bounds(cur: StReadMultiInitData, sources: Seq<ScanSource>)
    requires
        cursor_ok(cur, sources),
    ensures
        0 <= consumed(cur, sources) <= stream_of(sources).len(),
{
    lemma_stream_len(sources);
    lemma_total_rows_monotonic(sources, 0, cur.cur_source_idx as int);
    if cur.cur_source_idx < sources.len() {
        assert(total_rows(sources, cur.cur_source_idx + 1) == total_rows(
            sources,
            cur.cur_source_idx as int,
        ) + sources[cur.cur_source_idx as int].rows@.len());
        lemma_total_rows_monotonic(sources, cur.cur_source_idx + 1, sources.len() as int);
    }
}

/// What one step of the scan establishes between the position before it,
/// the position after it, and the batch it hands out: the batch is the next
/// contiguous slice of the stream, the position advances by its length, and
/// the batch is empty exactly when nothing was left.
pub open spec fn step_rel(
    sources: Seq<ScanSource>,
    before: StReadMultiInitData,
    after: StReadMultiInitData,
    batch: Seq<Seq<CellV>>,
) -> bool {
    &&& cursor_ok(before, sources)
    &&& cursor_ok(after, sources)
    &&& consumed(after, sources) == consumed(before, sources) + batch.len()
    &&& batch == stream_of(sources).subrange(
        consumed(before, sources),
        consumed(before, sources) + batch.len(),
    )
    &&& (batch.len() == 0 <==> consumed(before, sources) == stream_of(sources).len())
}

/// Whatever batches consecutive steps hand out, laid end to end they are
/// exactly the slice of the stream between the first and the last position:
/// rows come in source order then row order, none lost, none repeated, none
/// invented. A run whose last batch is empty has consumed the whole stream,
/// so the row counts of the batches sum to the total row count.
pub proof fn lemma_run_covers_stream(
    sources: Seq<ScanSource>,
    positions: Seq<StReadMultiInitData>,
    batches: Seq<Seq<Seq<CellV>>>,
)
    requires
        positions.len() == batches.len() + 1,
        cursor_ok(positions.first(), sources),
        forall|i: int| #![trigger batches[i]]
            0 <= i < batches.len() ==> step_rel(
                sources,
                positions[i],
                positions[i + 1],
                batches[i],
            ),
    ensures
        batches.flatten() == stream_of(sources).subrange(
            consumed(positions.first(), sources),
            consumed(positions.last(), sources),
        ),
        cursor_ok(positions.last(), sources),
        consumed(positions.first(), sources) <= consumed(positions.last(), sources),
        batches.len() > 0 && batches.last().len() == 0 ==> consumed(positions.last(), sources)
            == stream_of(sources).len(),
    decreases batches.len(),
{
    if batches.len() == 0 {
        assert(positions.first() == positions.last());
        assert(batches.flatten() =~= stream_of(sources).subrange(
            consumed(positions.first(), sources),
            consumed(positions.first(), sources),
        )) by {
            lemma_consumed_bounds(positions.first(), sources);
        }
    } else {
        assert(step_rel(sources, positions[0], positions[1], batches[0]));
        let c0 = consumed(positions[0], sources);
        let c1 = consumed(positions[1], sources);
        lemma_consumed_bounds(positions[0], sources);
        lemma_consumed_bounds(positions[1], sources);
        let ptail = positions.drop_first();
        let btail = batches.drop_first();
        assert forall|i: int| #![trigger btail[i]]
            0 <= i < btail.len() implies step_rel(sources, ptail[i], ptail[i + 1], btail[i]) by {
            assert(ptail[i] == positions[i + 1]);
            assert(ptail[i + 1] == positions[i + 2]);
            assert(btail[i] == batches[i + 1]);
            assert(step_rel(sources, positions[i + 1], positions[i + 2], batches[i + 1]));
        }
        lemma_run_covers_stream(sources, ptail, btail);
        let cz = consumed(positions.last(), sources);
        assert(ptail.last() == positions.last());
        assert(ptail.first() == positions[1]);
        lemma_consumed_bounds(positions.last(), sources);
        assert(batches.flatten() == batches[0] + btail.flatten());
        assert(batches.flatten() =~= stream_of(sources).subrange(c0, cz));
        if batches.last().len() == 0 {
            if batches.len() == 1 {
            } else {
                assert(btail.last() == batches.last());
            }
        }
    }
}

/// Copies row `i` of the source and appends the metadata cells.
fn out_row_exec(src: &ScanSource, i: usize) -> (r: Row)
    requires
        i < src.rows@.len(),
    ensures
        r.deep_view() == out_row(*src, i as int),
{
    let mut r: Row = src.rows[i].clone();
    proof {
        assert(r.deep_view() =~= src.rows@[i as int].deep_view()) by {
            assert(forall|k: int|
                0 <= k < r@.len() ==> cloned::<CellValue>(
                    src.rows@[i as int]@[k],
                    #[trigger] r@[k],
                ));
        }
    }
    r.push(CellValue::Text(src.filename.clone()));
    match &src.layer {
        Some(l) => {
            r.push(CellValue::Text(l.clone()));
            proof {
                assert(r.deep_view() =~= out_row(*src, i as int));
            }
        },
        None => {
            proof {
                assert(r.deep_view() =~= out_row(*src, i as int));
            }
        },
    }
    r
}

/// One step of the streaming scan.
///
/// Reads up to `capacity` rows from the source under the cursor, skipping
/// exhausted sources first, so that a step returns zero rows only when the
/// whole stream is consumed: an empty batch from an interior source would
/// read as end-of-scan to the host and truncate the stream.
///
/// The batch is exactly the next contiguous slice of the stream, the cursor
/// advances by exactly the rows handed out, and a terminal cursor stays
/// terminal forever.
pub fn scan_step(sources: &Vec<ScanSource>, cursor: &mut StReadMultiInitData, capacity: usize) -> (batch: Vec<
    Row,
>)
    requires
        capacity >= 1,
        cursor_ok(*old(cursor), sources@),
    ensures
        cursor_ok(*final(cursor), sources@),
        batch@.len() <= capacity,
        consumed(*final(cursor), sources@) == consumed(*old(cursor), sources@) + batch@.len(),
        batch.deep_view() == stream_of(sources@).subrange(
            consumed(*old(cursor), sources@),
            consumed(*old(cursor), sources@) + batch@.len(),
        ),
        (batch@.len() == 0) <==> (consumed(*old(cursor), sources@) == stream_of(sources@).len()),
        batch@.len() == 0 ==> final(cursor).cur_source_idx == sources@.len(),
        old(cursor).cur_source_idx == sources@.len() ==> batch@.len() == 0 && *final(cursor)
            == *old(cursor),
        final(cursor).cur_source_idx >= old(cursor).cur_source_idx,
        step_rel(sources@, *old(cursor), *final(cursor), batch.deep_view()),
        batch@.len() > 0 ==> exists|k: int|
            0 <= k < sources@.len() && #[trigger] total_rows(sources@, k) <= consumed(
                *old(cursor),
                sources@,
            ) && consumed(*old(cursor), sources@) + batch@.len() <= total_rows(sources@, k + 1),
{
    let ghost c0 = consumed(*old(cursor), sources@);
    proof {
        lemma_stream_len(sources@);
        lemma_total_rows_monotonic(
            sources@,
            old(cursor).cur_source_idx as int,
            sources@.len() as int,
        );
    }
    // Skip sources that have no rows left at this position.
    while cursor.cur_source_idx < sources.len() && cursor.offset
        >= sources[cursor.cur_source_idx].rows.len()
        invariant
            cursor_ok(*cursor, sources@),
            consumed(*cursor, sources@) == c0,
            cursor.cur_source_idx >= old(cursor).cur_source_idx,
        decreases sources@.len() - cursor.cur_source_idx,
    {
        proof {
            assert(total_rows(sources@, cursor.cur_source_idx + 1) == total_rows(
                sources@,
                cursor.cur_source_idx as int,
            ) + sources@[cursor.cur_source_idx as int].rows@.len());
        }
        cursor.cur_source_idx = cursor.cur_source_idx + 1;
        cursor.offset = 0;
    }
    if cursor.cur_source_idx >= sources.len() {
        // Terminal: the stream is consumed; every further step repeats this.
        let empty: Vec<Row> = Vec::new();
        proof {
            assert(c0 == stream_of(sources@).len());
            assert(empty.deep_view() =~= stream_of(sources@).subrange(c0, c0));
        }
        return empty;
    }
    let src = &sources[cursor.cur_source_idx];
    let avail = src.rows.len() - cursor.offset;
    let take = if capacity < avail {
        capacity
    } else {
        avail
    };
    let ghost idx = cursor.cur_source_idx as int;
    let ghost off = cursor.offset as int;
    proof {
        lemma_stream_len(sources@);
        lemma_total_rows_monotonic(sources@, 0, idx);
        lemma_total_rows_monotonic(sources@, idx + 1, sources@.len() as int);
        assert(total_rows(sources@, idx + 1) == total_rows(sources@, idx)
            + sources@[idx].rows@.len());
        assert(c0 >= 0);
        assert(sources@[idx].rows@.len() <= usize::MAX);
    }
    let mut batch: Vec<Row> = Vec::new();
    let mut j: usize = 0;
    while j < take
        invariant
            j <= take,
            take >= 1,
            take <= capacity,
            idx == cursor.cur_source_idx as int,
            off == cursor.offset as int,
            0 <= idx < sources@.len(),
            src == &sources@[idx],
            off + take <= sources@[idx].rows@.len(),
            sources@[idx].rows@.len() <= usize::MAX,
            c0 >= 0,
            c0 == total_rows(sources@, idx) + off,
            c0 + take <= stream_of(sources@).len(),
            batch@.len() == j,
            batch.deep_view() =~= stream_of(sources@).subrange(c0, c0 + j),
        decreases take - j,
    {
        let row = out_row_exec(src, cursor.offset + j);
        batch.push(row);
        proof {
            lemma_stream_index(sources@, idx, off + j);
            assert(batch.deep_view() =~= stream_of(sources@).subrange(c0, c0 + j + 1));
        }
        j = j + 1;
    }
    if take == avail {
        cursor.cur_source_idx = cursor.cur_source_idx + 1;
        cursor.offset = 0;
    } else {
        cursor.offset = cursor.offset + take;
    }
    proof {
        lemma_stream_len(sources@);
        lemma_total_rows_monotonic(sources@, 0, idx);
        assert(c0 < c0 + take);
        // the whole batch came from the one source under the cursor
        assert(total_rows(sources@, idx) <= c0 && c0 + take <= total_rows(sources@, idx + 1));
    }
    batch
}

} // verus!
