//! The identifier space of the id-generation service and its split into
//! chunks.
//!
//! Identifiers are handed out as base-62 strings; the identifiers of length
//! `n` are the integers in `[62^(n-1), 62^n - 1]`. That range is split into
//! `SPLIT_SIZE` consecutive chunks, which a manager keeps together with the
//! queue of identifiers that were given back.
use std::collections::VecDeque;
use vstd::arithmetic::power::{lemma_pow_increases, lemma_pow_positive, pow};
use vstd::prelude::*;

verus! {

/// How many chunks the identifiers of one length are split into.
pub const SPLIT_SIZE: u16 = 16;

/// The longest identifier length whose range fits in a `u128`.
pub const MAX_ID_SIZE: u8 = 21;

/// A slice of the identifier space: the integers `start..=end`, which are
/// identifiers of length `size`.
#[derive(Clone, Copy, Debug, PartialEq, Eq, Structural)]
pub struct Chunk {
    pub id: u16,
    pub start: u128,
    pub end: u128,
    pub size: u8,
}

/// An identifier that was given back, and when it may be handed out again.
#[derive(Clone, Copy, Debug, PartialEq, Eq, Structural)]
pub struct UsedID {
    pub id: u128,
    pub available: i64,
}

/// The chunks of the identifier space and the queue of returned identifiers.
#[derive(Clone, Debug)]
pub struct ChunkManager {
    pub chunks: Vec<Chunk>,
    pub expired: VecDeque<UsedID>,
}

/// The first identifier of length `size`.
pub open spec fn id_range_start(size: nat) -> int {
    pow(62, (size - 1) as nat)
}

/// The last identifier of length `size`.
pub open spec fn id_range_end(size: nat) -> int {
    pow(62, size) - 1
}

/// How many identifiers each chunk of length `size` spans (the last one may
/// span more).
pub open spec fn chunk_span(size: nat) -> int {
    (id_range_end(size) - id_range_start(size)) / (SPLIT_SIZE as int)
}

/// Where the chunk at position `offset` of the length-`size` range starts.
pub open spec fn chunk_start_at(size: nat, offset: int) -> int {
    id_range_start(size) + chunk_span(size) * offset
}

/// Where the chunk at position `offset` of the length-`size` range ends: the
/// last position runs to the end of the range.
pub open spec fn chunk_end_at(size: nat, offset: int) -> int {
    if offset == SPLIT_SIZE - 1 {
        id_range_end(size)
    } else {
        chunk_start_at(size, offset) + chunk_span(size) - 1
    }
}

/// A chunk with identity `id`, placed at position `offset` of the
/// length-`size` range.
pub open spec fn placed_chunk(id: u16, size: u8, offset: int) -> Chunk {
    Chunk {
        id,
        start: chunk_start_at(size as nat, offset) as u128,
        end: chunk_end_at(size as nat, offset) as u128,
        size,
    }
}

/// The chunks that `init` creates for identifiers of length `size`.
pub open spec fn initial_chunks(size: u8) -> Seq<Chunk> {
    Seq::new(SPLIT_SIZE as nat, |i: int| placed_chunk(i as u16, size, i))
}

/// What `upgrade_chunk` turns a chunk into: one length longer, placed at the
/// position given by its new length.
pub open spec fn upgraded_chunk(c: Chunk) -> Chunk {
    placed_chunk(c.id, (c.size + 1) as u8, c.size + 1)
}

proof fn lemma_pow62_max()
    ensures
        pow(62, MAX_ID_SIZE as nat) == 43674252383913877424036476406214950912int,
{
    reveal_with_fuel(pow, 22);
}

/// Bounds on the range of length `size` and on positions in it.
proof fn lemma_range_bounds(size: nat)
    requires
        1 <= size <= MAX_ID_SIZE,
    ensures
        pow(62, size) == 62 * pow(62, (size - 1) as nat),
        1 <= id_range_start(size),
        id_range_start(size) + 60 <= id_range_end(size),
        id_range_end(size) < 43674252383913877424036476406214950912int,
        3 <= chunk_span(size),
        chunk_span(size) * 16 <= id_range_end(size) - id_range_start(size),
        id_range_end(size) - id_range_start(size) < chunk_span(size) * 16 + 16,
{
    reveal(pow);
    lemma_pow62_max();
    lemma_pow_positive(62, (size - 1) as nat);
    lemma_pow_increases(62, size, MAX_ID_SIZE as nat);
}

/// Every chunk start and end at a position up to `MAX_ID_SIZE + 1` fits in
/// a `u128`.
proof fn lemma_positions_fit(size: nat, offset: int)
    requires
        1 <= size <= MAX_ID_SIZE,
        0 <= offset <= MAX_ID_SIZE + 1,
    ensures
        0 <= chunk_span(size) * offset <= chunk_span(size) * 22,
        chunk_start_at(size, offset) + chunk_span(size) <= u128::MAX,
        1 <= chunk_start_at(size, offset),
        0 <= chunk_end_at(size, offset) <= u128::MAX,
{
    lemma_range_bounds(size);
    let s = chunk_span(size);
    assert(0 <= s * offset <= s * 22) by (nonlinear_arith)
        requires
            0 <= s,
            0 <= offset <= 22,
    ;
}

/// Within the range of length `size`, a chunk at an earlier position ends
/// before one at a later position starts, and positions up to the last one
/// stay inside the range.
proof fn lemma_positions_ordered(size: nat, i: int, j: int)
    requires
        1 <= size <= MAX_ID_SIZE,
        0 <= i < j < SPLIT_SIZE,
    ensures
        chunk_end_at(size, i) < chunk_start_at(size, j),
        chunk_end_at(size, i) + 1 == chunk_start_at(size, i + 1),
        chunk_end_at(size, j) <= id_range_end(size),
{
    lemma_range_bounds(size);
    let s = chunk_span(size);
    assert(s * i + s == s * (i + 1) && s * (i + 1) <= s * j && s * j <= s * 15) by (nonlinear_arith)
        requires
            0 <= s,
            0 <= i < j <= 15,
    ;
}

/// The chunks that `init` creates for identifiers of length `size` lie side
/// by side: the first starts where the range starts, the last ends where it
/// ends, each one starts right after the one before it ends, none is empty,
/// and the `i`-th has id `i` and length `size`.
pub proof fn lemma_initial_chunks_tile(size: u8)
    requires
        1 <= size <= MAX_ID_SIZE,
    ensures
        initial_chunks(size).len() == SPLIT_SIZE,
        initial_chunks(size)[0].start == pow(62, (size - 1) as nat),
        initial_chunks(size)[SPLIT_SIZE - 1].end == pow(62, size as nat) - 1,
        forall|i: int|
            0 <= i < SPLIT_SIZE - 1 ==> #[trigger] initial_chunks(size)[i].end - initial_chunks(
                size,
            )[i].start + 1 == (pow(62, size as nat) - 1 - pow(62, (size - 1) as nat)) / 16,
        (pow(62, size as nat) - 1 - pow(62, (size - 1) as nat)) / 16 < initial_chunks(
            size,
        )[SPLIT_SIZE - 1].end - initial_chunks(size)[SPLIT_SIZE - 1].start + 1 <= (pow(
            62,
            size as nat,
        ) - 1 - pow(62, (size - 1) as nat)) / 16 + 16,
        forall|i: int|
            0 <= i < SPLIT_SIZE - 1 ==> #[trigger] initial_chunks(size)[i].end + 1 == initial_chunks(
                size,
            )[i + 1].start,
        forall|i: int|
            0 <= i < SPLIT_SIZE ==> {
                &&& #[trigger] initial_chunks(size)[i].start <= initial_chunks(size)[i].end
                &&& initial_chunks(size)[i].id == i
                &&& initial_chunks(size)[i].size == size
            },
{
    let n = size as nat;
    lemma_range_bounds(n);
    assert forall|i: int| 0 <= i < SPLIT_SIZE - 1 implies #[trigger] initial_chunks(size)[i].end
        - initial_chunks(size)[i].start + 1 == chunk_span(n) by {
        lemma_positions_fit(n, i);
    }
    lemma_positions_fit(n, SPLIT_SIZE - 1);
    assert(chunk_span(n) * (SPLIT_SIZE - 1) == chunk_span(n) * 15);
    assert forall|i: int| 0 <= i < SPLIT_SIZE - 1 implies #[trigger] initial_chunks(size)[i].end + 1
        == initial_chunks(size)[i + 1].start by {
        lemma_positions_fit(n, i);
        lemma_positions_fit(n, i + 1);
        lemma_positions_ordered(n, i, i + 1);
    }
    assert forall|i: int| 0 <= i < SPLIT_SIZE implies #[trigger] initial_chunks(size)[i].start
        <= initial_chunks(size)[i].end by {
        lemma_positions_fit(n, i);
        if i == SPLIT_SIZE - 1 {
            assert(chunk_span(n) * i == chunk_span(n) * 15);
        }
        assert(chunk_start_at(n, i) <= chunk_end_at(n, i));
    }
    lemma_positions_fit(n, 0);
    lemma_positions_fit(n, SPLIT_SIZE - 1);
}

/// Every identifier of length `size`, and no other integer, lies in exactly
/// one of the chunks that `init` creates for that length.
pub proof fn lemma_initial_chunks_partition(size: u8, id: int)
    requires
        1 <= size <= MAX_ID_SIZE,
    ensures
        (pow(62, (size - 1) as nat) <= id <= pow(62, size as nat) - 1) <==> exists|i: int|
            0 <= i < SPLIT_SIZE && #[trigger] initial_chunks(size)[i].start <= id
                <= initial_chunks(size)[i].end,
        forall|i: int, j: int|
            0 <= i < SPLIT_SIZE && 0 <= j < SPLIT_SIZE && #[trigger] initial_chunks(size)[i].start
                <= id <= initial_chunks(size)[i].end && #[trigger] initial_chunks(size)[j].start
                <= id <= initial_chunks(size)[j].end ==> i == j,
{
    let n = size as nat;
    let cs = initial_chunks(size);
    lemma_range_bounds(n);
    lemma_initial_chunks_tile(size);
    let rs = id_range_start(n);
    let re = id_range_end(n);
    let s = chunk_span(n);
    assert forall|i: int, j: int|
        0 <= i < SPLIT_SIZE && 0 <= j < SPLIT_SIZE && #[trigger] cs[i].start <= id <= cs[i].end
            && #[trigger] cs[j].start <= id <= cs[j].end implies i == j by {
        lemma_positions_fit(n, i);
        lemma_positions_fit(n, j);
        if i < j {
            lemma_positions_ordered(n, i, j);
        } else if j < i {
            lemma_positions_ordered(n, j, i);
        }
    }
    if rs <= id <= re {
        let q = (id - rs) / s;
        let k = if q < SPLIT_SIZE - 1 {
            q
        } else {
            SPLIT_SIZE - 1
        };
        assert(0 <= q && s * q <= id - rs && id - rs < s * (q + 1) && s * q + s == s * (q + 1))
            by (nonlinear_arith)
            requires
                s >= 1,
                id - rs >= 0,
                q == (id - rs) / s,
        ;
        assert(s * k <= s * q) by (nonlinear_arith)
            requires
                s >= 0,
                0 <= k <= q,
        ;
        lemma_positions_fit(n, k);
        if k < SPLIT_SIZE - 1 {
            lemma_positions_ordered(n, k, k + 1);
        }
        assert(cs[k].start <= id <= cs[k].end);
    }
    if exists|i: int| 0 <= i < SPLIT_SIZE && #[trigger] cs[i].start <= id <= cs[i].end {
        let i = choose|i: int| 0 <= i < SPLIT_SIZE && #[trigger] cs[i].start <= id <= cs[i].end;
        lemma_positions_fit(n, i);
        lemma_positions_fit(n, 0);
        if i > 0 {
            lemma_positions_ordered(n, 0, i);
        }
        if i < SPLIT_SIZE - 1 {
            lemma_positions_ordered(n, i, SPLIT_SIZE - 1);
        }
    }
}

/// An upgraded chunk keeps its id, is one length longer and is never empty;
/// while its new length is below `SPLIT_SIZE` it also lies inside the
/// identifier range of that length.
pub proof fn lemma_upgraded_chunk_shape(c: Chunk)
    requires
        c.size < MAX_ID_SIZE,
    ensures
        upgraded_chunk(c).id == c.id,
        upgraded_chunk(c).size == c.size + 1,
        upgraded_chunk(c).start <= upgraded_chunk(c).end,
        upgraded_chunk(c).start == pow(62, c.size as nat) + (pow(62, (c.size + 1) as nat) - 1 - pow(
            62,
            c.size as nat,
        )) / 16 * (c.size + 1),
        c.size + 1 == SPLIT_SIZE - 1 ==> upgraded_chunk(c).end == pow(62, (c.size + 1) as nat) - 1,
        c.size + 1 != SPLIT_SIZE - 1 ==> upgraded_chunk(c).end - upgraded_chunk(c).start + 1 == (pow(
            62,
            (c.size + 1) as nat,
        ) - 1 - pow(62, c.size as nat)) / 16,
        c.size + 1 < SPLIT_SIZE ==> pow(62, c.size as nat) <= upgraded_chunk(c).start
            && upgraded_chunk(c).end <= pow(62, (c.size + 1) as nat) - 1,
{
    let n = (c.size + 1) as nat;
    lemma_range_bounds(n);
    lemma_positions_fit(n, n as int);
    if n < SPLIT_SIZE - 1 {
        lemma_positions_ordered(n, n as int, SPLIT_SIZE - 1);
    } else if n == SPLIT_SIZE - 1 {
        assert(chunk_span(n) * (n as int) == chunk_span(n) * 15);
    }
}

/// Computes `base^exp`, as `u128::pow` does.
pub fn pow_u128(base: u128, exp: u32) -> (r: u128)
    requires
        1 <= base,
        pow(base as int, exp as nat) <= u128::MAX,
    ensures
        r == pow(base as int, exp as nat),
{
    let mut r: u128 = 1;
    let mut i: u32 = 0;
    proof {
        reveal(pow);
    }
    while i < exp
        invariant
            i <= exp,
            1 <= base,
            r == pow(base as int, i as nat),
            pow(base as int, exp as nat) <= u128::MAX,
        decreases exp - i,
    {
        proof {
            reveal(pow);
            lemma_pow_increases(base as nat, (i + 1) as nat, exp as nat);
            assert(pow(base as int, (i + 1) as nat) == base * pow(base as int, i as nat));
        }
        r = r * base;
        i = i + 1;
    }
    r
}

/// Splits the identifiers of length `start_id_size` into `SPLIT_SIZE`
/// chunks and appends them to the manager's chunks.
pub fn init(manager: &mut ChunkManager, start_id_size: u8)
    requires
        1 <= start_id_size <= MAX_ID_SIZE,
    ensures
        final(manager).chunks@ == old(manager).chunks@ + initial_chunks(start_id_size),
        final(manager).expired@ == old(manager).expired@,
{
    let ghost n = start_id_size as nat;
    proof {
        lemma_range_bounds(n);
        lemma_pow_increases(62, n, MAX_ID_SIZE as nat);
        lemma_pow_increases(62, (n - 1) as nat, MAX_ID_SIZE as nat);
        lemma_pow62_max();
    }
    let start: u128 = pow_u128(62, start_id_size as u32 - 1);
    let end: u128 = pow_u128(62, start_id_size as u32) - 1;
    let chunk_size: u128 = (end - start) / SPLIT_SIZE as u128;
    let ghost old_chunks = manager.chunks@;
    let mut i: u16 = 0;
    while i < SPLIT_SIZE
        invariant
            1 <= n <= MAX_ID_SIZE,
            n == start_id_size,
            start == id_range_start(n),
            end == id_range_end(n),
            chunk_size == chunk_span(n),
            i <= SPLIT_SIZE,
            manager.chunks@ == old_chunks + initial_chunks(start_id_size).take(i as int),
            manager.expired@ == old(manager).expired@,
            old_chunks == old(manager).chunks@,
        decreases SPLIT_SIZE - i,
    {
        proof {
            lemma_positions_fit(n, i as int);
        }
        let chunk_start = start + chunk_size * i as u128;
        let chunk_end = if i == SPLIT_SIZE - 1 {
            end
        } else {
            start + chunk_size * i as u128 + chunk_size - 1
        };
        manager.chunks.push(Chunk { id: i, start: chunk_start, end: chunk_end, size: start_id_size });
        assert(initial_chunks(start_id_size).take(i + 1) =~= initial_chunks(start_id_size).take(
            i as int,
        ).push(placed_chunk(i, start_id_size, i as int)));
        i = i + 1;
    }
    assert(initial_chunks(start_id_size).take(SPLIT_SIZE as int) =~= initial_chunks(start_id_size));
}

/// Moves the chunk at `chunk_to_index` to identifiers one length longer,
/// unless it already holds the longest ones; no other chunk changes.
pub fn upgrade_chunk(manager: &mut ChunkManager, chunk_to_index: usize)
    requires
        chunk_to_index < old(manager).chunks@.len(),
    ensures
        old(manager).chunks@[chunk_to_index as int].size < MAX_ID_SIZE ==> final(manager).chunks@
            == old(manager).chunks@.update(
            chunk_to_index as int,
            upgraded_chunk(old(manager).chunks@[chunk_to_index as int]),
        ),
        old(manager).chunks@[chunk_to_index as int].size >= MAX_ID_SIZE ==> final(manager).chunks@
            == old(manager).chunks@,
        final(manager).expired@ == old(manager).expired@,
{
    let mut chunk = manager.chunks[chunk_to_index];
    if chunk.size < MAX_ID_SIZE {
        chunk.size = chunk.size + 1;
        let ghost n = chunk.size as nat;
        proof {
            lemma_range_bounds(n);
            lemma_pow_increases(62, n, MAX_ID_SIZE as nat);
            lemma_pow_increases(62, (n - 1) as nat, MAX_ID_SIZE as nat);
            lemma_pow62_max();
            lemma_positions_fit(n, n as int);
        }
        let start: u128 = pow_u128(62, chunk.size as u32 - 1);
        let end: u128 = pow_u128(62, chunk.size as u32) - 1;
        let chunk_size: u128 = (end - start) / SPLIT_SIZE as u128;
        chunk.start = start + chunk_size * chunk.size as u128;
        chunk.end = if chunk.size as u16 == SPLIT_SIZE - 1 {
            end
        } else {
            start + chunk_size * chunk.size as u128 + chunk_size - 1
        };
        manager.chunks.set(chunk_to_index, chunk);
    }
}

} // verus!
