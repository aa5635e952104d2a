use pastebin::chunks::{init, pow_u128, upgrade_chunk, Chunk, ChunkManager, UsedID, SPLIT_SIZE};
use std::collections::VecDeque;

fn empty_manager() -> ChunkManager {
    ChunkManager { chunks: Vec::new(), expired: VecDeque::new() }
}

#[test]
fn pow_matches_std() {
    assert_eq!(pow_u128(62, 0), 1);
    assert_eq!(pow_u128(62, 4), 14776336);
    assert_eq!(pow_u128(62, 21), 62u128.pow(21));
    assert_eq!(pow_u128(2, 127), 1u128 << 127);
}

#[test]
fn init_splits_five_digit_ids() {
    let mut m = empty_manager();
    init(&mut m, 5);
    assert_eq!(m.chunks.len(), SPLIT_SIZE as usize);
    assert_eq!(m.chunks[0], Chunk { id: 0, start: 14776336, end: 71111115, size: 5 });
    assert_eq!(m.chunks[1], Chunk { id: 1, start: 71111116, end: 127445895, size: 5 });
    assert_eq!(m.chunks[14].end, 859798035);
    assert_eq!(m.chunks[15], Chunk { id: 15, start: 859798036, end: 916132831, size: 5 });
    assert!(m.expired.is_empty());
}

#[test]
fn init_chunks_tile_the_range() {
    for size in 1..=21u8 {
        let mut m = empty_manager();
        init(&mut m, size);
        let first = 62u128.pow(size as u32 - 1);
        let last = 62u128.pow(size as u32) - 1;
        assert_eq!(m.chunks[0].start, first);
        assert_eq!(m.chunks[15].end, last);
        for i in 0..15 {
            assert_eq!(m.chunks[i].end + 1, m.chunks[i + 1].start);
        }
        for (i, c) in m.chunks.iter().enumerate() {
            assert!(c.start <= c.end);
            assert_eq!(c.id as usize, i);
            assert_eq!(c.size, size);
        }
    }
}

#[test]
fn init_appends_and_keeps_queue() {
    let mut m = empty_manager();
    m.expired.push_back(UsedID { id: 7, available: 100 });
    init(&mut m, 1);
    init(&mut m, 2);
    assert_eq!(m.chunks.len(), 32);
    assert_eq!(m.chunks[0], Chunk { id: 0, start: 1, end: 3, size: 1 });
    assert_eq!(m.chunks[15], Chunk { id: 15, start: 46, end: 61, size: 1 });
    assert_eq!(m.chunks[16].start, 62);
    assert_eq!(m.expired.len(), 1);
    assert_eq!(m.expired[0], UsedID { id: 7, available: 100 });
}

#[test]
fn upgrade_moves_one_chunk_up_a_length() {
    let mut m = empty_manager();
    init(&mut m, 5);
    let before = m.chunks.clone();
    upgrade_chunk(&mut m, 3);
    assert_eq!(m.chunks[3], Chunk { id: 3, start: 21872671358, end: 25365427778, size: 6 });
    for i in 0..16 {
        if i != 3 {
            assert_eq!(m.chunks[i], before[i]);
        }
    }
}

#[test]
fn upgrade_to_the_longest_length() {
    let mut m = empty_manager();
    m.chunks.push(Chunk { id: 9, start: 0, end: 0, size: 20 });
    upgrade_chunk(&mut m, 0);
    assert_eq!(
        m.chunks[0],
        Chunk {
            id: 9,
            start: 57102323933403527236870272075464507371,
            end: 59787938243301457199437031209314418665,
            size: 21
        }
    );
    upgrade_chunk(&mut m, 0);
    assert_eq!(m.chunks[0].size, 21);
    assert_eq!(m.chunks[0].start, 57102323933403527236870272075464507371);
}

#[test]
fn upgrade_last_position_runs_to_range_end() {
    let mut m = empty_manager();
    m.chunks.push(Chunk { id: 0, start: 0, end: 0, size: 14 });
    upgrade_chunk(&mut m, 0);
    assert_eq!(m.chunks[0].size, 15);
    assert_eq!(m.chunks[0].end, 62u128.pow(15) - 1);
    let span = (62u128.pow(15) - 1 - 62u128.pow(14)) / 16;
    assert_eq!(m.chunks[0].start, 62u128.pow(14) + span * 15);
}

#[test]
fn upgraded_chunk_within_new_range_below_split_size() {
    for size in 0..15u8 {
        let mut m = empty_manager();
        m.chunks.push(Chunk { id: 2, start: 0, end: 0, size });
        upgrade_chunk(&mut m, 0);
        let c = m.chunks[0];
        assert_eq!(c.size, size + 1);
        assert_eq!(c.id, 2);
        assert!(c.start <= c.end);
        assert!(62u128.pow(size as u32) <= c.start);
        assert!(c.end <= 62u128.pow(size as u32 + 1) - 1);
    }
    // from length 16 on, the position given by the length runs past the range
    let mut m = empty_manager();
    m.chunks.push(Chunk { id: 2, start: 0, end: 0, size: 15 });
    upgrade_chunk(&mut m, 0);
    assert!(m.chunks[0].end > 62u128.pow(16) - 1);
    assert!(m.chunks[0].start <= m.chunks[0].end);
}
