use terracore::block::MaterialType;
use terracore::chunk::TOTAL_CHUNK_SIZE;
use terracore::coords::Vec3i;
use terracore::generator::{TerrainGen, MAX_JOBS_IN_FLIGHT};

/// Run frames at `viewer` until no jobs are left in flight, executing
/// every planned job synchronously and handing the finished slots back
/// on the next frame. Returns the frames it took.
fn settle(tg: &mut TerrainGen, viewer: Vec3i) -> usize {
    let mut ready: Vec<usize> = Vec::new();
    let mut frames = 0;
    loop {
        let acts = tg.update(viewer, &ready, 2);
        ready = Vec::new();
        for job in acts.jobs.iter() {
            tg.run_job(job.slot, job.offset, None);
            ready.push(job.slot);
        }
        frames += 1;
        if ready.is_empty() {
            break;
        }
        assert!(frames < 64, "streaming should settle");
    }
    frames
}

#[test]
fn window_fills_completely_after_enough_updates() {
    // Render distance 4: a 4 x 4 window of 16 slots, 8 jobs in flight.
    let mut tg = TerrainGen::new(4, 1);
    assert_eq!(tg.loaded_chunks(), 0);
    settle(&mut tg, Vec3i::new(0, 0, 0));
    assert_eq!(tg.loaded_chunks(), 16);
}

#[test]
fn jobs_in_flight_never_exceed_the_cap() {
    let mut tg = TerrainGen::new(4, 1);
    let acts = tg.update(Vec3i::new(0, 0, 0), &Vec::new(), 2);
    assert_eq!(acts.jobs.len(), MAX_JOBS_IN_FLIGHT);
    assert!(acts.evictions.is_empty());
}

#[test]
fn loaded_chunks_are_registered_in_the_spatial_index() {
    let mut tg = TerrainGen::new(2, 5);
    settle(&mut tg, Vec3i::new(0, 0, 0));
    assert_eq!(tg.loaded_chunks(), 4);
    // Viewer at the origin with a 2-chunk window: offsets (-1..1)^2.
    for ox in -1..1 {
        for oz in -1..1 {
            let idx = tg.chunks.get_chunk_index_by_offset(&Vec3i::new(ox, 0, oz));
            assert!(idx.is_some(), "offset ({ox},0,{oz}) must be resident");
        }
    }
    assert!(tg
        .chunks
        .get_chunk_index_by_offset(&Vec3i::new(2, 0, 0))
        .is_none());
}

#[test]
fn moving_the_viewer_keeps_shared_chunks_and_evicts_the_rest() {
    let mut tg = TerrainGen::new(2, 5);
    settle(&mut tg, Vec3i::new(0, 0, 0));
    let before = tg
        .chunks
        .get_chunk_index_by_offset(&Vec3i::new(0, 0, 0))
        .unwrap();
    // One chunk to the east: window becomes (0..2) x (-1..1).
    settle(&mut tg, Vec3i::new(16, 0, 0));
    assert_eq!(tg.loaded_chunks(), 4);
    // The shared offsets survived in their slots.
    assert_eq!(
        tg.chunks.get_chunk_index_by_offset(&Vec3i::new(0, 0, 0)),
        Some(before)
    );
    // The offsets that left the window are gone.
    assert!(tg
        .chunks
        .get_chunk_index_by_offset(&Vec3i::new(-1, 0, 0))
        .is_none());
    assert!(tg
        .chunks
        .get_chunk_index_by_offset(&Vec3i::new(-1, 0, -1))
        .is_none());
}

#[test]
fn eviction_saves_edited_chunks_only() {
    let mut tg = TerrainGen::new(2, 5);
    settle(&mut tg, Vec3i::new(0, 0, 0));
    // Edit a block inside chunk (0,0,0).
    let touched = tg
        .chunks
        .set_block_material(Vec3i::new(5, 12, 5), MaterialType::DEBUG);
    assert!(!touched.is_empty());
    // Move far away: everything is evicted; only the edited chunk saves.
    let acts = tg.update(Vec3i::new(1600, 0, 1600), &Vec::new(), 2);
    let mut saves = 0;
    for e in acts.evictions.iter() {
        if let Some(sr) = &e.save {
            saves += 1;
            assert_eq!(sr.offset, Vec3i::new(0, 0, 0));
            assert_eq!(sr.data.len(), TOTAL_CHUNK_SIZE);
        }
    }
    assert_eq!(saves, 1);
    assert_eq!(acts.evictions.len(), 4);
}

#[test]
fn run_job_prefers_intact_saved_bytes() {
    let mut tg = TerrainGen::new(2, 42);
    let offset = Vec3i::new(0, 0, 0);
    // Generate, then serialize what generation produced.
    tg.run_job(0, offset, None);
    let generated = tg.chunks.get_chunk(0).unwrap().blocks.clone();
    let saved = tg.chunks.get_chunk(0).unwrap().save_bytes();

    // Loading the saved bytes restores the identical material array.
    let mut tg2 = TerrainGen::new(2, 42);
    tg2.run_job(1, offset, Some(&saved));
    assert_eq!(tg2.chunks.get_chunk(1).unwrap().blocks, generated);

    // A truncated save is never partially trusted: regeneration gives
    // the same result as the original generation.
    let mut truncated = saved.clone();
    truncated.truncate(17);
    let mut tg3 = TerrainGen::new(2, 42);
    tg3.run_job(0, offset, Some(&truncated));
    assert_eq!(tg3.chunks.get_chunk(0).unwrap().blocks, generated);
}

#[test]
fn dirty_marking_is_idempotent_and_budgeted() {
    let mut tg = TerrainGen::new(2, 5);
    settle(&mut tg, Vec3i::new(0, 0, 0));
    let touched = tg
        .chunks
        .set_block_material(Vec3i::new(3, 12, 3), MaterialType::ROCK);
    tg.mark_chunks_dirty(&touched);
    tg.mark_chunks_dirty(&touched);
    // The next frame remeshes the chunk once and reports its upload.
    let acts = tg.update(Vec3i::new(0, 0, 0), &Vec::new(), 2);
    let slot = touched[0];
    assert!(acts.uploads.contains(&slot));
    assert!(!tg.chunks.get_chunk(slot).unwrap().dirty);
}

#[test]
fn planned_jobs_walk_outward_from_the_viewer() {
    let mut tg = TerrainGen::new(4, 3);
    let acts = tg.update(Vec3i::new(0, 0, 0), &Vec::new(), 2);
    // Viewer chunk (0,0,0): planned cells come nearest first.
    let dist = |o: &Vec3i| -> i64 {
        (o.x as i64) * (o.x as i64) + (o.z as i64) * (o.z as i64)
    };
    for w in acts.jobs.windows(2) {
        assert!(dist(&w[0].offset) <= dist(&w[1].offset));
    }
    assert_eq!(acts.jobs.len(), 8);
    // The nearest candidates sit right at the viewer's own chunk.
    assert!(dist(&acts.jobs[0].offset) <= 2);
}
