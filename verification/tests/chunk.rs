use a_tlas::math::{IVec3, UVec3};
use a_tlas::world::chunk::{Bounds, Chunk, Chunks, CHUNK_WIDTH, WORLD_WIDTH};
use a_tlas::world::{ChunkStatus, HostVoxel};

#[test]
fn chunk_insert() {
    let mut chunk = Chunk::default();

    for x in 0..CHUNK_WIDTH {
        for y in 0..CHUNK_WIDTH {
            for z in 0..CHUNK_WIDTH {
                chunk.insert(
                    UVec3::new(x, y, z),
                    HostVoxel { material_index: 0, scale_sixteenths: 16 },
                );
            }
        }
    }

    assert!(chunk.len() as u32 == CHUNK_WIDTH * CHUNK_WIDTH * CHUNK_WIDTH);
}

#[test]
fn chunks_insert() {
    let mut chunks = Chunks::new();

    let size = CHUNK_WIDTH as i32;

    for x in 0..WORLD_WIDTH * size {
        let position = IVec3::new(x, 0, 0);

        let res = chunks.insert_voxel(
            position,
            HostVoxel { material_index: 0, scale_sixteenths: 16 },
        );

        assert!(res.is_some());

        let grid_position = res.unwrap();

        assert!(grid_position == IVec3::new(x / size, 0, 0));
    }

    let mut sum: u32 = 0;
    for gx in 0..WORLD_WIDTH {
        sum += chunks.chunk_len(&IVec3::new(gx, 0, 0)) as u32;
    }

    assert!(sum == WORLD_WIDTH as u32 * CHUNK_WIDTH);
}

#[test]
fn chunk_contains() {
    let mut chunk = Chunk::default();

    let pos1 = UVec3::new(1, 1, 1);
    let pos2 = UVec3::new(32, 19, 15);
    let pos3 = UVec3::new(8, 8, 8);

    chunk.insert(pos1, HostVoxel::default());
    chunk.insert(pos2, HostVoxel::default());
    chunk.insert(pos3, HostVoxel::default());

    assert!(chunk.contains(&pos1));
    assert!(chunk.contains(&pos2));
    assert!(chunk.contains(&pos3));
}

#[test]
fn chunk_insert_rejects_occupied() {
    let mut chunk = Chunk::default();
    let pos = UVec3::new(4, 4, 4);
    assert!(chunk.insert(pos, HostVoxel { material_index: 1, scale_sixteenths: 16 }));
    assert!(!chunk.insert(pos, HostVoxel { material_index: 2, scale_sixteenths: 16 }));
    assert_eq!(chunk.len(), 1);
    let voxel = chunk.get(&pos).copied();
    assert_eq!(voxel, Some(HostVoxel { material_index: 1, scale_sixteenths: 16 }));
}

#[test]
fn chunks_contains() {
    let mut chunks = Chunks::new();

    let pos1 = IVec3::new(1, 1, 1);
    let pos2 = IVec3::new(120, 129, -215);

    chunks.insert_voxel(pos1, HostVoxel::default());
    chunks.insert_voxel(pos2, HostVoxel::default());

    assert!(chunks.contains(&pos1));
    assert!(chunks.contains(&pos2));
}

#[test]
fn coordinate_transform_chunk_and_local() {
    // A voxel at (70, 5, 5) with a chunk width of 64 lands in chunk
    // (1, 0, 0) at local coordinate (6, 5, 5).
    let (grid, local) = Chunks::translation_to_position(&IVec3::new(70, 5, 5));
    assert_eq!(grid, IVec3::new(1, 0, 0));
    assert_eq!(local, UVec3::new(6, 5, 5));
}

#[test]
fn coordinate_transform_negative_axes() {
    let (grid, local) = Chunks::translation_to_position(&IVec3::new(-1, -64, -65));
    assert_eq!(grid, IVec3::new(-1, -1, -2));
    assert_eq!(local, UVec3::new(63, 0, 63));

    // Round trip: chunk origin plus local is the global coordinate again.
    assert_eq!(64 * grid.x + local.x as i32, -1);
    assert_eq!(64 * grid.y + local.y as i32, -64);
    assert_eq!(64 * grid.z + local.z as i32, -65);
}

#[test]
fn world_bounds() {
    assert!(Chunks::in_bounds(&IVec3::new(4095, 0, 0)));
    assert!(Chunks::in_bounds(&IVec3::new(0, -4095, 0)));
    assert!(!Chunks::in_bounds(&IVec3::new(4096, 0, 0)));
    assert!(!Chunks::in_bounds(&IVec3::new(0, 0, -4096)));
}

#[test]
fn occupancy_unique_reinsert_fails() {
    let mut chunks = Chunks::new();
    let pos = IVec3::new(70, 5, 5);

    let first = chunks.insert_voxel(pos, HostVoxel { material_index: 3, scale_sixteenths: 16 });
    assert_eq!(first, Some(IVec3::new(1, 0, 0)));

    // Re-inserting at an occupied coordinate fails and leaves the prior
    // payload untouched.
    let second = chunks.insert_voxel(pos, HostVoxel { material_index: 9, scale_sixteenths: 32 });
    assert!(second.is_none());

    let voxel = chunks.get_voxel(&pos).copied();
    assert_eq!(voxel, Some(HostVoxel { material_index: 3, scale_sixteenths: 16 }));
}

#[test]
fn get_voxel_roundtrip() {
    let mut chunks = Chunks::new();
    let pos = IVec3::new(-100, 20, 3000);
    assert!(chunks.get_voxel(&pos).is_none());
    assert!(!chunks.contains(&pos));

    chunks.insert_voxel(pos, HostVoxel { material_index: 7, scale_sixteenths: 16 });
    assert!(chunks.contains(&pos));
    let voxel = chunks.get_voxel(&pos).copied();
    assert_eq!(voxel, Some(HostVoxel { material_index: 7, scale_sixteenths: 16 }));
}

#[test]
fn bounds_inside_is_strict() {
    let bounds = Bounds(-4096, 4096);
    assert!(bounds.inside(0));
    assert!(bounds.inside(4095));
    assert!(bounds.inside(-4095));
    assert!(!bounds.inside(4096));
    assert!(!bounds.inside(-4096));
}

#[test]
fn debug_lines_outline_chunks() {
    let mut chunks = Chunks::new();
    chunks.insert_voxel(IVec3::new(0, 0, 0), HostVoxel::default());
    chunks.insert_voxel(IVec3::new(-1, 0, 0), HostVoxel::default());
    chunks.set_chunk_visibility(IVec3::new(-1, 0, 0), false);

    let lines = chunks.debug_lines();
    // Two non-empty chunks, twelve edges each, two endpoints per edge.
    assert_eq!(lines.len(), 48);
    assert!(lines[0..24].iter().all(|v| v.status == ChunkStatus::Visible));
    assert!(lines[24..48].iter().all(|v| v.status == ChunkStatus::Hidden));
    // The outline starts half a voxel before the chunk's origin, in
    // half-voxel units.
    assert_eq!(lines[0].position_halves, IVec3::new(-1, -1, -1));
    assert_eq!(lines[24].position_halves, IVec3::new(-129, -1, -1));

    // An empty chunk contributes no outline.
    chunks.set_chunk_visibility(IVec3::new(5, 5, 5), true);
    assert_eq!(chunks.debug_lines().len(), 48);
}

#[test]
fn chunk_visibility_and_active_chunks() {
    let mut chunks = Chunks::new();
    chunks.insert_voxel(IVec3::new(0, 0, 0), HostVoxel::default());
    chunks.insert_voxel(IVec3::new(64, 0, 0), HostVoxel::default());

    let active = chunks.active_chunks();
    assert_eq!(active, vec![IVec3::new(0, 0, 0), IVec3::new(1, 0, 0)]);

    chunks.set_chunk_visibility(IVec3::new(0, 0, 0), false);
    let active = chunks.active_chunks();
    assert_eq!(active, vec![IVec3::new(1, 0, 0)]);

    chunks.set_chunk_visibility(IVec3::new(0, 0, 0), true);
    let active = chunks.active_chunks();
    assert_eq!(active, vec![IVec3::new(0, 0, 0), IVec3::new(1, 0, 0)]);
}
