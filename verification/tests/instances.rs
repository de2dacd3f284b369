use a_tlas::math::IVec3;
use a_tlas::rt::acceleration_structure::pack_index_mask_exec;
use a_tlas::world::chunk::Chunks;
use a_tlas::world::HostVoxel;

fn voxel(material_index: u32) -> HostVoxel {
    HostVoxel { material_index, scale_sixteenths: 16 }
}

#[test]
fn pack_index_and_mask() {
    assert_eq!(pack_index_mask_exec(5, 0xFF), 0xFF00_0005);
    assert_eq!(pack_index_mask_exec(5, 0x00), 0x0000_0005);
    // Only the low 24 bits of the index are kept.
    assert_eq!(pack_index_mask_exec(0x0100_0002, 0xFF), 0xFF00_0002);
}

#[test]
fn instance_record_exact_values() {
    let mut chunks = Chunks::new();
    chunks.insert_voxel(IVec3::new(70, 5, 5), voxel(3));

    let records = chunks.to_instances(0, &IVec3::new(0, 0, 0), 42, 100);
    assert_eq!(records.len(), 1);
    let record = &records[0];
    assert_eq!(record.acceleration_structure_reference, 42);
    assert_eq!(record.instance_custom_index_and_mask, 0xFF00_0003);
    // Translation in half-voxel units: twice the global coordinate, with
    // no fractional offset at level of detail zero.
    assert_eq!(record.translation_halves, IVec3::new(140, 10, 10));
    // Scale in sixteenths: one voxel times the stride of one.
    assert_eq!(record.scale_sixteenths, 16);
}

#[test]
fn distance_ordering_blocks() {
    // Chunks at distances [3, 1, 2] from the origin produce instance
    // blocks in chunk order [1, 2, 3].
    let mut chunks = Chunks::new();
    chunks.insert_voxel(IVec3::new(192, 0, 0), voxel(3)); // chunk (3,0,0), distance 3
    chunks.insert_voxel(IVec3::new(64, 0, 0), voxel(1)); // chunk (1,0,0), distance 1
    chunks.insert_voxel(IVec3::new(128, 0, 0), voxel(2)); // chunk (2,0,0), distance 2

    let origin = IVec3::new(0, 0, 0);
    assert_eq!(Chunks::distance_to_chunk(&IVec3::new(3, 0, 0), &origin), 3);
    assert_eq!(Chunks::distance_to_chunk(&IVec3::new(1, 0, 0), &origin), 1);
    assert_eq!(Chunks::distance_to_chunk(&IVec3::new(2, 0, 0), &origin), 2);

    let records = chunks.to_instances(0, &origin, 0, 100);
    assert_eq!(records.len(), 3);
    let materials: Vec<u32> = records
        .iter()
        .map(|r| r.instance_custom_index_and_mask & 0x00FF_FFFF)
        .collect();
    assert_eq!(materials, vec![1, 2, 3]);
}

#[test]
fn distance_is_integer_truncated() {
    // (1,1,0) is sqrt(2) away from the origin chunk; truncated to 1.
    let origin = IVec3::new(0, 0, 0);
    assert_eq!(Chunks::distance_to_chunk(&IVec3::new(1, 1, 0), &origin), 1);
    assert_eq!(Chunks::distance_to_chunk(&IVec3::new(2, 2, 1), &origin), 3);
    // The reference point is divided by the chunk width with truncation:
    // (-63, 0, 0) falls in chunk 0, not chunk -1.
    assert_eq!(Chunks::distance_to_chunk(&IVec3::new(0, 0, 0), &IVec3::new(-63, 0, 0)), 0);
}

#[test]
fn distance_accepts_far_reference_points() {
    // The reference point need not lie inside the world volume; distances
    // keep their truncated-Euclidean meaning further out.
    let far = IVec3::new(64_000, 0, 0); // chunk 1000 under truncating division
    assert_eq!(Chunks::distance_to_chunk(&IVec3::new(0, 0, 0), &far), 1000);
    assert_eq!(Chunks::distance_to_chunk(&IVec3::new(40, 0, 0), &far), 960);
}

#[test]
fn lod_stride_filter() {
    // At lod = 1 only voxels with all three local coordinates even
    // appear, and the filtered output is never larger than at lod = 0.
    let mut chunks = Chunks::new();
    chunks.insert_voxel(IVec3::new(0, 0, 0), voxel(0));
    chunks.insert_voxel(IVec3::new(1, 0, 0), voxel(1));
    chunks.insert_voxel(IVec3::new(2, 2, 2), voxel(2));
    chunks.insert_voxel(IVec3::new(3, 3, 3), voxel(3));
    chunks.insert_voxel(IVec3::new(2, 2, 1), voxel(4));

    let origin = IVec3::new(0, 0, 0);
    let full = chunks.to_instances(0, &origin, 0, 1000);
    let coarse = chunks.to_instances(1, &origin, 0, 1000);

    assert_eq!(full.len(), 5);
    assert_eq!(coarse.len(), 2);
    assert!(coarse.len() <= full.len());

    let materials: Vec<u32> = coarse
        .iter()
        .map(|r| r.instance_custom_index_and_mask & 0x00FF_FFFF)
        .collect();
    assert_eq!(materials, vec![0, 2]);

    // At lod = 1 the stride doubles the scale.
    assert_eq!(coarse[0].scale_sixteenths, 32);
    // The fractional centering offset is zero below lod = 2 ...
    assert_eq!(coarse[0].translation_halves, IVec3::new(0, 0, 0));
    // ... and half a voxel at lod = 2.
    let coarsest = chunks.to_instances(2, &origin, 0, 1000);
    assert_eq!(coarsest.len(), 1);
    assert_eq!(coarsest[0].translation_halves, IVec3::new(1, 1, 1));
    assert_eq!(coarsest[0].scale_sixteenths, 64);
}

#[test]
fn capacity_truncation_prefers_nearest() {
    // More candidates than max_count: exactly max_count records come
    // back, and the nearest chunks' records come first.
    let mut chunks = Chunks::new();
    chunks.insert_voxel(IVec3::new(128, 0, 0), voxel(20)); // distance 2
    chunks.insert_voxel(IVec3::new(129, 0, 0), voxel(21)); // distance 2
    chunks.insert_voxel(IVec3::new(0, 0, 0), voxel(10)); // distance 0
    chunks.insert_voxel(IVec3::new(1, 0, 0), voxel(11)); // distance 0

    let origin = IVec3::new(0, 0, 0);
    let all = chunks.to_instances(0, &origin, 0, 100);
    assert_eq!(all.len(), 4);

    let capped = chunks.to_instances(0, &origin, 0, 3);
    assert_eq!(capped.len(), 3);
    let materials: Vec<u32> = capped
        .iter()
        .map(|r| r.instance_custom_index_and_mask & 0x00FF_FFFF)
        .collect();
    assert_eq!(materials, vec![10, 11, 20]);

    let empty = chunks.to_instances(0, &origin, 0, 0);
    assert_eq!(empty.len(), 0);
}

#[test]
fn invisible_chunks_contribute_nothing() {
    let mut chunks = Chunks::new();
    chunks.insert_voxel(IVec3::new(0, 0, 0), voxel(1));
    chunks.insert_voxel(IVec3::new(64, 0, 0), voxel(2));
    chunks.set_chunk_visibility(IVec3::new(0, 0, 0), false);

    let records = chunks.to_instances(0, &IVec3::new(0, 0, 0), 0, 100);
    assert_eq!(records.len(), 1);
    assert_eq!(records[0].instance_custom_index_and_mask & 0x00FF_FFFF, 2);
}
