use app_compute::{
    BufferLayout, BufferUsage, Command, DeviceBuffer, Error, MapMode, MapRequest, PipelineEntry,
    PipelineTable, Registry, StagingBuffers,
};

fn two_buffers() -> Registry {
    let mut registry = Registry::new();
    registry.add_buffer("a", 10, 64);
    registry.add_buffer("b", 11, 32);
    registry
}

#[test]
fn empty_registry_resolves_nothing() {
    let registry = Registry::new();
    assert_eq!(registry.buffer("a"), None);
    assert!(registry.staging("a").is_none());
    assert_eq!(registry.staging_len(), 0);
    assert_eq!(registry.write_copies(), Vec::<Command>::new());
    assert_eq!(registry.read_copies(), Vec::<Command>::new());
}

#[test]
fn registered_buffer_is_found_by_name() {
    let registry = two_buffers();
    assert_eq!(registry.buffer("a"), Some(DeviceBuffer { id: 10, size: 64 }));
    assert_eq!(registry.buffer("b"), Some(DeviceBuffer { id: 11, size: 32 }));
    assert_eq!(registry.buffer("c"), None);
    assert_eq!(registry.buffer(""), None);
}

#[test]
fn registering_a_name_again_replaces_its_buffer() {
    let mut registry = two_buffers();
    registry.add_buffer("a", 20, 128);
    assert_eq!(registry.buffer("a"), Some(DeviceBuffer { id: 20, size: 128 }));
    assert_eq!(registry.buffer("b"), Some(DeviceBuffer { id: 11, size: 32 }));
}

#[test]
fn swap_exchanges_the_buffers_of_two_names() {
    let mut registry = two_buffers();
    assert_eq!(registry.swap("a", "b"), Ok(()));
    assert_eq!(registry.buffer("a"), Some(DeviceBuffer { id: 11, size: 32 }));
    assert_eq!(registry.buffer("b"), Some(DeviceBuffer { id: 10, size: 64 }));
}

#[test]
fn swap_twice_restores_the_buffers() {
    let mut registry = two_buffers();
    assert_eq!(registry.swap("a", "b"), Ok(()));
    assert_eq!(registry.swap("a", "b"), Ok(()));
    assert_eq!(registry.buffer("a"), Some(DeviceBuffer { id: 10, size: 64 }));
    assert_eq!(registry.buffer("b"), Some(DeviceBuffer { id: 11, size: 32 }));
}

#[test]
fn swap_of_a_name_with_itself_changes_nothing() {
    let mut registry = two_buffers();
    assert_eq!(registry.swap("a", "a"), Ok(()));
    assert_eq!(registry.buffer("a"), Some(DeviceBuffer { id: 10, size: 64 }));
    assert_eq!(registry.buffer("b"), Some(DeviceBuffer { id: 11, size: 32 }));
}

#[test]
fn swap_with_unregistered_first_name_fails_and_changes_nothing() {
    let mut registry = two_buffers();
    assert_eq!(registry.swap("missing", "b"), Err(Error::BufferNotFound("missing".to_string())));
    assert_eq!(registry.buffer("a"), Some(DeviceBuffer { id: 10, size: 64 }));
    assert_eq!(registry.buffer("b"), Some(DeviceBuffer { id: 11, size: 32 }));
    assert_eq!(registry.buffer("missing"), None);
}

#[test]
fn swap_with_unregistered_second_name_fails_and_changes_nothing() {
    let mut registry = two_buffers();
    assert_eq!(registry.swap("a", "missing"), Err(Error::BufferNotFound("missing".to_string())));
    assert_eq!(registry.buffer("a"), Some(DeviceBuffer { id: 10, size: 64 }));
    assert_eq!(registry.buffer("b"), Some(DeviceBuffer { id: 11, size: 32 }));
}

#[test]
fn swap_reports_the_first_of_two_unregistered_names() {
    let mut registry = two_buffers();
    assert_eq!(registry.swap("x", "y"), Err(Error::BufferNotFound("x".to_string())));
}

#[test]
fn staging_needs_a_device_buffer_of_the_same_name() {
    let mut registry = two_buffers();
    assert_eq!(
        registry.add_staging("c", 30, 31, 64),
        Err(Error::BufferNotFound("c".to_string()))
    );
    assert_eq!(registry.staging_len(), 0);
    assert!(registry.staging("c").is_none());
}

#[test]
fn staging_pair_starts_unmapped_and_empty() {
    let mut registry = two_buffers();
    assert_eq!(registry.add_staging("a", 30, 31, 64), Ok(()));
    let pair = registry.staging("a").unwrap();
    assert_eq!(pair.name, "a");
    assert_eq!(pair.read, 30);
    assert_eq!(pair.write, 31);
    assert_eq!(pair.size, 64);
    assert!(!pair.read_mapped);
    assert!(!pair.write_mapped);
    assert!(pair.data.is_empty());
    assert_eq!(registry.staging_len(), 1);
    assert_eq!(registry.staging_at(0), pair);
}

#[test]
fn staging_pairs_keep_their_order_of_registration() {
    let mut registry = two_buffers();
    assert_eq!(registry.add_staging("b", 40, 41, 32), Ok(()));
    assert_eq!(registry.add_staging("a", 30, 31, 64), Ok(()));
    assert_eq!(registry.add_staging("b", 50, 51, 32), Ok(()));
    assert_eq!(registry.staging_len(), 2);
    assert_eq!(registry.staging_at(0).name, "b");
    assert_eq!(registry.staging_at(0).read, 50);
    assert_eq!(registry.staging_at(0).write, 51);
    assert_eq!(registry.staging_at(1).name, "a");
}

#[test]
fn copies_follow_the_staging_order_and_the_current_buffers() {
    let mut registry = two_buffers();
    assert_eq!(registry.add_staging("b", 40, 41, 32), Ok(()));
    assert_eq!(registry.add_staging("a", 30, 31, 64), Ok(()));
    assert_eq!(
        registry.write_copies(),
        vec![
            Command::CopyBufferToBuffer { source: 41, destination: 11, size: 32 },
            Command::CopyBufferToBuffer { source: 31, destination: 10, size: 64 },
        ]
    );
    assert_eq!(
        registry.read_copies(),
        vec![
            Command::CopyBufferToBuffer { source: 11, destination: 40, size: 32 },
            Command::CopyBufferToBuffer { source: 10, destination: 30, size: 64 },
        ]
    );
    assert_eq!(registry.swap("a", "b"), Ok(()));
    assert_eq!(
        registry.write_copies(),
        vec![
            Command::CopyBufferToBuffer { source: 41, destination: 10, size: 64 },
            Command::CopyBufferToBuffer { source: 31, destination: 11, size: 32 },
        ]
    );
    assert_eq!(
        registry.read_copies(),
        vec![
            Command::CopyBufferToBuffer { source: 10, destination: 40, size: 32 },
            Command::CopyBufferToBuffer { source: 11, destination: 30, size: 64 },
        ]
    );
}

#[test]
fn map_all_without_pending_write_maps_read_buffers_only() {
    let mut registry = two_buffers();
    assert_eq!(registry.add_staging("a", 30, 31, 64), Ok(()));
    assert_eq!(registry.add_staging("b", 40, 41, 32), Ok(()));
    let requests = registry.map_all(false);
    assert_eq!(
        requests,
        vec![
            MapRequest { name: "a".to_string(), buffer: 30, mode: MapMode::Read },
            MapRequest { name: "b".to_string(), buffer: 40, mode: MapMode::Read },
        ]
    );
    assert!(registry.staging("a").unwrap().read_mapped);
    assert!(!registry.staging("a").unwrap().write_mapped);
    assert!(registry.staging("b").unwrap().read_mapped);
    assert!(!registry.staging("b").unwrap().write_mapped);
}

#[test]
fn map_all_with_pending_write_maps_both_buffers_of_each_pair() {
    let mut registry = two_buffers();
    assert_eq!(registry.add_staging("a", 30, 31, 64), Ok(()));
    assert_eq!(registry.add_staging("b", 40, 41, 32), Ok(()));
    let requests = registry.map_all(true);
    assert_eq!(
        requests,
        vec![
            MapRequest { name: "a".to_string(), buffer: 30, mode: MapMode::Read },
            MapRequest { name: "a".to_string(), buffer: 31, mode: MapMode::Write },
            MapRequest { name: "b".to_string(), buffer: 40, mode: MapMode::Read },
            MapRequest { name: "b".to_string(), buffer: 41, mode: MapMode::Write },
        ]
    );
    assert!(registry.staging("a").unwrap().write_mapped);
    assert!(registry.staging("b").unwrap().write_mapped);
}

#[test]
fn unmap_all_releases_what_is_mapped_and_forgets_the_data() {
    let mut registry = two_buffers();
    assert_eq!(registry.add_staging("a", 30, 31, 64), Ok(()));
    assert_eq!(registry.add_staging("b", 40, 41, 32), Ok(()));
    assert_eq!(registry.unmap_all(), Vec::<usize>::new());
    registry.map_all(false);
    assert_eq!(registry.fill("a", vec![5; 64]), Ok(()));
    assert_eq!(registry.staging("a").unwrap().data, vec![5; 64]);
    assert!(registry.staging("b").unwrap().data.is_empty());
    assert_eq!(registry.unmap_all(), vec![30, 40]);
    assert!(!registry.staging("a").unwrap().read_mapped);
    assert!(registry.staging("a").unwrap().data.is_empty());
    registry.map_all(true);
    assert_eq!(registry.unmap_all(), vec![30, 31, 40, 41]);
    assert!(!registry.staging("b").unwrap().read_mapped);
    assert!(!registry.staging("b").unwrap().write_mapped);
    assert_eq!(registry.unmap_all(), Vec::<usize>::new());
}

#[test]
fn fill_of_an_unregistered_name_fails() {
    let mut registry = two_buffers();
    assert_eq!(
        registry.fill("a", vec![1]),
        Err(Error::StagingBufferNotFound("a".to_string()))
    );
}

#[test]
fn staging_layout_gives_the_usages_of_both_buffers() {
    let (read, write) = StagingBuffers::layout(256);
    assert_eq!(
        read,
        BufferLayout {
            size: 256,
            usage: BufferUsage { map_read: true, map_write: false, copy_src: false, copy_dst: true },
            mapped_at_creation: false,
        }
    );
    assert_eq!(
        write,
        BufferLayout {
            size: 256,
            usage: BufferUsage { map_read: false, map_write: false, copy_src: true, copy_dst: true },
            mapped_at_creation: false,
        }
    );
}

#[test]
fn new_staging_pair_holds_its_handles() {
    let pair = StagingBuffers::new("out", 3, 4, 16);
    assert_eq!(
        pair,
        StagingBuffers {
            name: "out".to_string(),
            read: 3,
            read_mapped: false,
            write: 4,
            write_mapped: false,
            size: 16,
            data: Vec::new(),
        }
    );
}

#[test]
fn pipeline_table_starts_unresolved() {
    let mut table = PipelineTable::new();
    assert_eq!(table.get(7), None);
    table.add(7, 0);
    table.add(u128::MAX, 1);
    assert_eq!(table.get(7), Some(PipelineEntry { cache_id: 0, pipeline: None }));
    assert_eq!(table.get(u128::MAX), Some(PipelineEntry { cache_id: 1, pipeline: None }));
    assert_eq!(table.get(8), None);
}

#[test]
fn pipeline_table_takes_what_the_cache_has_ready() {
    let mut table = PipelineTable::new();
    table.add(7, 0);
    table.add(8, 1);
    table.add(9, 5);
    table.extract(&vec![None, Some(100)]);
    assert_eq!(table.get(7), Some(PipelineEntry { cache_id: 0, pipeline: None }));
    assert_eq!(table.get(8), Some(PipelineEntry { cache_id: 1, pipeline: Some(100) }));
    assert_eq!(table.get(9), Some(PipelineEntry { cache_id: 5, pipeline: None }));
    table.extract(&vec![Some(200), Some(300)]);
    assert_eq!(table.get(7), Some(PipelineEntry { cache_id: 0, pipeline: Some(200) }));
    assert_eq!(table.get(8), Some(PipelineEntry { cache_id: 1, pipeline: Some(100) }));
}

#[test]
fn resolved_pipeline_is_never_replaced() {
    let mut table = PipelineTable::new();
    table.add(7, 0);
    table.extract(&vec![Some(1)]);
    table.extract(&vec![Some(2)]);
    table.extract(&vec![None]);
    table.extract(&Vec::new());
    assert_eq!(table.get(7), Some(PipelineEntry { cache_id: 0, pipeline: Some(1) }));
}

#[test]
fn registering_a_program_again_resets_its_entry() {
    let mut table = PipelineTable::new();
    table.add(7, 0);
    table.extract(&vec![Some(1)]);
    table.add(7, 3);
    assert_eq!(table.get(7), Some(PipelineEntry { cache_id: 3, pipeline: None }));
}
