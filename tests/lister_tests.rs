use rust_ue_tools::types::ProgressInfo;
use rust_ue_tools::utoc_list::{UtocChunkInfo, UtocLister};
use rust_ue_tools::{CompressionMethod, Unpacker};

#[test]
fn test_utoc_lister_creation() {
    let lister = UtocLister::new();
    assert!(lister.progress_callback.is_none());
}

#[test]
fn test_progress_callback() {
    let log: Vec<ProgressInfo> = Vec::new();
    let lister = UtocLister::new().with_progress_callback(log);
    assert!(lister.progress_callback.is_some());
    assert!(lister.has_progress_callback());
}

#[test]
fn test_unpacker_creation() {
    let unpacker = Unpacker::new();
    assert!(unpacker.pak_unpacker.progress_callback.is_none());
    assert!(unpacker.utoc_lister.progress_callback.is_none());
}

#[test]
fn utoc_list_sorts_dedups_and_reports_progress() {
    let mut lister = UtocLister::new().with_progress_callback(Vec::new());
    let chunks = vec![
        Some("/Game/B.json".to_string()),
        None,
        Some("/Game/A.uasset".to_string()),
        Some("/Game/A.uasset".to_string()),
        Some("/Game/readme.txt".to_string()),
    ];
    let assets = lister.list(&chunks);
    let names: Vec<&str> = assets.iter().map(|a| a.as_str()).collect();
    assert_eq!(names, vec!["/Game/A.uasset", "/Game/B.json"]);
    let log = lister.progress_callback.as_ref().unwrap();
    assert_eq!(log.len(), 10);
    let opening: Vec<u8> = log[..4].iter().map(|e| e.percentage).collect();
    assert_eq!(opening, vec![0, 10, 30, 60]);
    assert_eq!(log[3].message, "Found 5 chunks");
    assert_eq!(log[3].total, 5);
    assert_eq!(log[4].percentage, 67);
    assert_eq!(log[4].processed, 1);
    assert_eq!(log[8].percentage, 95);
    assert_eq!(log[9].percentage, 100);
    assert_eq!(log[9].processed, 5);
    assert_eq!(log[9].total, 5);
    assert_eq!(log[9].message, "Completed - found 2 assets");
}

#[test]
fn utoc_list_detailed_reports_entries() {
    let lister = UtocLister::new();
    let chunk = |p: Option<&str>, size: u64| UtocChunkInfo {
        id: "0".to_string(),
        path: p.map(|s| s.to_string()),
        size,
        compressed_size: size,
        offset: 0,
        chunk_type: "ExportBundleData".to_string(),
        is_compressed: size > 8,
        compression_method: if size > 8 { Some(CompressionMethod::Oodle) } else { None },
    };
    let chunks = vec![chunk(Some("/Game/Z.umap"), 7), chunk(None, 1), chunk(Some("/Game/Y.UASSET"), 9)];
    let info = lister.list_detailed(&chunks, 3, "Main".to_string());
    assert_eq!(info.metadata.version, 3);
    assert_eq!(info.metadata.chunk_count, 3);
    assert_eq!(info.metadata.file_count, 3);
    assert_eq!(info.metadata.container_id, "Main");
    let assets: Vec<&str> = info.assets.iter().map(|a| a.as_str()).collect();
    assert_eq!(assets, vec!["/Game/Y.UASSET", "/Game/Z.umap"]);
    assert_eq!(info.file_entries.len(), 2);
    assert_eq!(info.file_entries[0].path.as_str(), "/Game/Z.umap");
    assert_eq!(info.file_entries[0].size, 7);
    assert_eq!(info.file_entries[1].size, 9);
    assert!(!info.file_entries[0].is_compressed);
    assert!(info.file_entries[1].is_compressed);
    assert_eq!(info.file_entries[1].compression, Some(CompressionMethod::Oodle));
    assert_eq!(info.file_entries[0].compression, None);
}
