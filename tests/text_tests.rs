use rust_ue_tools::aes_key::{key_from_decoded, parse_aes_key, parse_optional_aes_key};
use rust_ue_tools::archive::{detect_archive_type, rar_extract_args, rar_tool_candidates, ArchiveType};
use rust_ue_tools::error::UeToolError;
use rust_ue_tools::normalize::{path_segments, to_asset_style_path};
use rust_ue_tools::pak_unpack::{join_output_path, should_write, strip_path_prefix, unpack_percentage, PakUnpacker};
use rust_ue_tools::text::decimal;
use rust_ue_tools::{AssetPath, CompressionMethod, PakUnpackOptions};

#[test]
fn normalization_keeps_segment_before_content() {
    assert_eq!(
        to_asset_style_path("ModX/Content/Characters/Hero.uasset", "base"),
        "ModX/Content/Characters/Hero.uasset"
    );
    assert_eq!(
        to_asset_style_path("C:\\mods\\ModX\\content\\Hero.uasset", "elsewhere"),
        "ModX/content/Hero.uasset"
    );
}

#[test]
fn normalization_is_deterministic() {
    let a = to_asset_style_path("out/ModY/Content/A.uasset", "out");
    let b = to_asset_style_path("out/ModY/Content/A.uasset", "out");
    assert_eq!(a, b);
}

#[test]
fn normalization_fallbacks() {
    assert_eq!(to_asset_style_path("Content/A.uasset", "x"), "A.uasset");
    assert_eq!(to_asset_style_path("root/sub/dir/A.uasset", "root/sub"), "dir/A.uasset");
    assert_eq!(to_asset_style_path("root\\sub\\A.uasset", "root/"), "sub/A.uasset");
    assert_eq!(to_asset_style_path("other/A.uasset", "root"), "A.uasset");
    assert_eq!(to_asset_style_path("", "root"), "");
    assert_eq!(path_segments("/a//b\\c/"), vec!["a".to_string(), "b".to_string(), "c".to_string()]);
}

#[test]
fn malformed_aes_key_is_invalid_aes_key() {
    match parse_aes_key("zz") {
        Err(UeToolError::InvalidAesKey(m)) => assert_eq!(m, "Invalid AES key format: zz"),
        other => panic!("unexpected {:?}", other.map(|k| k.as_bytes().clone())),
    }
    assert!(matches!(parse_aes_key(""), Err(UeToolError::InvalidAesKey(_))));
    assert!(matches!(parse_aes_key("0x1234"), Err(UeToolError::InvalidAesKey(_))));
    assert!(matches!(parse_optional_aes_key(Some("zz")), Err(UeToolError::InvalidAesKey(_))));
    assert!(matches!(parse_optional_aes_key(None), Ok(None)));
}

#[test]
fn aes_key_accepts_hex_and_base64() {
    let hex = "000102030405060708090A0B0C0D0E0F101112131415161718191a1b1c1d1e1f";
    let expected: Vec<u8> = (0u8..32).collect();
    assert_eq!(parse_aes_key(hex).unwrap().as_bytes(), &expected);
    let prefixed = format!("0x{}", hex);
    assert_eq!(parse_aes_key(&prefixed).unwrap().as_bytes(), &expected);
    let b64 = "AAECAwQFBgcICQoLDA0ODxAREhMUFRYXGBkaGxwdHh8=";
    assert_eq!(parse_aes_key(b64).unwrap().as_bytes(), &expected);
    assert_eq!(parse_aes_key(b64.trim_end_matches('=')).unwrap().as_bytes(), &expected);
    assert!(matches!(key_from_decoded("k", Some(vec![1, 2, 3])), Err(UeToolError::InvalidAesKey(_))));
    assert!(key_from_decoded("k", Some(vec![7; 32])).is_ok());
}

#[test]
fn solo_pak_output_path_strips_prefix() {
    let mut unpacker = PakUnpacker::new().with_progress_callback(Vec::new());
    let options = PakUnpackOptions::new();
    let files = vec!["../../../Game/X.uasset".to_string()];
    let plan = unpacker.plan_unpack(&files, "out_dir", &options);
    assert_eq!(plan.len(), 1);
    assert_eq!(plan[0].original_path.as_str(), "../../../Game/X.uasset");
    assert_eq!(plan[0].output_path, "out_dir/Game/X.uasset");
    let log = unpacker.progress_callback.unwrap();
    assert_eq!(log.len(), 5);
    let opening: Vec<u8> = log[..3].iter().map(|e| e.percentage).collect();
    assert_eq!(opening, vec![0, 20, 30]);
    assert_eq!(log[2].message, "Found 1 files to unpack");
    assert_eq!(log[3].percentage, 100);
    assert_eq!(log[3].message, "Unpacking: ../../../Game/X.uasset");
    assert_eq!(log[4].message, "Completed - unpacked 1 files");
    assert_eq!(log[4].processed, 1);
    assert_eq!(log[4].total, 1);
}

#[test]
fn include_patterns_select_files() {
    let mut unpacker = PakUnpacker::new();
    let options = PakUnpackOptions::new()
        .with_strip_prefix("".to_string())
        .with_include_patterns(vec!["Game/**/*.uasset".to_string(), "[".to_string()]);
    let files = vec!["Game/A/X.uasset".to_string(), "Game/A/Y.txt".to_string(), "Other/Z.uasset".to_string()];
    let plan = unpacker.plan_unpack(&files, "o/", &options);
    assert_eq!(plan.len(), 1);
    assert_eq!(plan[0].output_path, "o/Game/A/X.uasset");
    assert!(unpacker.progress_callback.is_none());
}

#[test]
fn path_helpers() {
    assert_eq!(strip_path_prefix("../../../Game/X", "../../../"), "Game/X");
    assert_eq!(strip_path_prefix("Game/X", "../../../"), "Game/X");
    assert_eq!(strip_path_prefix("Game/X", ""), "Game/X");
    assert_eq!(join_output_path("out", "a/b"), "out/a/b");
    assert_eq!(join_output_path("", "a/b"), "a/b");
    assert_eq!(join_output_path("out", "/abs"), "/abs");
    assert_eq!(unpack_percentage(1, 3), 53);
    assert_eq!(decimal(0), "0");
    assert_eq!(decimal(40213), "40213");
}

#[test]
fn asset_path_queries() {
    let a = AssetPath::new("/Game/Characters/Hero/Hero.uasset".to_string());
    assert_eq!(a.extension(), Some("uasset"));
    assert_eq!(a.file_name(), Some("Hero.uasset"));
    assert_eq!(a.parent().unwrap().as_str(), "/Game/Characters/Hero");
    assert!(a.has_extension("uasset"));
    assert!(!a.has_extension("umap"));
    assert!(a.starts_with("/Game"));
    assert!(!a.starts_with("/Engine"));
    let dotfile = AssetPath::new("dir/.hidden".to_string());
    assert_eq!(dotfile.extension(), None);
    assert_eq!(AssetPath::new("/x".to_string()).parent().unwrap().as_str(), "/");
    assert!(AssetPath::new("/".to_string()).parent().is_none());
    assert!(AssetPath::new("//".to_string()).parent().is_none());
    assert_eq!(AssetPath::new("a/".to_string()).parent().unwrap().as_str(), "a");
    assert_eq!(AssetPath::new("x".to_string()).parent().unwrap().as_str(), "");
    assert!(AssetPath::new(String::new()).parent().is_none());
    assert_eq!(AssetPath::new("dir/".to_string()).file_name(), None);
    assert_eq!(a.to_string(), "/Game/Characters/Hero/Hero.uasset");
}

#[test]
fn compression_method_names() {
    assert_eq!(CompressionMethod::parse("ZLIB"), Ok(CompressionMethod::Zlib));
    assert_eq!(CompressionMethod::parse("Oodle2"), Ok(CompressionMethod::Oodle));
    assert_eq!(CompressionMethod::parse("uncompressed"), Ok(CompressionMethod::Uncompressed));
    assert_eq!(CompressionMethod::parse("brotli"), Err("Unknown compression method: brotli".to_string()));
    assert_eq!(CompressionMethod::default(), CompressionMethod::Oodle);
    assert_eq!(CompressionMethod::Lz4.name(), "Lz4");
    assert_eq!(CompressionMethod::Uncompressed.name(), "None");
}

#[test]
fn archive_type_by_extension() {
    assert_eq!(detect_archive_type("mods/pack.ZIP"), Ok(ArchiveType::Zip));
    assert_eq!(detect_archive_type("pack.rar"), Ok(ArchiveType::Rar));
    assert_eq!(detect_archive_type("pack.7z"), Err(UeToolError::InvalidFormat("Unsupported archive type: 7z".to_string())));
    assert!(matches!(detect_archive_type("pack"), Err(UeToolError::InvalidFormat(_))));
}

#[test]
fn rar_invocation() {
    let c = rar_tool_candidates(Some("/opt/rar".to_string()));
    assert_eq!(c.len(), 4);
    assert_eq!(c[0], "/opt/rar");
    assert_eq!(rar_tool_candidates(None).len(), 3);
    assert_eq!(rar_extract_args("a.rar".to_string(), "d".to_string()), vec!["x", "-y", "a.rar", "d"]);
}

#[test]
fn error_constructors() {
    assert_eq!(UeToolError::io_error("disk".to_string()), UeToolError::IoError("disk".to_string()));
    assert_eq!(UeToolError::invalid_aes_key("k".to_string()), UeToolError::InvalidAesKey("k".to_string()));
    assert_eq!(UeToolError::file_not_found("f".to_string()), UeToolError::FileNotFound("f".to_string()));
}

#[test]
fn options_builders() {
    let o = PakUnpackOptions::new().with_aes_key("k".to_string()).with_force(true).with_quiet(true);
    assert_eq!(o.aes_key.as_deref(), Some("k"));
    assert_eq!(o.strip_prefix, "../../../");
    assert!(o.force && o.quiet);
    let c = rust_ue_tools::types::UeToolsConfig::new().with_worker_threads(4).with_parallel_processing(false);
    assert_eq!(c.worker_threads, 4);
    assert!(!c.use_parallel);
    let u = rust_ue_tools::UtocListOptions::new().with_json_format(true);
    assert!(u.json_format);
}

#[test]
fn pak_info_counts_listing() {
    let unpacker = PakUnpacker::default();
    let info = unpacker.get_info("m.pak".to_string(), vec!["a".to_string(), "b".to_string()]);
    assert_eq!(info.file_path, "m.pak");
    assert_eq!(info.file_count, 2);
    assert_eq!(info.file_names, vec!["a".to_string(), "b".to_string()]);
    let listed = unpacker.list_files(vec!["z".to_string(), "a".to_string()]);
    assert_eq!(listed[0].as_str(), "z");
}

#[test]
fn every_listed_path_gets_an_output_path() {
    let mut unpacker = PakUnpacker::new();
    let options = PakUnpackOptions::new();
    let files = vec!["".to_string(), "a\\b.uasset".to_string(), "/abs/x".to_string(), "../../../G/y".to_string()];
    let plan = unpacker.plan_unpack(&files, "out", &options);
    assert_eq!(plan.len(), 4);
    assert_eq!(plan[0].output_path, "out/");
    assert_eq!(plan[1].output_path, "out/a\\b.uasset");
    assert_eq!(plan[2].output_path, "/abs/x");
    assert_eq!(plan[3].output_path, "out/G/y");
}

#[test]
fn overwrite_only_when_forced() {
    assert!(should_write(false, false));
    assert!(!should_write(true, false));
    assert!(should_write(true, true));
}

#[test]
fn optional_key_parses_supplied_text() {
    let hex = "000102030405060708090A0B0C0D0E0F101112131415161718191a1b1c1d1e1f";
    let k = parse_optional_aes_key(Some(hex)).unwrap().unwrap();
    assert_eq!(k.as_bytes(), &(0u8..32).collect::<Vec<u8>>());
}
