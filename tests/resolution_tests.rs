use rust_ue_tools::assets::{is_asset_file, sort_dedup};
use rust_ue_tools::batch::{batch_percentage, collect_outcomes, result_key, unit_result_key, BundleResultMap};
use rust_ue_tools::engine::{after_pak_listing, after_utoc_listing, start_extraction, ExtractStep};
use rust_ue_tools::error::UeToolError;
use rust_ue_tools::resolver::{classify, discover, BundleClassification, ContainerKind, ContainerUnit};
use rust_ue_tools::AssetPath;

fn strings(v: &[&str]) -> Vec<String> {
    v.iter().map(|s| s.to_string()).collect()
}

fn paths(v: &[AssetPath]) -> Vec<String> {
    v.iter().map(|a| a.as_str().to_string()).collect()
}

fn pair_of(pak: &str, utoc: &str) -> BundleClassification {
    let units = discover(strings(&[pak, utoc]));
    let mut cs = classify(&units);
    assert_eq!(cs.len(), 1);
    cs.remove(0)
}

#[test]
fn discovery_keeps_containers_only() {
    let units = discover(strings(&["a/Main.pak", "a/readme.txt", "a/Main.UTOC", "b/noext", "c/.pak"]));
    assert_eq!(units.len(), 2);
    assert_eq!(units[0].kind, ContainerKind::Pak);
    assert_eq!(units[0].bundle_key, "Main");
    assert_eq!(units[1].kind, ContainerKind::Utoc);
    assert_eq!(units[1].path, "a/Main.UTOC");
}

#[test]
fn classification_partitions_bundle_keys() {
    let units = discover(strings(&["a/Main.pak", "a/Main.utoc", "b/Solo.pak", "c/Only.utoc", "d/Solo.pak"]));
    let cs = classify(&units);
    assert_eq!(cs.len(), 3);
    let mut seen = Vec::new();
    for c in &cs {
        seen.push(c.key().to_string());
        match c {
            BundleClassification::BundlePair { pak, utoc } => {
                assert_eq!(pak.path, "a/Main.pak");
                assert_eq!(utoc.path, "a/Main.utoc");
            }
            BundleClassification::SoloPak(p) => assert_eq!(p.path, "b/Solo.pak"),
            BundleClassification::SoloUtoc(u) => assert_eq!(u.path, "c/Only.utoc"),
        }
    }
    seen.sort();
    assert_eq!(seen, strings(&["Main", "Only", "Solo"]));
}

#[test]
fn stem_pairing_is_case_sensitive() {
    let units = discover(strings(&["Main.pak", "main.utoc"]));
    let cs = classify(&units);
    assert_eq!(cs.len(), 2);
}

#[test]
fn bundle_pair_with_utoc_assets_uses_utoc() {
    let c = pair_of("x/Main.pak", "x/Main.utoc");
    match start_extraction(&c) {
        ExtractStep::ListUtoc(p) => assert_eq!(p, "x/Main.utoc"),
        other => panic!("unexpected step {:?}", other),
    }
    let chunks = vec![
        Some("/Game/A.uasset".to_string()),
        Some("/Game/A.uasset".to_string()),
        Some("/Game/B.json".to_string()),
    ];
    match after_utoc_listing(&c, Ok(chunks)) {
        ExtractStep::Done(Ok(v)) => {
            assert_eq!(paths(&v), strings(&["/Game/A.uasset", "/Game/B.json"]));
            let mut map = BundleResultMap::new();
            let key = result_key(&c);
            assert_eq!(key, "Main.utoc");
            assert!(map.record(key, Ok(v)).is_none());
            assert_eq!(paths(map.get("Main.utoc").unwrap()), strings(&["/Game/A.uasset", "/Game/B.json"]));
        }
        other => panic!("unexpected step {:?}", other),
    }
}

#[test]
fn bundle_pair_without_utoc_assets_falls_back_to_pak() {
    let c = pair_of("x/Main.pak", "x/Main.utoc");
    let chunks = vec![None, Some("/Game/notes.txt".to_string())];
    match after_utoc_listing(&c, Ok(chunks)) {
        ExtractStep::ListPak(p) => assert_eq!(p, "x/Main.pak"),
        other => panic!("unexpected step {:?}", other),
    }
    match after_pak_listing(Ok(strings(&["../../../Game/Z.txt", "../../../Game/A.uasset"]))) {
        ExtractStep::Done(Ok(v)) => assert_eq!(paths(&v), strings(&["../../../Game/Z.txt", "../../../Game/A.uasset"])),
        other => panic!("unexpected step {:?}", other),
    }
    match after_pak_listing(Ok(Vec::new())) {
        ExtractStep::Done(Ok(v)) => assert!(v.is_empty()),
        other => panic!("unexpected step {:?}", other),
    }
}

#[test]
fn solo_utoc_without_assets_is_empty_not_an_error() {
    let units = discover(strings(&["Only.utoc"]));
    let cs = classify(&units);
    match after_utoc_listing(&cs[0], Ok(vec![None])) {
        ExtractStep::Done(Ok(v)) => assert!(v.is_empty()),
        other => panic!("unexpected step {:?}", other),
    }
    assert_eq!(result_key(&cs[0]), "Only.utoc");
}

#[test]
fn solo_pak_is_listed_directly() {
    let units = discover(strings(&["d/Solo.pak"]));
    let cs = classify(&units);
    match start_extraction(&cs[0]) {
        ExtractStep::ListPak(p) => assert_eq!(p, "d/Solo.pak"),
        other => panic!("unexpected step {:?}", other),
    }
    assert_eq!(result_key(&cs[0]), "Solo.pak");
}

#[test]
fn reader_error_ends_extraction() {
    let c = pair_of("Main.pak", "Main.utoc");
    match after_utoc_listing(&c, Err(UeToolError::UtocError("bad".to_string()))) {
        ExtractStep::Done(Err(UeToolError::UtocError(m))) => assert_eq!(m, "bad"),
        other => panic!("unexpected step {:?}", other),
    }
}

#[test]
fn sort_dedup_is_idempotent() {
    let l: Vec<AssetPath> = ["/b", "/a", "/b", "/c", "/a"].iter().map(|s| AssetPath::new(s.to_string())).collect();
    let once = sort_dedup(l);
    assert_eq!(paths(&once), strings(&["/a", "/b", "/c"]));
    let twice = sort_dedup(once.clone());
    assert_eq!(paths(&twice), paths(&once));
    let empty = sort_dedup(Vec::new());
    assert!(empty.is_empty());
}

#[test]
fn sort_orders_by_code_point() {
    let l: Vec<AssetPath> = ["b", "B", "a", "ab", "", "é"].iter().map(|s| AssetPath::new(s.to_string())).collect();
    let mut expected = strings(&["b", "B", "a", "ab", "", "é"]);
    expected.sort();
    assert_eq!(paths(&sort_dedup(l)), expected);
}

#[test]
fn batch_skips_failed_units() {
    let keys = strings(&["One.pak", "Two.pak", "Three.utoc"]);
    let outcomes = vec![
        Ok(vec![AssetPath::new("/Game/One.uasset".to_string())]),
        Err(UeToolError::PakError("corrupt".to_string())),
        Ok(vec![AssetPath::new("/Game/B.uasset".to_string()), AssetPath::new("/Game/A.uasset".to_string())]),
    ];
    let (map, warnings) = collect_outcomes(keys, outcomes);
    assert_eq!(map.len(), 2);
    assert!(map.get("One.pak").is_some());
    assert!(map.get("Two.pak").is_none());
    assert_eq!(paths(map.get("Three.utoc").unwrap()), strings(&["/Game/A.uasset", "/Game/B.uasset"]));
    assert_eq!(warnings.len(), 1);
    assert!(matches!(warnings[0], UeToolError::PakError(_)));
    let mut keys = map.keys();
    keys.sort();
    assert_eq!(keys, strings(&["One.pak", "Three.utoc"]));
}

#[test]
fn result_map_insert_replaces() {
    let mut map = BundleResultMap::new();
    map.insert("K.pak".to_string(), vec![AssetPath::new("/x".to_string())]);
    map.insert("K.pak".to_string(), vec![AssetPath::new("/y".to_string()), AssetPath::new("/y".to_string())]);
    assert_eq!(map.len(), 1);
    assert_eq!(paths(map.get("K.pak").unwrap()), strings(&["/y"]));
    let w = map.record("E.pak".to_string(), Err(UeToolError::InvalidAesKey("k".to_string())));
    assert!(matches!(w, Some(UeToolError::InvalidAesKey(_))));
    assert_eq!(map.len(), 1);
}

#[test]
fn batch_percentages_round_to_nearest() {
    assert_eq!(batch_percentage(1, 3), 33);
    assert_eq!(batch_percentage(2, 3), 67);
    assert_eq!(batch_percentage(1, 8), 13);
    assert_eq!(batch_percentage(0, 5), 0);
    assert_eq!(batch_percentage(5, 5), 100);
}

#[test]
fn unit_keys_carry_kind() {
    let u = ContainerUnit::from_path("dir/Mod_P.utoc".to_string()).unwrap();
    assert_eq!(unit_result_key(&u), "Mod_P.utoc");
    let p = ContainerUnit::from_path("dir/Mod_P.PAK".to_string()).unwrap();
    assert_eq!(unit_result_key(&p), "Mod_P.pak");
    assert!(ContainerUnit::from_path("dir/Mod_P.ucas".to_string()).is_none());
}

#[test]
fn asset_extension_filter_ignores_case() {
    assert!(is_asset_file("/Game/A.UASSET"));
    assert!(is_asset_file("/Game/Sound.Wem"));
    assert!(is_asset_file("Plugin.uplugin"));
    assert!(!is_asset_file("/Game/notes.txt"));
    assert!(!is_asset_file("/Game/uasset"));
    assert!(!is_asset_file("/Game/.uasset"));
}
