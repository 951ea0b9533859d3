use blaseball_vcr::digest::{entity_hash, hex_string};
use blaseball_vcr::folder::{plan_folder, sort_texts};
use blaseball_vcr::site::{decimal_text, expand_site_updates, get_resource, EncodedResource, PatchData, Timestamp};
use blaseball_vcr::tape::tape_sections;
use blaseball_vcr::VCRError;

fn delta(old: &[u8], new: &[u8]) -> (Vec<u8>, usize) {
    let mut patch = Vec::new();
    bsdiff::diff(old, new, &mut patch).unwrap();
    (zstd::bulk::compress(&patch, 3).unwrap(), patch.len())
}

fn resource() -> (EncodedResource, Vec<u8>) {
    let v0 = b"hello world".to_vec();
    let v1 = b"hello there world".to_vec();
    let v2 = b"goodbye there world!".to_vec();
    let (d1, u1) = delta(&v0, &v1);
    let (d2, u2) = delta(&v1, &v2);
    let mut file = d1.clone();
    file.extend(&d2);
    let header = EncodedResource {
        paths: vec![
            (Timestamp { secs: 5, nanos: 0 }, "/index.html".to_string(), 0),
            (Timestamp { secs: 9, nanos: 7 }, "/main.js".to_string(), 1),
        ],
        basis: v0,
        deltas: vec![
            PatchData {
                offset: 0,
                compressed_patch_length: d1.len() as u32,
                uncompressed_patch_length: u1 as u32,
                original_length: 17,
                hash: "aa".to_string(),
            },
            PatchData {
                offset: d1.len() as u32,
                compressed_patch_length: d2.len() as u32,
                uncompressed_patch_length: u2 as u32,
                original_length: 20,
                hash: "bb".to_string(),
            },
        ],
    };
    (header, file)
}

#[test]
fn get_resource_applies_the_deltas_in_turn() {
    let (header, file) = resource();
    assert_eq!(get_resource(&header, &file, 0).unwrap(), b"hello there world".to_vec());
    assert_eq!(get_resource(&header, &file, 1).unwrap(), b"goodbye there world!".to_vec());
}

#[test]
fn get_resource_errors() {
    let (mut header, file) = resource();
    header.deltas[1].offset = 10_000;
    assert!(matches!(get_resource(&header, &file, 1), Err(VCRError::Malformed)));
    let (header, _) = resource();
    assert!(matches!(get_resource(&header, &[0u8; 4096], 0), Err(VCRError::CompressionError)));
    let (mut header, file) = resource();
    header.basis = Vec::new();
    assert!(matches!(get_resource(&header, &file, 0), Err(VCRError::BinaryPatchError)));
}

#[test]
fn site_updates_point_at_their_delta() {
    let (header, _) = resource();
    let u = expand_site_updates("site", &header, "https://example.org");
    assert_eq!(u.len(), 2);
    assert_eq!(u[0].path, "/index.html");
    assert_eq!(u[0].hash, "aa");
    assert_eq!(u[0].download_url, "https://example.org/site/0");
    assert_eq!(u[1].timestamp, Timestamp { secs: 9, nanos: 7 });
    assert_eq!(u[1].hash, "bb");
    assert_eq!(u[1].download_url, "https://example.org/site/1");
}

#[test]
fn decimal_text_writes_digits() {
    assert_eq!(decimal_text(0), "0");
    assert_eq!(decimal_text(7), "7");
    assert_eq!(decimal_text(12345), "12345");
    assert_eq!(decimal_text(65535), "65535");
}

#[test]
fn entity_hash_is_the_sha224_hex_digest() {
    assert_eq!(entity_hash(b"abc"), "23097d223405d8228642a477bda255b32aadbce4bda0b3f7e36c9da7");
    assert_eq!(entity_hash(b""), "d14a028c2a3a2bc9476102bb288234c415a2b01f828ea62ac5b3e42f");
    assert_eq!(hex_string(&[0x00, 0xff, 0x1a]), "00ff1a");
}

#[test]
fn folder_pairs_headers_with_data_files_in_name_order() {
    let names: Vec<String> = vec!["sim.riv", "sim.header.riv", "game_updates.riv", "game_updates.header.riv", "games.dates.riv.zstd"]
        .into_iter()
        .map(String::from)
        .collect();
    let plan = plan_folder(&names, true);
    assert_eq!(plan.dates, Some("games.dates.riv.zstd".to_string()));
    assert_eq!(plan.headers, vec!["game_updates.header.riv".to_string(), "sim.header.riv".to_string()]);
    assert_eq!(plan.mains, vec!["game_updates.riv".to_string(), "sim.riv".to_string()]);
    assert_eq!(plan.entries.len(), 2);
    assert_eq!(plan.entries[0], (Some("game_updates".to_string()), "game_updates.header.riv".to_string(), "game_updates.riv".to_string()));
    assert_eq!(plan.entries[1], (Some("sim".to_string()), "sim.header.riv".to_string(), "sim.riv".to_string()));
}

#[test]
fn folder_without_dates_and_a_name_without_a_dot() {
    let names: Vec<String> = vec!["b.header.riv", "a.header.riv", "noext", "b.riv", "x.dates.riv.z"]
        .into_iter()
        .map(String::from)
        .collect();
    let plan = plan_folder(&names, false);
    assert_eq!(plan.dates, None);
    assert_eq!(plan.mains, vec!["b.riv".to_string(), "noext".to_string(), "x.dates.riv.z".to_string()]);
    assert_eq!(plan.entries[0].0, Some("b".to_string()));
    assert_eq!(plan.entries[1].0, None);
}

#[test]
fn sort_texts_orders_by_code_point() {
    let v: Vec<String> = vec!["b", "a", "B", "ab", "a"].into_iter().map(String::from).collect();
    let s = sort_texts(&v);
    assert_eq!(s, vec!["B", "a", "a", "ab", "b"].into_iter().map(String::from).collect::<Vec<String>>());
}

#[test]
fn tape_sections_split_the_file() {
    let b = vec![3, 0, 0, 0, 0, 0, 0, 0, 9, 9, 9, 2, 0, 0, 0, 0, 0, 0, 0, 7, 7, 1, 2, 3];
    let t = tape_sections(&b).unwrap();
    assert_eq!(t.dict, Some(vec![9, 9, 9]));
    assert_eq!(t.header, vec![7, 7]);
    assert_eq!(t.data_start, 21);
    let t = tape_sections(&[0u8, 0, 0, 0, 0, 0, 0, 0, 1, 0, 0, 0, 0, 0, 0, 0, 5]).unwrap();
    assert_eq!(t.dict, None);
    assert_eq!(t.header, vec![5]);
    assert_eq!(t.data_start, 17);
    assert!(matches!(tape_sections(&[1, 2, 3]), Err(VCRError::UnexpectedEof)));
    assert!(matches!(tape_sections(&[9, 0, 0, 0, 0, 0, 0, 0, 1]), Err(VCRError::UnexpectedEof)));
}
