use blaseball_vcr::json_sequences::db::{
    clamp, decode_patch, entity_patches, last_version_bytes, next_time, postseason_key, read_plan,
    reads_tournament, select_patches, sort_patches, stream_date, stream_next_day, stream_postseason,
    stream_special_schedule, structure_times, uses_legacy_ids, version_spans, Patch, PatchOp,
    PlayoffsField, StreamPostseason,
};
use blaseball_vcr::json_sequences::header::{decode_header, parse_header, HeaderEncoder};
use blaseball_vcr::json_sequences::{default_base, default_checkpoint, BaseValue, EntityData};
use blaseball_vcr::VCRError;
use std::collections::HashMap;

fn paths() -> Vec<(u16, String)> {
    vec![(1u16, "/a".to_string()), (300u16, "/b/c".to_string())]
}

fn path_map() -> HashMap<u16, String> {
    let mut m = HashMap::new();
    m.insert(1u16, "/a".to_string());
    m.insert(2u16, "/b".to_string());
    m
}

#[test]
fn header_encoder_writes_the_documented_layout() {
    let mut enc = HeaderEncoder::new(BaseValue::Array, 5, &paths(), 100, Vec::new());
    enc.write_patch(10, 0);
    enc.write_patch(20, 40);
    let bytes = enc.release();
    assert_eq!(
        bytes,
        vec![100, 5, 11, 2, 47, 97, 1, 4, 47, 98, 47, 99, 172, 2, 4, 0, 0, 0, 10, 0, 0, 0, 0, 20, 40]
    );
}

#[test]
fn header_reads_back_what_was_written() {
    let mut enc = HeaderEncoder::new(BaseValue::Array, 5, &paths(), 100, Vec::new());
    enc.write_patch(10, 0);
    enc.write_patch(20, 40);
    let bytes = enc.release();
    let d = parse_header(&bytes, 200).unwrap();
    assert_eq!(d.patches, vec![(10, 100, 40), (20, 140, 60)]);
    assert_eq!(d.checkpoint_every, 5);
    assert_eq!(d.base, BaseValue::Array);
    assert_eq!(d.path_map.len(), 2);
    assert_eq!(d.path_map.get(&1).unwrap(), "/a");
    assert_eq!(d.path_map.get(&300).unwrap(), "/b/c");
}

#[test]
fn header_with_unknown_base_kind_is_rejected() {
    let enc = HeaderEncoder::new(BaseValue::Null, 1, &Vec::new(), 0, Vec::new());
    let mut bytes = enc.release();
    assert_eq!(bytes, vec![0, 1, 0, 0]);
    bytes[3] = 9;
    assert!(matches!(parse_header(&bytes, 0), Err(VCRError::InvalidPatchData)));
}

#[test]
fn header_with_invalid_path_text_is_rejected() {
    let bytes = vec![0u8, 1, 3, 1, 0xff, 1, 5];
    assert!(matches!(parse_header(&bytes, 0), Err(VCRError::Utf8Error)));
}

#[test]
fn decode_header_names_each_entity_by_its_uuid() {
    let mut enc = HeaderEncoder::new(BaseValue::Object, 7, &Vec::new(), 3, Vec::new());
    enc.write_patch(42, 2);
    let h = enc.release();
    let mut file = vec![h.len() as u8, 9];
    file.extend((0u8..16).collect::<Vec<u8>>());
    file.extend(h);
    let all = decode_header(&file).unwrap();
    assert_eq!(all.len(), 1);
    assert_eq!(all[0].0, "00010203-0405-0607-0809-0a0b0c0d0e0f");
    assert_eq!(all[0].1.patches, vec![(42, 5, 4)]);
    assert_eq!(all[0].1.checkpoint_every, 7);
}

#[test]
fn decode_header_of_a_cut_file_fails() {
    assert!(matches!(decode_header(&[5, 9, 1, 2]), Err(VCRError::UnexpectedEof)));
    assert_eq!(decode_header(&[]).unwrap().len(), 0);
}

#[test]
fn defaults() {
    assert_eq!(default_checkpoint(), u16::MAX);
    assert_eq!(default_base(), BaseValue::Object);
}

#[test]
fn clamp_keeps_inputs_within_bounds() {
    assert_eq!(clamp(5, 10, 20), 10);
    assert_eq!(clamp(25, 10, 20), 20);
    assert_eq!(clamp(15, 10, 20), 15);
    assert_eq!(clamp(5, 10, 3), 10);
}

#[test]
fn select_patches_skips_to_the_checkpoint() {
    let p = vec![(10, 0, 1), (20, 1, 1), (30, 2, 1), (40, 3, 1), (50, 4, 1)];
    assert_eq!(select_patches(&p, 2, 35, true, 0), vec![(30, 2, 1)]);
    assert_eq!(select_patches(&p, 2, 45, true, 0), vec![(30, 2, 1), (40, 3, 1)]);
    assert_eq!(select_patches(&p, 2, 5, true, 0), vec![]);
    assert_eq!(select_patches(&p, 2, 25, false, 1), vec![(20, 1, 1)]);
    assert_eq!(select_patches(&p, 2, 100, false, 9), vec![]);
    assert_eq!(select_patches(&p, 2, 100, false, 0).len(), 4);
}

#[test]
fn decode_patch_reads_each_operation() {
    let m = path_map();
    match decode_patch(&[0, 0, 1, 0, 1, 0xc3], &m).unwrap() {
        Patch::Normal(ops) => {
            assert_eq!(ops.len(), 1);
            match &ops[0] {
                PatchOp::Add { path, value } => {
                    assert_eq!(path, "/a");
                    assert_eq!(value, &vec![0xc3]);
                }
                _ => panic!("expected an add"),
            }
        }
        _ => panic!("expected operations"),
    }
    match decode_patch(&[3, 0, 1, 0, 2, 0, 0, 1, 0, 2, 0, 0], &m).unwrap() {
        Patch::Normal(ops) => {
            assert_eq!(ops.len(), 2);
            match &ops[0] {
                PatchOp::Move { path, from } => {
                    assert_eq!(path, "/a");
                    assert_eq!(from, "/b");
                }
                _ => panic!("expected a move"),
            }
            assert!(matches!(&ops[1], PatchOp::Remove { path } if path == "/b"));
        }
        _ => panic!("expected operations"),
    }
}

#[test]
fn decode_patch_replace_root_ends_the_patch() {
    let m = path_map();
    match decode_patch(&[1, 0, 1, 0, 0, 6, 0, 2, 0x91, 0x01, 0, 0, 1], &m).unwrap() {
        Patch::ReplaceRoot(v) => assert_eq!(v, vec![0x91, 0x01]),
        _ => panic!("expected a new root"),
    }
}

#[test]
fn decode_patch_errors() {
    let m = path_map();
    assert!(matches!(decode_patch(&[1, 0, 9, 0, 0], &m), Err(VCRError::PathResolutionError)));
    assert!(matches!(decode_patch(&[7, 0, 1, 0, 0], &m), Err(VCRError::InvalidOpCode)));
    assert!(matches!(decode_patch(&[0, 0, 1, 0, 0], &m), Err(VCRError::InvalidPatchData)));
    assert!(matches!(decode_patch(&[0, 0], &m), Err(VCRError::Malformed)));
    assert!(matches!(decode_patch(&[6, 0, 5, 1], &m), Err(VCRError::Malformed)));
    match decode_patch(&[5], &m).unwrap() {
        Patch::Normal(ops) => assert!(ops.is_empty()),
        _ => panic!("expected no operations"),
    }
}

fn frame(b: &[u8]) -> Vec<u8> {
    zstd::stream::encode_all(b, 3).unwrap()
}

#[test]
fn entity_patches_reads_and_orders_patches() {
    let p1 = frame(&[1, 0, 1, 0, 0]);
    let p2 = frame(&[1, 0, 2, 0, 0]);
    let last = frame(&[0xc0]);
    let mut reader = Vec::new();
    let s1 = reader.len() as u32;
    reader.extend(&p1);
    let s2 = reader.len() as u32;
    reader.extend(&p2);
    let s3 = reader.len() as u32;
    reader.extend(&last);
    let data = EntityData {
        patches: vec![(20, s1, p1.len() as u32), (10, s2, p2.len() as u32), (30, s3, last.len() as u32)],
        path_map: path_map(),
        checkpoint_every: u16::MAX,
        base: BaseValue::Object,
    };
    let ps = entity_patches(&data, &reader, None, u32::MAX, false, 0).unwrap();
    assert_eq!(ps.len(), 2);
    assert_eq!(ps[0].0, 10);
    assert_eq!(ps[1].0, 20);
    assert!(matches!(&ps[0].1, Patch::Normal(ops) if matches!(&ops[0], PatchOp::Remove { path } if path == "/b")));
    let (t, b) = last_version_bytes(&data, &reader, None).unwrap();
    assert_eq!(t, 30);
    assert_eq!(b, vec![0xc0]);
}

#[test]
fn entity_patches_errors() {
    let data = EntityData { patches: vec![], path_map: path_map(), checkpoint_every: 2, base: BaseValue::Null };
    assert!(matches!(entity_patches(&data, &[], None, 0, false, 0), Err(VCRError::Malformed)));
    assert!(matches!(last_version_bytes(&data, &[], None), Err(VCRError::InvalidPatchData)));
    let data = EntityData { patches: vec![(1, 0, 5), (2, 5, 1)], path_map: path_map(), checkpoint_every: 0, base: BaseValue::Null };
    assert!(matches!(entity_patches(&data, &[0; 6], None, 9, true, 0), Err(VCRError::Malformed)));
    assert!(matches!(entity_patches(&data, &[0; 6], None, 9, false, 0), Err(VCRError::CompressionError)));
    assert!(matches!(entity_patches(&data, &[0; 3], None, 9, false, 0), Err(VCRError::Malformed)));
}

#[test]
fn sort_patches_is_stable() {
    let v = vec![
        (5, Patch::ReplaceRoot(vec![1])),
        (3, Patch::ReplaceRoot(vec![2])),
        (5, Patch::ReplaceRoot(vec![3])),
    ];
    let s = sort_patches(v);
    let order: Vec<u8> = s.iter().map(|(_, p)| match p { Patch::ReplaceRoot(v) => v[0], _ => 0 }).collect();
    assert_eq!(order, vec![2, 1, 3]);
}

#[test]
fn version_spans_run_to_the_next_patch() {
    let v = vec![(5, Patch::Normal(vec![])), (10, Patch::Normal(vec![])), (15, Patch::Normal(vec![]))];
    assert_eq!(version_spans(&v, 7), vec![(1, 10, Some(15)), (2, 15, None)]);
    assert_eq!(version_spans(&v, 0), vec![(0, 5, Some(10)), (1, 10, Some(15)), (2, 15, None)]);
    assert_eq!(version_spans(&v, 20), vec![]);
}

#[test]
fn next_time_finds_the_first_patch_at_or_after() {
    let p = vec![(10, 0, 0), (20, 0, 0)];
    assert_eq!(next_time(&p, 15), Some(20));
    assert_eq!(next_time(&p, 10), Some(10));
    assert_eq!(next_time(&p, 25), None);
}

#[test]
fn read_plan_picks_the_patch_in_force() {
    let p = vec![(10, 0, 0), (20, 0, 0), (30, 0, 0)];
    let r = read_plan(&p, 4, 25);
    assert_eq!(r.patch_idx, 1);
    assert!(r.check_cache && !r.last_version && r.check_previous);
    let r = read_plan(&p, u16::MAX, 35);
    assert_eq!(r.patch_idx, 2);
    assert!(r.check_cache && r.last_version && !r.check_previous);
    let r = read_plan(&p, 4, 5);
    assert_eq!(r.patch_idx, 0);
    assert!(!r.check_cache && !r.last_version && !r.check_previous);
}

#[test]
fn stream_date_and_schedule() {
    let d = stream_date(10, 50, None);
    assert_eq!((d.season, d.day, d.tournament), (10, 50, Some(-1)));
    let d = stream_date(22, 5, Some(2));
    assert_eq!((d.season, d.day, d.tournament), (-1, 5, Some(2)));
    assert!(reads_tournament(&d));
    let d = stream_date(22, 5, None);
    assert_eq!((d.season, d.day, d.tournament), (22, 5, None));
    assert!(!reads_tournament(&d));
    assert!(stream_special_schedule(Some(14), &d));
    assert!(!stream_special_schedule(None, &d));
    let n = stream_next_day(&d);
    assert_eq!((n.season, n.day, n.tournament), (22, 6, None));
}

#[test]
fn stream_structure_times_and_postseason() {
    assert_eq!(structure_times(5), (1599169238, 1599760290));
    assert_eq!(structure_times(1599500000), (1599500000, 1599760290));
    assert!(uses_legacy_ids(1598224979));
    assert!(!uses_legacy_ids(1598224980));
    assert_eq!(stream_postseason(true, PlayoffsField::Array), StreamPostseason::Tournament);
    assert_eq!(stream_postseason(false, PlayoffsField::Array), StreamPostseason::Each);
    assert_eq!(stream_postseason(false, PlayoffsField::Text), StreamPostseason::One);
    assert_eq!(stream_postseason(false, PlayoffsField::Other), StreamPostseason::Empty);
    assert_eq!(postseason_key(StreamPostseason::Each), "postseasons");
    assert_eq!(postseason_key(StreamPostseason::One), "postseason");
}

#[test]
fn framed_headers_read_back_one_after_another() {
    let mut file = Vec::new();
    for (k, start) in [(1u8, 10u32), (2u8, 500u32)] {
        let mut enc = HeaderEncoder::new(BaseValue::Array, 5, &paths(), start, Vec::new());
        enc.write_patch(100 + k as u32, 0);
        enc.write_patch(200 + k as u32, 300);
        let h = enc.release();
        assert!(h.len() < 128);
        file.push(h.len() as u8);
        // the end position 1000 as a LEB128 varint
        file.extend([0xe8, 0x07]);
        file.extend([k; 16]);
        file.extend(h);
    }
    let all = decode_header(&file).unwrap();
    assert_eq!(all.len(), 2);
    assert_eq!(all[0].0, "01010101-0101-0101-0101-010101010101");
    assert_eq!(all[0].1.patches, vec![(101, 10, 300), (201, 310, 690)]);
    assert_eq!(all[1].0, "02020202-0202-0202-0202-020202020202");
    assert_eq!(all[1].1.patches, vec![(102, 500, 300), (202, 800, 200)]);
    assert_eq!(all[1].1.path_map.get(&300).unwrap(), "/b/c");
    assert_eq!(all[1].1.path_map.len(), 2);
    assert_eq!(all[1].1.checkpoint_every, 5);
}

#[test]
fn values_that_are_not_messagepack_are_rejected_first() {
    let m = path_map();
    // 0xc1 is never used by MessagePack: the value fails before the unknown op code is seen
    assert!(matches!(decode_patch(&[7, 0, 1, 0, 1, 0xc1], &m), Err(VCRError::MsgPackDecError)));
    assert!(matches!(decode_patch(&[7, 0, 1, 0, 1, 0xc3], &m), Err(VCRError::InvalidOpCode)));
    // a new root with no bytes holds no value
    assert!(matches!(decode_patch(&[6, 0, 0, 9], &m), Err(VCRError::MsgPackDecError)));
}
