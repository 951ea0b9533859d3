use blaseball_vcr::feed::block::{EventBlock, EventRef};
use blaseball_vcr::feed::db::FeedDatabase;
use blaseball_vcr::feed::desc::EventDescription;
use blaseball_vcr::feed::event::FeedEvent;
use blaseball_vcr::feed::index::{index_map, make_index_key, unpack_event_index, Index, IndexType};
use blaseball_vcr::feed::metadata::{decode_simple_event, encode_simple_event, uses_simple_decoding, uses_simple_encoding, SimpleEventMetadata};
use blaseball_vcr::feed::recorder::{chunk_header, record_chunk, sort_headers, FeedDictTrainer};
use blaseball_vcr::feed::EncodedBlockHeader;
use blaseball_vcr::stream_data::{
    clamp, fight_is_on, league_time, next_day, postseason_plan, rounds_numbered_before, select_playoff_rounds, special_game_id,
    uses_special_schedule, working_date, PlayoffRound, PlayoffsShape, PostseasonPlan,
};
use blaseball_vcr::utils::{decode_varint, encode_varint, is_eof};
use blaseball_vcr::uuid_shell::{decode_tag, encode_tag, TagEncoding, UuidTag};
use blaseball_vcr::vhs::db::{all_ids, find_header, locate_entity, locate_in};
use blaseball_vcr::vhs::DataHeader;
use blaseball_vcr::{GameDate, VCRError, VCRResult};

#[test]
fn varint_lengths_round_trip() {
    assert_eq!(encode_varint(7), vec![7]);
    assert_eq!(encode_varint(254), vec![254]);
    assert_eq!(encode_varint(255), vec![255, 0, 255]);
    assert_eq!(encode_varint(0x1234), vec![255, 0x12, 0x34]);
    for v in [0u16, 1, 254, 255, 256, 60000, u16::MAX] {
        let b = encode_varint(v);
        assert_eq!(decode_varint(&b, 0).unwrap(), (v, b.len()));
    }
    assert!(matches!(decode_varint(&[255, 1], 0), Err(VCRError::UnexpectedEof)));
}

#[test]
fn is_eof_tells_end_of_input_apart() {
    let a: VCRResult<u8> = Err(VCRError::UnexpectedEof);
    let b: VCRResult<u8> = Err(VCRError::InvalidData);
    let c: VCRResult<u8> = Ok(1);
    assert!(is_eof(&a));
    assert!(!is_eof(&b));
    assert!(!is_eof(&c));
}

#[test]
fn game_dates_round_trip_through_bytes() {
    let d = GameDate { day: -300, season: 23, tournament: -1 };
    let b = d.to_bytes();
    assert_eq!(b, [0xd4, 0xfe, 23, 0xff]);
    assert_eq!(GameDate::from_bytes(b), d);
}

#[test]
fn uuid_tags_round_trip() {
    assert_eq!(encode_tag(UuidTag::Team(7)), TagEncoding::Byte(7));
    assert_eq!(encode_tag(UuidTag::Player(0x7fff)), TagEncoding::Packed(0xff, 0x7f));
    assert_eq!(encode_tag(UuidTag::Game(0x1234)), TagEncoding::Packed(0x34, 0x92));
    for t in [UuidTag::Team(200), UuidTag::Player(5), UuidTag::Game(0x7abc)] {
        assert_eq!(decode_tag(encode_tag(t)), t);
    }
    assert_eq!(decode_tag(TagEncoding::Packed(0x01, 0x80)), UuidTag::Game(1));
}

/// A magicless zstd frame without a dictionary id, as blocks are stored.
fn zstd_block(data: &[u8]) -> Vec<u8> {
    let mut c = zstd::bulk::Compressor::new(3).unwrap();
    c.set_parameter(zstd::zstd_safe::CParameter::DictIdFlag(false)).unwrap();
    c.set_parameter(zstd::zstd_safe::CParameter::Format(zstd::zstd_safe::FrameFormat::Magicless)).unwrap();
    c.compress(data).unwrap()
}

fn tape_header(data: &[u8]) -> (DataHeader, Vec<u8>) {
    let c = zstd_block(data);
    let h = DataHeader {
        id: [5u8; 16],
        times: vec![10, 20, 30],
        offset: 0,
        compressed_len: c.len() as u32,
        decompressed_len: data.len() as u32,
        checkpoint_every: 2,
        checkpoint_positions: vec![0, 4],
    };
    (h, c)
}

#[test]
fn locate_entity_finds_the_checkpoint() {
    let data: Vec<u8> = (0u8..10).collect();
    let (h, c) = tape_header(&data);
    let l = locate_entity(&h, &c, &None, 25).unwrap().unwrap();
    assert_eq!(l.time, 20);
    assert_eq!(l.bytes, vec![0, 1, 2, 3]);
    assert_eq!(l.patches, Some(0));
    let l = locate_entity(&h, &c, &None, 35).unwrap().unwrap();
    assert_eq!(l.time, 30);
    assert_eq!(l.bytes, vec![4, 5, 6, 7, 8, 9]);
    assert_eq!(l.patches, None);
    assert!(locate_entity(&h, &c, &None, 5).unwrap().is_none());
}

#[test]
fn locate_in_reads_the_decompressed_data() {
    let data: Vec<u8> = (0u8..10).collect();
    let (mut h, _) = tape_header(&data);
    let l = locate_in(&h, &data, 1).unwrap().unwrap();
    assert_eq!((l.time, l.bytes, l.patches), (20, vec![0, 1, 2, 3], Some(0)));
    let l = locate_in(&h, &data, 2).unwrap().unwrap();
    assert_eq!((l.time, l.bytes, l.patches), (30, vec![4, 5, 6, 7, 8, 9], None));
    // a checkpoint that starts past the end of the data
    assert!(matches!(locate_in(&h, &data[..3], 2), Err(VCRError::Malformed)));
    // no such checkpoint: read from the start
    h.checkpoint_positions = vec![];
    assert_eq!(locate_in(&h, &data, 2).unwrap().unwrap().bytes, data);
    h.checkpoint_every = 0;
    assert!(matches!(locate_in(&h, &data, 0), Err(VCRError::Malformed)));
}

#[test]
fn locate_entity_errors() {
    let data: Vec<u8> = (0u8..10).collect();
    let (mut h, c) = tape_header(&data);
    assert!(matches!(locate_entity(&h, &c[..2], &None, 25), Err(VCRError::Malformed)));
    assert!(matches!(locate_entity(&h, &vec![0u8; c.len()], &None, 25), Err(VCRError::CompressionError)));
    h.checkpoint_every = 0;
    assert!(matches!(locate_entity(&h, &c, &None, 25), Err(VCRError::Malformed)));
    h.times = vec![];
    assert!(matches!(locate_entity(&h, &c, &None, 25), Err(VCRError::Malformed)));
}

#[test]
fn headers_are_found_by_id() {
    let data: Vec<u8> = (0u8..10).collect();
    let (a, _) = tape_header(&data);
    let (mut b, _) = tape_header(&data);
    b.id = [6u8; 16];
    let (mut c, _) = tape_header(&data);
    c.times = vec![1];
    let hs = vec![a, b, c];
    assert_eq!(find_header(&hs, &[5u8; 16]), Some(2));
    assert_eq!(find_header(&hs, &[6u8; 16]), Some(1));
    assert_eq!(find_header(&hs, &[7u8; 16]), None);
    assert_eq!(all_ids(&hs), vec![[5u8; 16], [6u8; 16]]);
}

#[test]
fn working_date_follows_the_sim() {
    assert_eq!(working_date(10, 50, None), GameDate { day: 50, season: 10, tournament: -1 });
    assert_eq!(working_date(20, 3, Some(1)), GameDate { day: 3, season: -1, tournament: 1 });
    assert_eq!(working_date(20, 3, None), GameDate { day: 3, season: 20, tournament: -1 });
    let d = GameDate { day: 4, season: 22, tournament: -1 };
    assert!(uses_special_schedule(14, &d));
    assert!(!uses_special_schedule(13, &d));
    assert_eq!(next_day(&d), GameDate { day: 5, season: 22, tournament: -1 });
    assert_eq!(special_game_id(), [0xd1, 0x62, 0xb2, 0x3a, 0x98, 0x32, 0x4e, 0x78, 0x8d, 0x78, 0x5d, 0x13, 0x13, 0x93, 0xfd, 0x61]);
}

#[test]
fn stream_clamps_and_fights() {
    assert_eq!(clamp(5, 10, 3), 3);
    assert_eq!(clamp(5, 10, 20), 10);
    assert_eq!(league_time(7), 1599169238);
    assert_eq!(league_time(1600000000), 1600000000);
    assert!(!fight_is_on("0", "5"));
    assert!(!fight_is_on("5", "0"));
    assert!(fight_is_on("10", "00"));
}

#[test]
fn postseason_plan_prefers_the_tournament() {
    assert_eq!(postseason_plan(true, PlayoffsShape::Many, Some(2), Some(3)), PostseasonPlan::Tournament { round: Some(2) });
    assert_eq!(postseason_plan(false, PlayoffsShape::One, Some(2), Some(3)), PostseasonPlan::One { round: Some(3) });
    assert_eq!(postseason_plan(false, PlayoffsShape::Many, None, None), PostseasonPlan::Each { round: None });
}

#[test]
fn playoff_rounds_are_selected_by_number() {
    let rounds = vec![
        PlayoffRound { round_number: Some(1), matchups: vec![[1u8; 16], [2u8; 16]] },
        PlayoffRound { round_number: Some(2), matchups: vec![[3u8; 16]] },
        PlayoffRound { round_number: Some(2), matchups: vec![[4u8; 16]] },
    ];
    let s = select_playoff_rounds(&rounds, None, Some(2), Some(1));
    assert_eq!(s.current, Some(1));
    assert_eq!(s.tomorrow, Some(0));
    assert_eq!(s.main_matchups, vec![[3u8; 16]]);
    assert_eq!(s.tomorrow_matchups, vec![[1u8; 16], [2u8; 16]]);
    assert_eq!(s.all_matchups, vec![[1u8; 16], [2u8; 16], [3u8; 16], [4u8; 16]]);
    let s = select_playoff_rounds(&rounds, Some(9), Some(2), None);
    assert_eq!(s.current, None);
    assert_eq!(s.tomorrow, None);
    assert!(s.main_matchups.is_empty());
}

#[test]
fn rounds_without_a_number() {
    let rounds = vec![
        PlayoffRound { round_number: Some(1), matchups: vec![[1u8; 16]] },
        PlayoffRound { round_number: None, matchups: vec![[2u8; 16]] },
        PlayoffRound { round_number: Some(3), matchups: vec![[3u8; 16]] },
    ];
    assert!(rounds_numbered_before(&rounds, 1));
    assert!(!rounds_numbered_before(&rounds, 3));
    let s = select_playoff_rounds(&rounds, Some(1), None, None);
    assert_eq!(s.current, Some(0));
    // a missing tomorrow round matches the round without a number
    assert_eq!(s.tomorrow, Some(1));
    assert_eq!(s.tomorrow_matchups, vec![[2u8; 16]]);
}

fn block() -> EventBlock {
    EventBlock { event_positions: vec![(100, 0), (200, 10), (300, 25)], bytes: vec![0; 40] }
}

#[test]
fn event_block_lookups() {
    let b = block();
    assert_eq!(b.event_at_time(200), Some(EventRef { timestamp: 200, position: 10 }));
    assert_eq!(b.event_at_time(250), None);
    assert_eq!(b.event_at_index(2), Some(EventRef { timestamp: 300, position: 25 }));
    assert_eq!(b.event_at_index(3), None);
    assert_eq!(b.all_events().len(), 3);
    assert_eq!(b.events_at_time_range(150..300).unwrap(), vec![EventRef { timestamp: 100, position: 0 }, EventRef { timestamp: 200, position: 10 }]);
    assert!(b.events_at_time_range(300..100).is_none());
    assert!(b.events_at_range(2..5).is_none());
}

#[test]
fn feed_blocks_are_found_by_time() {
    let raw1: Vec<u8> = vec![1, 2, 3, 4];
    let raw2: Vec<u8> = vec![9; 30];
    let c1 = zstd_block(&raw1);
    let c2 = zstd_block(&raw2);
    let mut inner = c1.clone();
    inner.extend(&c2);
    let headers = vec![
        EncodedBlockHeader { compressed_len: c1.len() as u32, decompressed_len: 4, start_time: 100, event_positions: vec![(100, 0)] },
        EncodedBlockHeader { compressed_len: c2.len() as u32, decompressed_len: 30, start_time: 500, event_positions: vec![(500, 0), (600, 7)] },
    ];
    let db = FeedDatabase::from_parts(inner, None, headers);
    let b = db.get_block_by_time(550).unwrap();
    assert_eq!(b.bytes, raw2);
    assert_eq!(b.event_positions, vec![(500, 0), (600, 7)]);
    let b = db.get_block_by_time(50).unwrap();
    assert_eq!(b.bytes, raw1);
    let empty = FeedDatabase::from_parts(Vec::new(), None, Vec::new());
    assert!(matches!(empty.get_block_by_time(1), Err(VCRError::Malformed)));
}

#[test]
fn recorded_chunks_decompress_to_their_bytes() {
    let bytes: Vec<u8> = (0u8..50).collect();
    let (h, c) = record_chunk(&None, 3, 7, vec![(9, 1), (8, 0)], &bytes).unwrap();
    assert_eq!(h.start_time, 7);
    assert_eq!(h.decompressed_len, 50);
    assert_eq!(h.compressed_len as usize, c.len());
    assert_eq!(h.event_positions, vec![(8, 0), (9, 1)]);
    let db = FeedDatabase::from_parts(c, None, vec![h]);
    assert_eq!(db.get_block_by_time(7).unwrap().bytes, bytes);
}

#[test]
fn dictionary_trainer_collects_samples() {
    let mut t = FeedDictTrainer::new();
    t.add_chunk(&[]);
    for i in 0..200u32 {
        let s = format!("{{\"event\":{},\"text\":\"the quick brown fox jumps over the lazy dog {}\"}}", i, i % 7);
        t.add_chunk(s.as_bytes());
    }
    let d = t.train(4096).unwrap();
    assert!(!d.is_empty());
    assert!(d.len() <= 4096);
}

#[test]
fn index_keys_and_event_indices() {
    assert_eq!(make_index_key(&[1, 2], 0x01020304), vec![1, 2, 1, 2, 3, 4]);
    assert_eq!(unpack_event_index(0x0012_0034), (0x12, 0x34));
    assert_eq!(unpack_event_index(0xffff_ffff_0001_0002), (1, 2));
}

#[test]
fn event_descriptions_by_type() {
    assert!(matches!(EventDescription::from_type(1), EventDescription::Constant("Play ball!")));
    assert!(matches!(EventDescription::from_type(21), EventDescription::Suffix("apply Home Field advantage!")));
    assert!(matches!(EventDescription::from_type(73), EventDescription::ConstantVariant(v) if v.len() == 5));
    assert!(matches!(EventDescription::from_type(4), EventDescription::Variable));
}

#[test]
fn event_ids_pack_season_phase_time_and_uuid() {
    let mut id = [0u8; 16];
    id[0] = 0xab;
    id[1] = 0xcd;
    let ev = FeedEvent {
        id,
        category: 2,
        created_millis: 1_600_000_000_123,
        day: 3,
        description: String::new(),
        nuts: 0,
        phase: 2,
        player_tags: None,
        game_tags: None,
        team_tags: None,
        etype: 4,
        tournament: -1,
        season: 12,
        metadata: Vec::new(),
    };
    assert_eq!(ev.generate_id(None), vec![12, 2, 0x5f, 0x5e, 0x10, 0x00, 0xab, 0xcd]);
    assert_eq!(ev.generate_id(Some(1_600_000_000)), vec![12, 2, 0, 0, 0, 123, 0xab, 0xcd]);
}

#[test]
fn simple_event_metadata_round_trips() {
    let m = SimpleEventMetadata { play: 300, sub_play: -1, children: Some(vec![[1u8; 16], [2u8; 16]]) };
    let b = encode_simple_event(&m);
    assert_eq!(b.len(), 35);
    assert_eq!(&b[..3], &[1, 44, 0xff]);
    let d = decode_simple_event(&b).unwrap();
    assert_eq!((d.play, d.sub_play), (300, -1));
    assert_eq!(d.children, Some(vec![[1u8; 16], [2u8; 16]]));
    let one = SimpleEventMetadata { play: 1, sub_play: 0, children: Some(vec![[1u8; 16]]) };
    assert_eq!(decode_simple_event(&encode_simple_event(&one)).unwrap().children, None);
    assert!(matches!(decode_simple_event(&[1, 2]), Err(VCRError::UnexpectedEof)));
    assert!(uses_simple_encoding(1) && !uses_simple_encoding(249) && uses_simple_decoding(249));
}

#[test]
fn positions_and_headers_sort_stably() {
    let h = chunk_header(5, vec![(9, 1), (8, 7), (8, 2)], 10, 20);
    assert_eq!(h.event_positions, vec![(8, 7), (8, 2), (9, 1)]);
    assert_eq!((h.start_time, h.compressed_len, h.decompressed_len), (5, 10, 20));
    let mk = |t: u64, c: u32| EncodedBlockHeader { compressed_len: c, decompressed_len: 0, start_time: t, event_positions: vec![] };
    let mut hs = vec![mk(30, 1), mk(10, 2), mk(30, 3), mk(10, 4)];
    sort_headers(&mut hs);
    assert_eq!(hs.iter().map(|h| (h.start_time, h.compressed_len)).collect::<Vec<_>>(), vec![(10, 2), (10, 4), (30, 1), (30, 3)]);
}

#[test]
fn tag_index_ranges_by_time() {
    let keys: Vec<(Vec<u8>, u64)> = vec![
        (make_index_key(&[1, 2], 5), 50),
        (make_index_key(&[1, 2], 10), 100),
        (make_index_key(&[1, 2], 20), 200),
        (make_index_key(&[1, 3], 7), 70),
    ];
    let mut idx = Index::new();
    assert!(idx.get_by_tag_and_time(IndexType::GameTags, &[1, 2], 0, 100).is_none());
    idx.add_entries(IndexType::GameTags, keys).unwrap();
    let got = idx.get_by_tag_and_time(IndexType::GameTags, &[1, 2], 6, 20).unwrap();
    assert_eq!(got, vec![(make_index_key(&[1, 2], 10), 100), (make_index_key(&[1, 2], 20), 200)]);
    assert!(idx.get_by_tag_and_time(IndexType::PlayerTags, &[1, 2], 0, 100).is_none());
}

#[test]
fn index_keys_of_one_tag_order_by_time() {
    assert_eq!(make_index_key(&[7], 258), vec![7, 0, 0, 1, 2]);
    let times = [0u32, 1, 255, 256, 65_535, 65_536, 1 << 24, u32::MAX];
    for &a in &times {
        for &b in &times {
            assert_eq!(make_index_key(&[3, 4], a) <= make_index_key(&[3, 4], b), a <= b);
            assert_eq!(make_index_key(&[3, 4], a) == make_index_key(&[3, 4], b), a == b);
        }
    }
}

#[test]
fn blocks_longer_than_their_stored_length_are_rejected() {
    let raw: Vec<u8> = vec![5; 40];
    let c = zstd_block(&raw);
    let h = EncodedBlockHeader { compressed_len: c.len() as u32, decompressed_len: 39, start_time: 0, event_positions: vec![] };
    let db = FeedDatabase::from_parts(c.clone(), None, vec![h]);
    assert!(matches!(db.get_block_by_time(0), Err(VCRError::CompressionError)));
    let h = EncodedBlockHeader { compressed_len: c.len() as u32, decompressed_len: 100, start_time: 0, event_positions: vec![] };
    let db = FeedDatabase::from_parts(c, None, vec![h]);
    assert_eq!(db.get_block_by_time(0).unwrap().bytes, raw);
}

#[test]
fn index_maps_need_increasing_keys() {
    let keys = vec![(make_index_key(&[1], 9), 1u64), (make_index_key(&[1], 3), 2u64)];
    assert!(matches!(index_map(keys), Err(VCRError::InvalidData)));
    let dup = vec![(vec![1u8], 1u64), (vec![1u8], 2u64)];
    assert!(matches!(index_map(dup.clone()), Err(VCRError::InvalidData)));
    let mut idx = Index::new();
    assert!(matches!(idx.add_entries(IndexType::TeamTags, dup), Err(VCRError::InvalidData)));
    assert!(idx.get_by_tag_and_time(IndexType::TeamTags, &[1], 0, 9).is_none());
}
