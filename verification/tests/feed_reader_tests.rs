use blaseball_vcr::feed::decode::{make_offset_table, IndexSection};
use blaseball_vcr::feed::reader::{
    events_after, events_before, events_backward, events_for_tag, events_forward, events_in_phase, index_entries, read_event, read_feed_indexes, read_offset_table,
    same_event, tag_number, TagTables,
};
use blaseball_vcr::feed::event::FeedEvent;
use blaseball_vcr::VCRError;

fn stored(category: u8, day: u8) -> Vec<u8> {
    // category, type 1 ("Play ball!"), day, season 11, phase 2, no tags, an empty map
    vec![category, 0, 1, 0, day, 11, 2, 0, 0, 0, 0x80]
}

/// Compressed events laid end to end, with the position table of (time, (offset, length)).
fn feed(events: &[(u32, Vec<u8>)]) -> (Vec<u8>, Vec<(u32, (u32, u16))>) {
    let mut data = Vec::new();
    let mut table = Vec::new();
    for (time, ev) in events {
        let c = zstd::stream::encode_all(&ev[..], 3).unwrap();
        table.push((*time, (data.len() as u32, c.len() as u16)));
        data.extend_from_slice(&c);
    }
    (data, table)
}

fn no_tags() -> TagTables {
    TagTables { player_tags: vec![], team_tags: vec![], game_tags: vec![] }
}

fn days(v: &[FeedEvent]) -> Vec<i16> {
    v.iter().map(|e| e.day).collect()
}

#[test]
fn read_event_decodes_a_stored_event() {
    let (data, table) = feed(&[(10, stored(1, 4)), (20, stored(2, 5))]);
    let (_, (o, l)) = table[1];
    let e = read_event(&data, &[], o, l, 20_000, &no_tags()).unwrap();
    assert_eq!(e.category, 2);
    assert_eq!(e.etype, 1);
    assert_eq!(e.day, 5);
    assert_eq!(e.season, 11);
    assert_eq!(e.phase, 2);
    assert_eq!(e.description, "Play ball!");
    assert_eq!(e.metadata, vec![0x80]);
    assert_eq!((e.created_millis, e.nuts, e.tournament, e.id), (20_000, 0, -1, [0u8; 16]));
    assert_eq!((e.player_tags.clone(), e.team_tags.clone(), e.game_tags.clone()), (Some(vec![]), Some(vec![]), Some(vec![])));
    // a length of 0 reads to the end of the data
    let last = read_event(&data, &[], o, 0, 20_000, &no_tags()).unwrap();
    assert!(same_event(&e, &last));
    assert!(!same_event(&e, &read_event(&data, &[], table[0].1 .0, table[0].1 .1, 20_000, &no_tags()).unwrap()));
    assert!(matches!(read_event(&data, &[], data.len() as u32, 1, 0, &no_tags()), Err(VCRError::UnexpectedEof)));
    assert!(matches!(read_event(&[1, 2, 3, 4], &[], 0, 4, 0, &no_tags()), Err(VCRError::CompressionError)));
}

#[test]
fn events_after_walk_forward_by_category() {
    let (data, table) = feed(&[(10, stored(1, 1)), (20, stored(2, 2)), (30, stored(1, 3)), (40, stored(1, 4))]);
    assert_eq!(days(&events_after(&table, &data, &[], &no_tags(), 15, 10, -3).unwrap()), vec![2, 3, 4]);
    assert_eq!(days(&events_after(&table, &data, &[], &no_tags(), 20, 2, 1).unwrap()), vec![3, 4]);
    assert_eq!(days(&events_after(&table, &data, &[], &no_tags(), -5, 1, -3).unwrap()), vec![1]);
    assert!(events_after(&table, &data, &[], &no_tags(), 50, 3, -3).unwrap().is_empty());
    assert_eq!(days(&events_forward(&table, &data, &[], &no_tags(), 0, 0, -3).unwrap()), Vec::<i16>::new());
}

#[test]
fn events_before_walk_backward_and_skip_the_first_entry() {
    let (data, table) = feed(&[(10, stored(1, 1)), (20, stored(2, 2)), (30, stored(1, 3)), (40, stored(1, 4))]);
    assert_eq!(days(&events_before(&table, &data, &[], &no_tags(), 30, 10, -3).unwrap()), vec![3, 2]);
    assert_eq!(days(&events_before(&table, &data, &[], &no_tags(), 40, 2, 1).unwrap()), vec![4, 3]);
    assert_eq!(days(&events_backward(&table, &data, &[], &no_tags(), 3, 1, 2).unwrap()), vec![2]);
    assert!(events_before(&table, &data, &[], &no_tags(), 10, 5, -3).unwrap().is_empty());
}

#[test]
fn a_broken_event_stops_the_walk() {
    let (mut data, table) = feed(&[(10, stored(1, 1)), (20, stored(2, 2))]);
    let (_, (o, _)) = table[1];
    data[o as usize] ^= 0xff;
    assert!(matches!(events_after(&table, &data, &[], &no_tags(), 0, 5, -3), Err(VCRError::CompressionError)));
    // one event is enough before the broken one is reached
    assert_eq!(days(&events_after(&table, &data, &[], &no_tags(), 0, 1, -3).unwrap()), vec![1]);
}

#[test]
fn tag_events_come_newest_first_without_repeats() {
    let (data, table) = feed(&[(10, stored(1, 1)), (20, stored(2, 2)), (30, stored(1, 3))]);
    let entry = |i: usize| (table[i].0 as i64, table[i].1 .0, table[i].1 .1);
    let entries = vec![entry(2), entry(0), entry(1), entry(0)];
    let got = events_for_tag(&entries, &data, &[], &no_tags(), 25, 10, -3).unwrap();
    assert_eq!(got.iter().map(|e| (e.created_millis, e.day)).collect::<Vec<_>>(), vec![(20_000, 2), (10_000, 1)]);
    let got = events_for_tag(&entries, &data, &[], &no_tags(), 100, 10, 1).unwrap();
    assert_eq!(got.iter().map(|e| (e.created_millis, e.day)).collect::<Vec<_>>(), vec![(30_000, 3), (10_000, 1)]);
    let got = events_for_tag(&entries, &data, &[], &no_tags(), 100, 2, -3).unwrap();
    assert_eq!(got.iter().map(|e| (e.created_millis, e.day)).collect::<Vec<_>>(), vec![(30_000, 3), (10_000, 1)]);
}

#[test]
fn phase_events_are_the_first_entries() {
    let (data, table) = feed(&[(10, stored(1, 1)), (20, stored(2, 2)), (30, stored(1, 3))]);
    let entries: Vec<(i64, u32, u16)> = table.iter().map(|(t, (o, l))| (*t as i64 * 1000, *o, *l)).collect();
    let got = events_in_phase(&entries, &data, &[], &no_tags(), 2).unwrap();
    assert_eq!(got.iter().map(|e| (e.created_millis, e.day)).collect::<Vec<_>>(), vec![(10000, 1), (20000, 2)]);
}

#[test]
fn offset_table_is_read_from_deltas() {
    let raw = vec![0, 5, 0, 0, 0, 20, 0, 3, 0, 0, 0, 10, 9];
    let t = make_offset_table(&raw);
    assert_eq!(t, vec![(10, (8, 0)), (20, (5, 3))]);
    // records with the same time keep their order
    let raw = vec![0, 5, 0, 0, 0, 10, 0, 3, 0, 0, 0, 10];
    assert_eq!(make_offset_table(&raw), vec![(10, (5, 3)), (10, (8, 0))]);
}

#[test]
fn index_entries_join_the_sections_of_a_key() {
    let sections = vec![
        IndexSection { key: 7, entries: vec![(1, 0, 3)] },
        IndexSection { key: 9, entries: vec![(2, 3, 3)] },
        IndexSection { key: 7, entries: vec![(3, 6, 0)] },
    ];
    assert_eq!(index_entries(&sections, 7), Some(vec![(1, 0, 3), (3, 6, 0)]));
    assert_eq!(index_entries(&sections, 9), Some(vec![(2, 3, 3)]));
    assert_eq!(index_entries(&sections, 8), None);
}

#[test]
fn stored_tables_are_decompressed_first() {
    let raw = vec![0, 5, 0, 0, 0, 20, 0, 3, 0, 0, 0, 10, 9];
    let c = zstd::stream::encode_all(&raw[..], 3).unwrap();
    assert_eq!(blaseball_vcr::compress::decompress_file(&c).unwrap(), raw);
    assert_eq!(read_offset_table(&c).unwrap(), vec![(10, (8, 0)), (20, (5, 3))]);
    assert!(matches!(read_offset_table(&raw), Err(VCRError::CompressionError)));
    // four empty indexes: each a zero length
    let idx = zstd::stream::encode_all(&[0u8; 16][..], 3).unwrap();
    let ix = read_feed_indexes(&idx).unwrap();
    assert!(ix.game_index.is_empty() && ix.player_index.is_empty() && ix.team_index.is_empty() && ix.phase_index.is_empty());
}

#[test]
fn tags_are_looked_up_in_the_tables() {
    // player tag 1, team tag 0, game tag 0
    let ev = vec![1, 0, 1, 0, 7, 11, 2, 1, 0, 1, 1, 0, 1, 0, 0, 0x80];
    let (data, table) = feed(&[(12, ev)]);
    let (_, (o, l)) = table[0];
    let tables = TagTables { player_tags: vec![[1; 16], [2; 16]], team_tags: vec![[3; 16]], game_tags: vec![[4; 16]] };
    let e = read_event(&data, &[], o, l, 12_000, &tables).unwrap();
    assert_eq!(e.player_tags, Some(vec![[2u8; 16]]));
    assert_eq!(e.team_tags, Some(vec![[3u8; 16]]));
    assert_eq!(e.game_tags, Some(vec![[4u8; 16]]));
    let short = TagTables { player_tags: vec![[1; 16]], team_tags: vec![[3; 16]], game_tags: vec![[4; 16]] };
    assert!(matches!(read_event(&data, &[], o, l, 12_000, &short), Err(VCRError::EntityNotFound)));
    let got = events_after(&table, &data, &[], &tables, 0, 5, -3).unwrap();
    assert_eq!(got[0].created_millis, 12_000);
    assert_eq!(tag_number(&tables.player_tags, &[2; 16]), Some(1));
    assert_eq!(tag_number(&tables.player_tags, &[9; 16]), None);
}
