use blaseball_vcr::json_sequences::tributes::{
    apply_record, entity_span, parse_tribute_header, snapshot, tribute_entity, tribute_versions,
    versions_span, TributeSnapshot, TEAMS_EPOCH,
};
use blaseball_vcr::VCRError;

fn header_bytes() -> Vec<u8> {
    let mut b = vec![0, 0, 0, 36];
    b.extend([1u8; 16]);
    b.extend([0x80, 0x01]);
    b.extend([2u8; 16]);
    b.extend([0x00, 0x02]);
    b.extend([0, 0, 0x03, 0xe8, 0, 0, 0, 0, 0, 4]);
    b.extend([0x60, 0xc6, 0xd1, 0xe8, 0, 0, 0, 4, 0, 3]);
    b.extend([7, 7]);
    b
}

#[test]
fn tribute_header_reads_ids_and_records() {
    let h = parse_tribute_header(&header_bytes()).unwrap();
    assert_eq!(h.ids.len(), 2);
    assert_eq!(h.ids.get(&1).unwrap(), &([1u8; 16], true));
    assert_eq!(h.ids.get(&2).unwrap(), &([2u8; 16], false));
    assert_eq!(h.times, vec![(1000, 0, 4), (TEAMS_EPOCH, 4, 3)]);
}

#[test]
fn tribute_header_errors() {
    assert!(matches!(parse_tribute_header(&[0, 0]), Err(VCRError::UnexpectedEof)));
    assert!(matches!(parse_tribute_header(&[0, 0, 0, 9, 1]), Err(VCRError::UnexpectedEof)));
    assert!(matches!(parse_tribute_header(&[0, 0, 0, 5, 1, 2, 3, 4, 5]), Err(VCRError::Malformed)));
}

fn records() -> Vec<(u32, Vec<u8>)> {
    vec![(1000, vec![1, 50, 2, 70]), (TEAMS_EPOCH, vec![0, 1, 1])]
}

#[test]
fn tribute_versions_list_players_then_teams_apart() {
    let h = parse_tribute_header(&header_bytes()).unwrap();
    let v = tribute_versions(&h.ids, &records(), 0).unwrap();
    assert_eq!(v.len(), 2);
    assert_eq!(v[0].0, 1000);
    match &v[0].1 {
        TributeSnapshot::Players(p) => assert_eq!(p, &vec![([2u8; 16], 70), ([1u8; 16], 50)]),
        _ => panic!("expected one list before the teams epoch"),
    }
    match &v[1].1 {
        TributeSnapshot::TeamsAndPlayers { teams, players } => {
            assert!(teams.is_empty());
            assert_eq!(players, &vec![([2u8; 16], 70)]);
        }
        _ => panic!("expected teams and players apart"),
    }
    let later = tribute_versions(&h.ids, &records(), 1000).unwrap();
    assert_eq!(later.len(), 1);
    assert_eq!(later[0].0, TEAMS_EPOCH);
}

#[test]
fn tribute_entity_is_stamped_with_the_last_record() {
    let h = parse_tribute_header(&header_bytes()).unwrap();
    let (t, snap) = tribute_entity(&h.ids, &records()[..1].to_vec()).unwrap();
    assert_eq!(t, 1000);
    assert!(matches!(snap, TributeSnapshot::Players(p) if p.len() == 2));
    let (t, snap) = tribute_entity(&h.ids, &Vec::new()).unwrap();
    assert_eq!(t, 0);
    assert!(matches!(snap, TributeSnapshot::Players(p) if p.is_empty()));
}

#[test]
fn a_later_value_replaces_an_earlier_one() {
    let h = parse_tribute_header(&header_bytes()).unwrap();
    let mut state = Vec::new();
    apply_record(&mut state, &[2, 5, 1, 9, 2, 100], &h.ids).unwrap();
    assert_eq!(state, vec![([2u8; 16], false, 100), ([1u8; 16], true, 9)]);
    let snap = snapshot(TEAMS_EPOCH + 1, &state);
    match snap {
        TributeSnapshot::TeamsAndPlayers { teams, players } => {
            assert_eq!(teams, vec![([1u8; 16], 9)]);
            assert_eq!(players, vec![([2u8; 16], 100)]);
        }
        _ => panic!("expected teams and players apart"),
    }
}

#[test]
fn tribute_record_errors() {
    let h = parse_tribute_header(&header_bytes()).unwrap();
    let mut state = Vec::new();
    assert!(matches!(apply_record(&mut state, &[5, 1], &h.ids), Err(VCRError::Malformed)));
    assert!(matches!(apply_record(&mut state, &[1], &h.ids), Err(VCRError::UnexpectedEof)));
    assert!(matches!(apply_record(&mut state, &[0, 1, 7], &h.ids), Err(VCRError::Malformed)));
    assert!(matches!(apply_record(&mut state, &[0, 2, 1], &h.ids), Err(VCRError::UnexpectedEof)));
    assert!(matches!(
        apply_record(&mut state, &[1, 0xff, 0xff, 0xff, 0xff, 0xff, 0xff, 0xff, 0xff, 0xff, 0xff, 0], &h.ids),
        Err(VCRError::InvalidData)
    ));
    let mut state = Vec::new();
    assert!(apply_record(&mut state, &[0xff, 0xff, 0xff, 0xff], &h.ids).is_ok());
    assert!(state.is_empty());
}

#[test]
fn spans_say_how_many_records_to_read() {
    let h = parse_tribute_header(&header_bytes()).unwrap();
    assert_eq!(versions_span(&h.times, 1500), 1);
    assert_eq!(versions_span(&h.times, 999), 0);
    assert_eq!(versions_span(&h.times, u32::MAX), 2);
    assert_eq!(entity_span(&h.times, 500), 1);
    assert_eq!(entity_span(&h.times, 1001), 2);
    assert_eq!(entity_span(&h.times, u32::MAX), 2);
}
