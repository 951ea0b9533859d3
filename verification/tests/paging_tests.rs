use blaseball_vcr::paging::{drain_page, next_entity, serve_page, sort_versions, ChronV2EndpointKind, InternalPaging, Order};
use blaseball_vcr::ChroniclerEntity;

fn v(id: u8, from: u32) -> ChroniclerEntity<u8> {
    ChroniclerEntity { entity_id: [id; 16], valid_from: from, data: id }
}

fn shape(v: &[ChroniclerEntity<u8>]) -> Vec<(u8, u32)> {
    v.iter().map(|e| (e.data, e.valid_from)).collect()
}

#[test]
fn versions_sort_stably_by_time() {
    let sorted = sort_versions(vec![v(1, 30), v(2, 10), v(3, 30), v(4, 20), v(5, 10)]);
    assert_eq!(shape(&sorted), vec![(2, 10), (5, 10), (4, 20), (1, 30), (3, 30)]);
}

#[test]
fn pages_are_served_in_order_and_the_rest_is_kept() {
    let mut buf = vec![v(1, 30), v(2, 10), v(3, 20)];
    let page = serve_page(&mut buf, 2, Order::Asc);
    assert_eq!(shape(&page), vec![(2, 10), (3, 20)]);
    assert_eq!(shape(&buf), vec![(1, 30)]);

    let mut buf = vec![v(1, 30), v(2, 10), v(3, 20), v(4, 10)];
    let page = serve_page(&mut buf, 3, Order::Desc);
    assert_eq!(shape(&page), vec![(1, 30), (3, 20), (4, 10)]);
    assert_eq!(shape(&buf), vec![(2, 10)]);

    let mut buf = vec![v(1, 5)];
    assert_eq!(shape(&serve_page(&mut buf, 10, Order::Desc)), vec![(1, 5)]);
    assert!(buf.is_empty());
}

#[test]
fn draining_takes_at_most_the_count() {
    let mut buf = vec![v(1, 3), v(2, 1), v(3, 2)];
    assert_eq!(shape(&drain_page(&mut buf, 2)), vec![(1, 3), (2, 1)]);
    assert_eq!(shape(&buf), vec![(3, 2)]);
    assert!(drain_page(&mut buf, 0).is_empty());
    assert_eq!(buf.len(), 1);
}

#[test]
fn listings_gather_from_the_last_entity() {
    let mut page = InternalPaging {
        remaining_data: vec![v(1, 1)],
        remaining_ids: vec!["a".to_string(), "b".to_string()],
        kind: ChronV2EndpointKind::Entities(5),
    };
    assert_eq!(next_entity(&page, 2), Some("b".to_string()));
    assert_eq!(next_entity(&page, 1), None);
    page.remaining_ids.clear();
    assert_eq!(next_entity(&page, 2), None);
    assert_eq!(page.kind, ChronV2EndpointKind::Entities(5));
}

#[test]
fn the_next_page_goes_on_where_one_stopped() {
    let all = || vec![v(1, 30), v(2, 10), v(3, 20), v(4, 10), v(5, 40)];
    let mut buf = all();
    let mut pages = shape(&serve_page(&mut buf, 2, Order::Asc));
    pages.extend(shape(&serve_page(&mut buf, 3, Order::Asc)));
    let mut whole = all();
    assert_eq!(pages, shape(&serve_page(&mut whole, 5, Order::Asc)));
    assert_eq!(pages, vec![(2, 10), (4, 10), (3, 20), (1, 30), (5, 40)]);

    let mut buf = vec![v(1, 30), v(2, 10), v(3, 20), v(5, 40)];
    let mut pages = shape(&serve_page(&mut buf, 1, Order::Desc));
    pages.extend(shape(&serve_page(&mut buf, 3, Order::Desc)));
    assert_eq!(pages, vec![(5, 40), (1, 30), (3, 20), (2, 10)]);
}
