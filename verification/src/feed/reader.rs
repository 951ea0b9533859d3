//! Reading stored events out of the feed data by their position table: one event at a
//! position, the events after or before a time, the events of a phase, and the events that
//! carry a tag up to a time, newest first. Stored events carry tag numbers; the feed's tag
//! tables turn them back into UUIDs.

use vstd::prelude::*;
use crate::{VCRError, VCRResult};
use crate::compress::{slice_range, zstd_stream_decompress, stream_decompress};
use crate::search::{TimeKeyed, SortKey, reversed, search_result, search_by_key, keys_sorted, stable_sort, stable_sort_vec, by_sort_key, lemma_stable_sort_map, lemma_stable_sort_keeps, lemma_stable_sort_len};
use super::event::{bytes_eq, FeedEvent, FeedEventView, uuid_seqs, opt_uuids};
use super::decode::{DecodedEvent, DecodedEventView, IndexSection, FeedIndexes, decode_event, spec_decode_event, make_offset_table, offset_entries, parse_feed_indexes, spec_feed_indexes, section_view};
use crate::search::by_time_key;

verus! {

/// The stored bytes of an event: `len` bytes from `offset`, or, for a length of 0, everything
/// from `offset` to the end of the data. `None` when they would run past the end.
pub open spec fn stored_bytes(data: Seq<u8>, offset: int, len: int) -> Option<Seq<u8>> {
    if offset > data.len() || offset + len > data.len() {
        None
    } else if len == 0 {
        Some(data.subrange(offset, data.len() as int))
    } else {
        Some(data.subrange(offset, offset + len))
    }
}

/// The event stored at a position, decompressed with the feed's dictionary and read, with its
/// tags still as numbers.
pub open spec fn spec_decoded_at(data: Seq<u8>, dict: Seq<u8>, offset: int, len: int) -> Result<DecodedEventView, VCRError> {
    match stored_bytes(data, offset, len) {
        None => Err(VCRError::UnexpectedEof),
        Some(c) => match zstd_stream_decompress(Some(dict), c) {
            None => Err(VCRError::CompressionError),
            Some(b) => spec_decode_event(b),
        },
    }
}

/// The tag tables of a feed: the UUID that each player, team and game tag number stands for.
pub struct TagTables {
    pub player_tags: Vec<[u8; 16]>,
    pub team_tags: Vec<[u8; 16]>,
    pub game_tags: Vec<[u8; 16]>,
}

pub struct TagTablesView {
    pub player_tags: Seq<Seq<u8>>,
    pub team_tags: Seq<Seq<u8>>,
    pub game_tags: Seq<Seq<u8>>,
}

impl View for TagTables {
    type V = TagTablesView;

    open spec fn view(&self) -> TagTablesView {
        TagTablesView {
            player_tags: uuid_seqs(self.player_tags@),
            team_tags: uuid_seqs(self.team_tags@),
            game_tags: uuid_seqs(self.game_tags@),
        }
    }
}

/// The UUIDs that tag numbers stand for in a table, or `None` when a number lies outside it.
pub open spec fn resolve_tags(table: Seq<Seq<u8>>, ids: Seq<int>) -> Option<Seq<Seq<u8>>> {
    if forall|i: int| 0 <= i < ids.len() ==> #[trigger] ids[i] < table.len() {
        Some(ids.map_values(|n: int| table[n]))
    } else {
        None
    }
}

pub open spec fn nums16(s: Seq<u16>) -> Seq<int> {
    s.map_values(|x: u16| x as int)
}

pub open spec fn nums8(s: Seq<u8>) -> Seq<int> {
    s.map_values(|x: u8| x as int)
}

/// The sixteen zero bytes of the nil UUID, for events that carry no id.
pub open spec fn nil_or(id: Option<Seq<u8>>) -> Seq<u8> {
    match id {
        Some(i) => i,
        None => Seq::new(16, |i: int| 0u8),
    }
}

/// A read event as a feed event: created at the given time, with no nuts, outside any
/// tournament (-1), the nil id unless it carries one, and its tags looked up in the tables;
/// `EntityNotFound` when a tag number is not in its table.
pub open spec fn spec_feed_event(d: DecodedEventView, created: i64, t: TagTablesView) -> Result<FeedEventView, VCRError> {
    match (resolve_tags(t.player_tags, nums16(d.player_tags)), resolve_tags(t.team_tags, nums8(d.team_tags)),
        resolve_tags(t.game_tags, nums16(d.game_tags))) {
        (Some(p), Some(tm), Some(g)) => Ok(FeedEventView {
            id: nil_or(d.id),
            category: d.category,
            created_millis: created,
            day: d.day,
            description: d.description,
            nuts: 0,
            phase: d.phase,
            player_tags: Some(p),
            game_tags: Some(g),
            team_tags: Some(tm),
            etype: d.etype,
            tournament: -1i8,
            season: d.season as u8,
            metadata: d.metadata,
        }),
        _ => Err(VCRError::EntityNotFound),
    }
}

/// The feed event stored at a position, created at `created` (milliseconds).
pub open spec fn spec_read_event(data: Seq<u8>, dict: Seq<u8>, offset: int, len: int, created: i64, t: TagTablesView) -> Result<FeedEventView, VCRError> {
    match spec_decoded_at(data, dict, offset, len) {
        Err(e) => Err(e),
        Ok(d) => spec_feed_event(d, created, t),
    }
}

/// The plain values of a list of feed events.
pub open spec fn event_views(v: Seq<FeedEvent>) -> Seq<FeedEventView> {
    v.map_values(|e: FeedEvent| e@)
}

/// Whether an event of category `got` is wanted by a request for `want` (-3 wants every one).
pub open spec fn category_wanted(want: i8, got: i8) -> bool {
    want == -3 || got == want
}

/// No event created after `timestamp` (in seconds when `in_seconds`, else in milliseconds).
pub open spec fn not_after(v: Seq<FeedEvent>, timestamp: i64, in_seconds: bool) -> bool {
    forall|k: int| 0 <= k < v.len() ==> (#[trigger] v[k]).created_millis
        <= (if in_seconds { timestamp * 1000 } else { timestamp as int })
}

/// Events in order of creation, none created before `millis`.
pub open spec fn created_in_order_from(v: Seq<FeedEvent>, millis: int) -> bool {
    &&& forall|k: int| 0 <= k < v.len() ==> millis <= (#[trigger] v[k]).created_millis
    &&& forall|k1: int, k2: int| 0 <= k1 < k2 < v.len() ==> (#[trigger] v[k1]).created_millis <= (#[trigger] v[k2]).created_millis
}

/// Events newest first.
pub open spec fn created_newest_first(v: Seq<FeedEvent>) -> bool {
    forall|k1: int, k2: int| 0 <= k1 < k2 < v.len() ==> (#[trigger] v[k1]).created_millis >= (#[trigger] v[k2]).created_millis
}

/// At most `count` events, and for a category other than -3 only events of exactly that
/// category.
pub open spec fn only_category(v: Seq<FeedEvent>, count: usize, category: i8) -> bool {
    &&& v.len() <= count
    &&& forall|k: int| 0 <= k < v.len() ==> category == -3 || (#[trigger] v[k]).category == category
}

fn resolve16(table: &Vec<[u8; 16]>, ids: &Vec<u16>) -> (res: Option<Vec<[u8; 16]>>)
    ensures
        match resolve_tags(uuid_seqs(table@), nums16(ids@)) {
            None => res is None,
            Some(s) => (res matches Some(v) && uuid_seqs(v@) == s),
        },
{
    let ghost tb = uuid_seqs(table@);
    let ghost ns = nums16(ids@);
    let mut out: Vec<[u8; 16]> = Vec::new();
    let mut k: usize = 0;
    while k < ids.len()
        invariant
            k <= ids@.len(),
            tb == uuid_seqs(table@),
            ns == nums16(ids@),
            forall|i: int| 0 <= i < k ==> #[trigger] ns[i] < tb.len(),
            out@.len() == k,
            forall|i: int| 0 <= i < k ==> #[trigger] out@[i]@ == tb[ns[i]],
        decreases ids@.len() - k,
    {
        let n = ids[k] as usize;
        if n >= table.len() {
            assert(!(ns[k as int] < tb.len()));
            return None;
        }
        out.push(table[n]);
        k = k + 1;
    }
    assert(uuid_seqs(out@) =~= ns.map_values(|n: int| tb[n]));
    Some(out)
}

fn resolve8(table: &Vec<[u8; 16]>, ids: &Vec<u8>) -> (res: Option<Vec<[u8; 16]>>)
    ensures
        match resolve_tags(uuid_seqs(table@), nums8(ids@)) {
            None => res is None,
            Some(s) => (res matches Some(v) && uuid_seqs(v@) == s),
        },
{
    let ghost tb = uuid_seqs(table@);
    let ghost ns = nums8(ids@);
    let mut out: Vec<[u8; 16]> = Vec::new();
    let mut k: usize = 0;
    while k < ids.len()
        invariant
            k <= ids@.len(),
            tb == uuid_seqs(table@),
            ns == nums8(ids@),
            forall|i: int| 0 <= i < k ==> #[trigger] ns[i] < tb.len(),
            out@.len() == k,
            forall|i: int| 0 <= i < k ==> #[trigger] out@[i]@ == tb[ns[i]],
        decreases ids@.len() - k,
    {
        let n = ids[k] as usize;
        if n >= table.len() {
            assert(!(ns[k as int] < tb.len()));
            return None;
        }
        out.push(table[n]);
        k = k + 1;
    }
    assert(uuid_seqs(out@) =~= ns.map_values(|n: int| tb[n]));
    Some(out)
}

/// Turns a read event into a feed event created at `created`, looking its tags up.
pub fn to_feed_event(d: DecodedEvent, created: i64, tables: &TagTables) -> (res: VCRResult<FeedEvent>)
    ensures
        match spec_feed_event(d@, created, tables@) {
            Err(e) => res == Err::<FeedEvent, VCRError>(e),
            Ok(v) => (res matches Ok(ev) && ev@ == v),
        },
{
    let p = match resolve16(&tables.player_tags, &d.player_tags) {
        Some(p) => p,
        None => return Err(VCRError::EntityNotFound),
    };
    let tm = match resolve8(&tables.team_tags, &d.team_tags) {
        Some(t) => t,
        None => return Err(VCRError::EntityNotFound),
    };
    let g = match resolve16(&tables.game_tags, &d.game_tags) {
        Some(g) => g,
        None => return Err(VCRError::EntityNotFound),
    };
    let id: [u8; 16] = match d.id {
        Some(i) => i,
        None => [0u8; 16],
    };
    let ghost dv = d@;
    proof {
        if dv.id is None {
            assert(id@ =~= Seq::new(16, |i: int| 0u8));
        }
    }
    let ev = FeedEvent {
        id,
        category: d.category,
        created_millis: created,
        day: d.day,
        description: d.description,
        nuts: 0,
        phase: d.phase,
        player_tags: Some(p),
        game_tags: Some(g),
        team_tags: Some(tm),
        etype: d.etype,
        tournament: -1,
        season: d.season as u8,
        metadata: d.metadata,
    };
    Ok(ev)
}

/// Reads the event at a position of the feed data as a feed event created at `created`
/// (milliseconds since the epoch), its tags looked up in the tables. A tag number missing from
/// its table gives `EntityNotFound`.
pub fn read_event(data: &[u8], dict: &[u8], offset: u32, len: u16, created: i64, tables: &TagTables) -> (res: VCRResult<FeedEvent>)
    ensures
        match spec_read_event(data@, dict@, offset as int, len as int, created, tables@) {
            Err(e) => res == Err::<FeedEvent, VCRError>(e),
            Ok(v) => (res matches Ok(ev) && ev@ == v),
        },
{
    let o = offset as usize;
    let l = len as usize;
    if o > data.len() || l > data.len() - o {
        return Err(VCRError::UnexpectedEof);
    }
    let end = if l == 0 { data.len() } else { o + l };
    let compressed = slice_range(data, o, end);
    let d = decode_event(compressed, dict)?;
    to_feed_event(d, created, tables)
}

/// The number of a tag in a table: the first entry holding its UUID.
pub fn tag_number(table: &Vec<[u8; 16]>, id: &[u8; 16]) -> (res: Option<usize>)
    ensures
        match res {
            Some(n) => n < table@.len() && table@[n as int]@ == id@
                && forall|j: int| 0 <= j < n ==> (#[trigger] table@[j])@ != id@,
            None => forall|j: int| 0 <= j < table@.len() ==> (#[trigger] table@[j])@ != id@,
        },
{
    let mut k: usize = 0;
    while k < table.len()
        invariant
            k <= table@.len(),
            forall|j: int| 0 <= j < k ==> (#[trigger] table@[j])@ != id@,
        decreases table@.len() - k,
    {
        if arrays_eq(&table[k], id) {
            return Some(k);
        }
        k = k + 1;
    }
    None
}

fn arrays_eq(x: &[u8; 16], y: &[u8; 16]) -> (res: bool)
    ensures
        res == (x@ == y@),
{
    let mut k: usize = 0;
    while k < 16
        invariant
            k <= 16,
            forall|j: int| 0 <= j < k ==> x@[j] == y@[j],
        decreases 16 - k,
    {
        if x[k] != y[k] {
            assert(x@[k as int] != y@[k as int]);
            return false;
        }
        k = k + 1;
    }
    assert(x@ =~= y@);
    true
}

/// The creation time, in milliseconds, of an event whose table entry holds a time in seconds.
pub open spec fn seconds_millis(t: u32) -> i64 {
    (t as int * 1000) as i64
}

/// The events read forward from entry `i` of a position table: up to `left` events of the
/// wanted category, each created at its entry's time, stopping at the end of the table or at
/// the first event that fails to read.
pub open spec fn walk_forward(
    t: Seq<(u32, (u32, u16))>,
    data: Seq<u8>,
    dict: Seq<u8>,
    tags: TagTablesView,
    i: int,
    left: nat,
    category: i8,
) -> Result<Seq<FeedEventView>, VCRError>
    decreases t.len() - i,
{
    if i < 0 || i >= t.len() || left == 0 {
        Ok(Seq::empty())
    } else {
        match spec_read_event(data, dict, t[i].1.0 as int, t[i].1.1 as int, seconds_millis(t[i].0), tags) {
            Err(e) => Err(e),
            Ok(v) => if category_wanted(category, v.category) {
                match walk_forward(t, data, dict, tags, i + 1, (left - 1) as nat, category) {
                    Ok(s) => Ok(seq![v] + s),
                    Err(e) => Err(e),
                }
            } else {
                walk_forward(t, data, dict, tags, i + 1, left, category)
            },
        }
    }
}

/// Up to `count` events of a category, read forward from entry `start` of a position table.
pub fn events_forward(
    table: &[(u32, (u32, u16))],
    data: &[u8],
    dict: &[u8],
    tags: &TagTables,
    start: usize,
    count: usize,
    category: i8,
) -> (res: VCRResult<Vec<FeedEvent>>)
    ensures
        match walk_forward(table@, data@, dict@, tags@, start as int, count as nat, category) {
            Err(e) => res == Err::<Vec<FeedEvent>, VCRError>(e),
            Ok(s) => (res matches Ok(v) && event_views(v@) == s),
        },
        res matches Ok(v) ==> only_category(v@, count, category),
{
    proof {
        lemma_walk_forward_wanted(table@, data@, dict@, tags@, start as int, count as nat, category);
    }
    let mut idx = start;
    let mut events: Vec<FeedEvent> = Vec::new();
    while idx < table.len() && events.len() < count
        invariant
            events@.len() <= count,
            walk_forward(table@, data@, dict@, tags@, start as int, count as nat, category) == match walk_forward(
                table@, data@, dict@, tags@, idx as int, (count - events@.len()) as nat, category) {
                Ok(s) => Ok::<Seq<FeedEventView>, VCRError>(event_views(events@) + s),
                Err(e) => Err(e),
            },
        decreases table@.len() - idx,
    {
        let (time, (offset, length)) = table[idx];
        let ghost before = events@;
        let e = match read_event(data, dict, offset, length, time as i64 * 1000, tags) {
            Ok(e) => e,
            Err(err) => return Err(err),
        };
        if category == -3 || e.category == category {
            events.push(e);
            proof {
                assert(event_views(events@) =~= event_views(before) + seq![e@]);
                let rest = walk_forward(table@, data@, dict@, tags@, idx + 1, (count - events@.len()) as nat, category);
                if let Ok(s) = rest {
                    assert(event_views(before) + (seq![e@] + s) =~= event_views(events@) + s);
                }
            }
        }
        idx = idx + 1;
    }
    proof {
        assert(event_views(events@) + Seq::<FeedEventView>::empty() =~= event_views(events@));
        assert forall|k: int| 0 <= k < events@.len() implies category == -3 || (#[trigger] events@[k]).category == category by {
            assert(event_views(events@)[k] == events@[k]@);
        }
    }
    Ok(events)
}

/// Where a walk from a time starts in a position table: before every entry for a time before
/// 1970, else where a binary search for the time lands.
pub open spec fn walk_start(t: Seq<(u32, (u32, u16))>, timestamp: i64, start: int) -> bool {
    if timestamp < 0 {
        start == 0
    } else {
        ||| search_result(t, timestamp as int, Ok(start as usize))
        ||| search_result(t, timestamp as int, Err(start as usize))
    }
}

fn start_of(table: &[(u32, (u32, u16))], timestamp: i64) -> (res: usize)
    ensures
        walk_start(table@, timestamp, res as int),
        res <= table@.len(),
{
    if timestamp < 0 {
        0
    } else {
        match search_by_key(table, timestamp as u64) {
            Ok(i) => i,
            Err(i) => i,
        }
    }
}

/// Up to `count` events of a category (-3 for every one) from the time `timestamp`, in
/// seconds, on: reading forward from where a binary search for the time lands.
pub fn events_after(
    table: &[(u32, (u32, u16))],
    data: &[u8],
    dict: &[u8],
    tags: &TagTables,
    timestamp: i64,
    count: usize,
    category: i8,
) -> (res: VCRResult<Vec<FeedEvent>>)
    ensures
        exists|start: int| #[trigger] walk_start(table@, timestamp, start) && match walk_forward(table@, data@, dict@, tags@, start, count as nat, category) {
            Err(e) => res == Err::<Vec<FeedEvent>, VCRError>(e),
            Ok(s) => (res matches Ok(v) && event_views(v@) == s),
        },
        res matches Ok(v) ==> only_category(v@, count, category),
        res matches Ok(v) ==> (keys_sorted(table@) ==> created_in_order_from(v@, timestamp * 1000)),
{
    let start = start_of(table, timestamp);
    let res = events_forward(table, data, dict, tags, start, count, category);
    proof {
        if keys_sorted(table@) {
            let lo: int = if timestamp < 0 { 0 } else { timestamp as int };
            assert forall|j: int| start <= j < table@.len() implies lo <= (#[trigger] table@[j]).0 by {
                assert(table@[start as int].time_key() <= table@[j].time_key());
            }
            lemma_walk_forward_times(table@, data@, dict@, tags@, start as int, count as nat, category, lo);
            if let Ok(v) = &res {
                let w = event_views(v@);
                assert(walk_forward(table@, data@, dict@, tags@, start as int, count as nat, category) == Ok::<Seq<FeedEventView>, VCRError>(w));
                assert forall|k: int| 0 <= k < v@.len() implies timestamp * 1000 <= (#[trigger] v@[k]).created_millis by {
                    assert(w[k] == v@[k]@);
                }
                assert forall|k1: int, k2: int| 0 <= k1 < k2 < v@.len() implies
                    (#[trigger] v@[k1]).created_millis <= (#[trigger] v@[k2]).created_millis by {
                    assert(w[k1] == v@[k1]@);
                    assert(w[k2] == v@[k2]@);
                }
            }
        }
    }
    res
}

/// The events read backward from entry `i` of a position table, down to entry 1 (entry 0 is
/// never read): up to `left` events of the wanted category, each created at its entry's time,
/// stopping at the first event that fails to read.
pub open spec fn walk_backward(
    t: Seq<(u32, (u32, u16))>,
    data: Seq<u8>,
    dict: Seq<u8>,
    tags: TagTablesView,
    i: int,
    left: nat,
    category: i8,
) -> Result<Seq<FeedEventView>, VCRError>
    decreases i,
{
    if i <= 0 || i >= t.len() || left == 0 {
        Ok(Seq::empty())
    } else {
        match spec_read_event(data, dict, t[i].1.0 as int, t[i].1.1 as int, seconds_millis(t[i].0), tags) {
            Err(e) => Err(e),
            Ok(v) => if category_wanted(category, v.category) {
                match walk_backward(t, data, dict, tags, i - 1, (left - 1) as nat, category) {
                    Ok(s) => Ok(seq![v] + s),
                    Err(e) => Err(e),
                }
            } else {
                walk_backward(t, data, dict, tags, i - 1, left, category)
            },
        }
    }
}

/// Up to `count` events of a category, read backward from entry `start` of a position table
/// down to entry 1.
pub fn events_backward(
    table: &[(u32, (u32, u16))],
    data: &[u8],
    dict: &[u8],
    tags: &TagTables,
    start: usize,
    count: usize,
    category: i8,
) -> (res: VCRResult<Vec<FeedEvent>>)
    requires
        start < table@.len() || start == 0 || count == 0,
    ensures
        match walk_backward(table@, data@, dict@, tags@, start as int, count as nat, category) {
            Err(e) => res == Err::<Vec<FeedEvent>, VCRError>(e),
            Ok(s) => (res matches Ok(v) && event_views(v@) == s),
        },
        res matches Ok(v) ==> only_category(v@, count, category),
{
    proof {
        lemma_walk_backward_wanted(table@, data@, dict@, tags@, start as int, count as nat, category);
    }
    let mut idx = start;
    let mut events: Vec<FeedEvent> = Vec::new();
    while idx > 0 && events.len() < count
        invariant
            events@.len() <= count,
            idx < table@.len() || idx == 0 || count == 0,
            walk_backward(table@, data@, dict@, tags@, start as int, count as nat, category) == match walk_backward(
                table@, data@, dict@, tags@, idx as int, (count - events@.len()) as nat, category) {
                Ok(s) => Ok::<Seq<FeedEventView>, VCRError>(event_views(events@) + s),
                Err(e) => Err(e),
            },
        decreases idx,
    {
        let (time, (offset, length)) = table[idx];
        let ghost before = events@;
        let e = match read_event(data, dict, offset, length, time as i64 * 1000, tags) {
            Ok(e) => e,
            Err(err) => return Err(err),
        };
        if category == -3 || e.category == category {
            events.push(e);
            proof {
                assert(event_views(events@) =~= event_views(before) + seq![e@]);
                let rest = walk_backward(table@, data@, dict@, tags@, idx - 1, (count - events@.len()) as nat, category);
                if let Ok(s) = rest {
                    assert(event_views(before) + (seq![e@] + s) =~= event_views(events@) + s);
                }
            }
        }
        idx = idx - 1;
    }
    proof {
        assert(event_views(events@) + Seq::<FeedEventView>::empty() =~= event_views(events@));
        assert forall|k: int| 0 <= k < events@.len() implies category == -3 || (#[trigger] events@[k]).category == category by {
            assert(event_views(events@)[k] == events@[k]@);
        }
    }
    Ok(events)
}

/// Up to `count` events of a category (-3 for every one) before the time `timestamp`, in
/// seconds: reading backward from where a binary search for the time lands. The table is
/// ordered by time and, unless the time is before 1970, holds an entry at or after it (a
/// walk would otherwise start past the last entry).
pub fn events_before(
    table: &[(u32, (u32, u16))],
    data: &[u8],
    dict: &[u8],
    tags: &TagTables,
    timestamp: i64,
    count: usize,
    category: i8,
) -> (res: VCRResult<Vec<FeedEvent>>)
    requires
        count == 0 || table@.len() == 0 || timestamp < 0 || (keys_sorted(table@) && exists|j: int|
            0 <= j < table@.len() && #[trigger] table@[j].0 >= timestamp),
    ensures
        exists|start: int| #[trigger] walk_start(table@, timestamp, start) && match walk_backward(table@, data@, dict@, tags@, start, count as nat, category) {
            Err(e) => res == Err::<Vec<FeedEvent>, VCRError>(e),
            Ok(s) => (res matches Ok(v) && event_views(v@) == s),
        },
        res matches Ok(v) ==> only_category(v@, count, category),
        res matches Ok(v) ==> (keys_sorted(table@) ==> created_newest_first(v@)),
{
    let start = start_of(table, timestamp);
    proof {
        if count != 0 && table@.len() != 0 && timestamp >= 0 && start == table@.len() {
            let j = choose|j: int| 0 <= j < table@.len() && #[trigger] table@[j].0 >= timestamp;
            assert(table@[j].0 >= timestamp);
            assert(table@[j].time_key() == table@[j].0 as int);
        }
    }
    let res = events_backward(table, data, dict, tags, start, count, category);
    proof {
        if keys_sorted(table@) {
            lemma_walk_backward_times(table@, data@, dict@, tags@, start as int, count as nat, category, u32::MAX as int);
            if let Ok(v) = &res {
                let w = event_views(v@);
                assert(walk_backward(table@, data@, dict@, tags@, start as int, count as nat, category) == Ok::<Seq<FeedEventView>, VCRError>(w));
                assert forall|k1: int, k2: int| 0 <= k1 < k2 < v@.len() implies
                    (#[trigger] v@[k1]).created_millis >= (#[trigger] v@[k2]).created_millis by {
                    assert(w[k1] == v@[k1]@);
                    assert(w[k2] == v@[k2]@);
                }
            }
        }
    }
    res
}

/// The creation time, in milliseconds, of an event whose index entry holds `t`: a time in
/// seconds for the tag indexes, in milliseconds for the phase index.
pub open spec fn entry_millis(t: i64, in_seconds: bool) -> i64 {
    if in_seconds { (t as int * 1000) as i64 } else { t }
}

/// Index entry times that are whole seconds as the tag indexes store them (four bytes).
pub open spec fn second_times(t: Seq<(i64, u32, u16)>) -> bool {
    forall|j: int| 0 <= j < t.len() ==> 0 <= #[trigger] t[j].0 <= u32::MAX
}

/// The events of an index list (time, position, length) read from entry `i` on: up to `left`
/// events of the wanted category among the entries whose time is not after `timestamp`, each
/// created at its entry's time, stopping at the first event that fails to read.
pub open spec fn walk_index(
    t: Seq<(i64, u32, u16)>,
    data: Seq<u8>,
    dict: Seq<u8>,
    tags: TagTablesView,
    i: int,
    left: nat,
    timestamp: i64,
    category: i8,
    in_seconds: bool,
) -> Result<Seq<FeedEventView>, VCRError>
    decreases t.len() - i,
{
    if i < 0 || i >= t.len() || left == 0 {
        Ok(Seq::empty())
    } else if t[i].0 > timestamp {
        walk_index(t, data, dict, tags, i + 1, left, timestamp, category, in_seconds)
    } else {
        match spec_read_event(data, dict, t[i].1 as int, t[i].2 as int, entry_millis(t[i].0, in_seconds), tags) {
            Err(e) => Err(e),
            Ok(v) => if category_wanted(category, v.category) {
                match walk_index(t, data, dict, tags, i + 1, (left - 1) as nat, timestamp, category, in_seconds) {
                    Ok(s) => Ok(seq![v] + s),
                    Err(e) => Err(e),
                }
            } else {
                walk_index(t, data, dict, tags, i + 1, left, timestamp, category, in_seconds)
            },
        }
    }
}

fn collect_indexed(
    entries: &[(i64, u32, u16)],
    data: &[u8],
    dict: &[u8],
    tags: &TagTables,
    count: usize,
    timestamp: i64,
    category: i8,
    in_seconds: bool,
) -> (res: VCRResult<Vec<FeedEvent>>)
    requires
        in_seconds ==> second_times(entries@),
    ensures
        match walk_index(entries@, data@, dict@, tags@, 0, count as nat, timestamp, category, in_seconds) {
            Err(e) => res == Err::<Vec<FeedEvent>, VCRError>(e),
            Ok(s) => (res matches Ok(v) && event_views(v@) == s),
        },
        res matches Ok(v) ==> only_category(v@, count, category) && not_after(v@, timestamp, in_seconds),
{
    proof {
        lemma_walk_index_wanted(entries@, data@, dict@, tags@, 0, count as nat, timestamp, category, in_seconds);
    }
    let mut idx: usize = 0;
    let mut events: Vec<FeedEvent> = Vec::new();
    while idx < entries.len() && events.len() < count
        invariant
            events@.len() <= count,
            in_seconds ==> second_times(entries@),
            walk_index(entries@, data@, dict@, tags@, 0, count as nat, timestamp, category, in_seconds) == match walk_index(
                entries@, data@, dict@, tags@, idx as int, (count - events@.len()) as nat, timestamp, category, in_seconds) {
                Ok(s) => Ok::<Seq<FeedEventView>, VCRError>(event_views(events@) + s),
                Err(e) => Err(e),
            },
        decreases entries@.len() - idx,
    {
        let (time, offset, length) = entries[idx];
        if time <= timestamp {
            let ghost before = events@;
            let created: i64 = if in_seconds {
                assert(0 <= entries@[idx as int].0 <= u32::MAX);
                time * 1000
            } else {
                time
            };
            let e = match read_event(data, dict, offset, length, created, tags) {
                Ok(e) => e,
                Err(err) => return Err(err),
            };
            if category == -3 || e.category == category {
                events.push(e);
                proof {
                    assert(event_views(events@) =~= event_views(before) + seq![e@]);
                    let rest = walk_index(entries@, data@, dict@, tags@, idx + 1, (count - events@.len()) as nat, timestamp, category, in_seconds);
                    if let Ok(s) = rest {
                        assert(event_views(before) + (seq![e@] + s) =~= event_views(events@) + s);
                    }
                }
            }
        }
        idx = idx + 1;
    }
    proof {
        assert(event_views(events@) + Seq::<FeedEventView>::empty() =~= event_views(events@));
        assert forall|k: int| 0 <= k < events@.len() implies category == -3 || (#[trigger] events@[k]).category == category by {
            assert(event_views(events@)[k] == events@[k]@);
        }
        assert forall|k: int| 0 <= k < events@.len() implies (#[trigger] events@[k]).created_millis
            <= (if in_seconds { timestamp * 1000 } else { timestamp as int }) by {
            assert(event_views(events@)[k] == events@[k]@);
        }
    }
    Ok(events)
}

impl SortKey for FeedEvent {
    open spec fn spec_sort_key(&self) -> int {
        self.created_millis as int
    }

    fn sort_key(&self) -> (k: i128) {
        self.created_millis as i128
    }
}

pub open spec fn by_created() -> spec_fn(FeedEvent) -> int {
    |e: FeedEvent| e.created_millis as int
}

pub open spec fn by_view_created() -> spec_fn(FeedEventView) -> int {
    |e: FeedEventView| e.created_millis as int
}

pub open spec fn feed_view_fn() -> spec_fn(FeedEvent) -> FeedEventView {
    |e: FeedEvent| e@
}

/// The sequence with each run of equal neighbours cut to its first element.
pub open spec fn dedup<T>(s: Seq<T>) -> Seq<T>
    decreases s.len(),
{
    if s.len() <= 1 {
        s
    } else {
        let d = dedup(s.drop_last());
        if s.last() == s[s.len() - 2] {
            d
        } else {
            d.push(s.last())
        }
    }
}

/// Dropping repeated neighbours keeps at most the records there were, and only records that
/// were there.
proof fn lemma_dedup_keeps<T>(s: Seq<T>, p: spec_fn(T) -> bool)
    requires
        forall|k: int| 0 <= k < s.len() ==> p(#[trigger] s[k]),
    ensures
        dedup(s).len() <= s.len(),
        forall|k: int| 0 <= k < dedup(s).len() ==> p(#[trigger] dedup(s)[k]),
    decreases s.len(),
{
    if s.len() > 1 {
        let d = dedup(s.drop_last());
        lemma_dedup_keeps(s.drop_last(), p);
        assert(p(s[s.len() - 1]));
        if s.last() != s[s.len() - 2] {
            assert forall|k: int| 0 <= k < d.push(s.last()).len() implies p(#[trigger] d.push(s.last())[k]) by {
                if k < d.len() {
                    assert(d.push(s.last())[k] == d[k]);
                }
            }
        }
    }
}

proof fn lemma_dedup_last<T>(s: Seq<T>)
    requires
        s.len() > 0,
    ensures
        dedup(s).len() > 0,
        dedup(s).last() == s.last(),
    decreases s.len(),
{
    if s.len() > 1 {
        lemma_dedup_last(s.drop_last());
    }
}

/// The events ordered by creation time (a stable sort), with repeated neighbours dropped,
/// newest first.
pub open spec fn newest_first(s: Seq<FeedEventView>) -> Seq<FeedEventView> {
    dedup(stable_sort(s, by_view_created())).reverse()
}

fn sort_events(v: Vec<FeedEvent>) -> (res: Vec<FeedEvent>)
    ensures
        res@ == stable_sort(v@, by_created()),
{
    proof {
        assert(by_created() =~= by_sort_key::<FeedEvent>());
    }
    stable_sort_vec(v)
}

fn uuids_eq(a: &Vec<[u8; 16]>, b: &Vec<[u8; 16]>) -> (res: bool)
    ensures
        res == (uuid_seqs(a@) == uuid_seqs(b@)),
{
    if a.len() != b.len() {
        assert(uuid_seqs(a@).len() != uuid_seqs(b@).len());
        return false;
    }
    let mut i: usize = 0;
    while i < a.len()
        invariant
            a@.len() == b@.len(),
            i <= a@.len(),
            forall|j: int| 0 <= j < i ==> (#[trigger] a@[j])@ == b@[j]@,
        decreases a@.len() - i,
    {
        if !arrays_eq(&a[i], &b[i]) {
            assert(uuid_seqs(a@)[i as int] != uuid_seqs(b@)[i as int]);
            return false;
        }
        i = i + 1;
    }
    assert(uuid_seqs(a@) =~= uuid_seqs(b@));
    true
}

fn opt_uuids_eq(a: &Option<Vec<[u8; 16]>>, b: &Option<Vec<[u8; 16]>>) -> (res: bool)
    ensures
        res == (opt_uuids(*a) == opt_uuids(*b)),
{
    match (a, b) {
        (Some(x), Some(y)) => uuids_eq(x, y),
        (None, None) => true,
        _ => false,
    }
}

/// Whether two feed events hold the same values.
pub fn same_event(a: &FeedEvent, b: &FeedEvent) -> (res: bool)
    ensures
        res == (a@ == b@),
{
    a.category == b.category && a.created_millis == b.created_millis && a.day == b.day
        && a.nuts == b.nuts && a.phase == b.phase && a.etype == b.etype && a.tournament == b.tournament
        && a.season == b.season && arrays_eq(&a.id, &b.id) && a.description == b.description
        && opt_uuids_eq(&a.player_tags, &b.player_tags) && opt_uuids_eq(&a.game_tags, &b.game_tags)
        && opt_uuids_eq(&a.team_tags, &b.team_tags)
        && bytes_eq(a.metadata.as_slice(), b.metadata.as_slice())
}

fn dedup_events(v: Vec<FeedEvent>) -> (res: Vec<FeedEvent>)
    ensures
        event_views(res@) == dedup(event_views(v@)),
{
    let ghost orig = v@;
    let ghost n = orig.len();
    let ghost w = event_views(orig);
    let mut pending = reversed(v);
    let mut out: Vec<FeedEvent> = Vec::new();
    let ghost mut i: int = 0;
    assert(w.subrange(0, 0) =~= Seq::<FeedEventView>::empty());
    assert(event_views(out@) =~= Seq::<FeedEventView>::empty());
    while pending.len() > 0
        invariant
            n == orig.len(),
            0 <= i <= n,
            w == event_views(orig),
            pending@.len() == n - i,
            forall|j: int| 0 <= j < pending@.len() ==> pending@[j] == orig[n - 1 - j],
            event_views(out@) == dedup(w.subrange(0, i)),
        decreases pending@.len(),
    {
        let x = pending.pop().unwrap();
        let ghost before = out@;
        proof {
            let pre = w.subrange(0, i + 1);
            assert(pre.drop_last() =~= w.subrange(0, i));
            assert(orig[i] == x);
            assert(pre.last() == x@);
            if i > 0 {
                lemma_dedup_last(w.subrange(0, i));
                assert(pre[pre.len() - 2] == w.subrange(0, i).last());
                assert(event_views(out@).last() == out@[out@.len() - 1]@);
            } else {
                assert(pre =~= seq![x@]);
            }
        }
        let keep = if out.len() == 0 {
            true
        } else {
            let last = out.len() - 1;
            !same_event(&out[last], &x)
        };
        if keep {
            out.push(x);
            proof {
                assert(event_views(out@) =~= event_views(before).push(x@));
            }
        }
        proof {
            i = i + 1;
        }
    }
    assert(w.subrange(0, orig.len() as int) =~= w);
    out
}

fn reverse_events(v: Vec<FeedEvent>) -> (res: Vec<FeedEvent>)
    ensures
        event_views(res@) == event_views(v@).reverse(),
{
    let r = reversed(v);
    assert(event_views(r@) =~= event_views(v@).reverse());
    r
}

/// Up to `count` events of a category (-3 for every one) from the index list of a tag, among
/// those whose time (in seconds) is not after `timestamp`, each created at its entry's time;
/// then ordered by time, repeated neighbours dropped, newest first.
pub fn events_for_tag(
    entries: &[(i64, u32, u16)],
    data: &[u8],
    dict: &[u8],
    tags: &TagTables,
    timestamp: i64,
    count: usize,
    category: i8,
) -> (res: VCRResult<Vec<FeedEvent>>)
    requires
        second_times(entries@),
    ensures
        match walk_index(entries@, data@, dict@, tags@, 0, count as nat, timestamp, category, true) {
            Err(e) => res == Err::<Vec<FeedEvent>, VCRError>(e),
            Ok(s) => (res matches Ok(v) && event_views(v@) == newest_first(s)),
        },
        res matches Ok(v) ==> only_category(v@, count, category) && not_after(v@, timestamp, true),
{
    let found = collect_indexed(entries, data, dict, tags, count, timestamp, category, true)?;
    let ghost wanted = |x: FeedEventView| (category == -3 || x.category == category) && x.created_millis <= timestamp * 1000;
    let sorted = sort_events(found);
    proof {
        lemma_stable_sort_map(found@, feed_view_fn(), by_created(), by_view_created());
        assert(event_views(found@) == found@.map_values(feed_view_fn()));
        assert(event_views(sorted@) == sorted@.map_values(feed_view_fn()));
        assert forall|k: int| 0 <= k < event_views(found@).len() implies #[trigger] wanted(event_views(found@)[k]) by {
            assert(event_views(found@)[k] == found@[k]@);
        }
        lemma_stable_sort_keeps(event_views(found@), by_view_created(), wanted);
        lemma_stable_sort_len(event_views(found@), by_view_created());
    }
    let unique = dedup_events(sorted);
    proof {
        lemma_dedup_keeps(event_views(sorted@), wanted);
    }
    let res = reverse_events(unique);
    proof {
        let n = res@.len();
        assert(event_views(res@).len() == n);
        assert(event_views(unique@).len() == n);
        assert(event_views(res@) == event_views(unique@).reverse());
        assert forall|k: int| 0 <= k < res@.len() implies (category == -3 || (#[trigger] res@[k]).category == category)
            && res@[k].created_millis <= timestamp * 1000 by {
            assert(event_views(res@)[k] == res@[k]@);
            assert(event_views(unique@)[res@.len() - 1 - k] == event_views(res@)[k]);
            assert(wanted(event_views(unique@)[res@.len() - 1 - k]));
        }
    }
    Ok(res)
}

/// The first `count` events of the index list of a phase, in the list's order, each created at
/// its entry's time (in milliseconds).
pub fn events_in_phase(
    entries: &[(i64, u32, u16)],
    data: &[u8],
    dict: &[u8],
    tags: &TagTables,
    count: usize,
) -> (res: VCRResult<Vec<FeedEvent>>)
    ensures
        match walk_index(entries@, data@, dict@, tags@, 0, count as nat, i64::MAX, -3i8, false) {
            Err(e) => res == Err::<Vec<FeedEvent>, VCRError>(e),
            Ok(s) => (res matches Ok(v) && event_views(v@) == s),
        },
        res matches Ok(v) ==> v@.len() <= count,
{
    collect_indexed(entries, data, dict, tags, count, i64::MAX, -3, false)
}


/// The index entries stored under a key: the entries of every section with that key, in the
/// order of the sections.
pub open spec fn keyed_entries(s: Seq<IndexSection>, key: u16) -> Seq<(i64, u32, u16)>
    decreases s.len(),
{
    if s.len() == 0 {
        Seq::empty()
    } else {
        keyed_entries(s.drop_last(), key) + if s.last().key == key {
            s.last().entries@
        } else {
            Seq::empty()
        }
    }
}

/// The index entries of a key (a tag's table index, or a season and phase as two bytes), or
/// `None` when no section has that key.
pub fn index_entries(sections: &[IndexSection], key: u16) -> (res: Option<Vec<(i64, u32, u16)>>)
    ensures
        res is Some <==> exists|i: int| 0 <= i < sections@.len() && #[trigger] sections@[i].key == key,
        res matches Some(v) ==> v@ == keyed_entries(sections@, key),
{
    let mut out: Vec<(i64, u32, u16)> = Vec::new();
    let mut found = false;
    let mut i: usize = 0;
    while i < sections.len()
        invariant
            i <= sections@.len(),
            out@ == keyed_entries(sections@.subrange(0, i as int), key),
            found <==> exists|j: int| 0 <= j < i && #[trigger] sections@[j].key == key,
        decreases sections@.len() - i,
    {
        proof {
            let pre = sections@.subrange(0, i + 1);
            assert(pre.drop_last() =~= sections@.subrange(0, i as int));
            assert(pre.last() == sections@[i as int]);
        }
        if sections[i].key == key {
            let mut k: usize = 0;
            let ghost base = out@;
            while k < sections[i].entries.len()
                invariant
                    i < sections@.len(),
                    k <= sections@[i as int].entries@.len(),
                    out@ == base + sections@[i as int].entries@.subrange(0, k as int),
                decreases sections@[i as int].entries@.len() - k,
            {
                out.push(sections[i].entries[k]);
                proof {
                    assert(sections@[i as int].entries@.subrange(0, k + 1) =~= sections@[i as int].entries@.subrange(0, k as int).push(sections@[i as int].entries@[k as int]));
                }
                k = k + 1;
            }
            assert(sections@[i as int].entries@.subrange(0, k as int) =~= sections@[i as int].entries@);
            found = true;
        } else {
            assert(out@ =~= out@ + Seq::<(i64, u32, u16)>::empty());
        }
        i = i + 1;
    }
    assert(sections@.subrange(0, sections@.len() as int) =~= sections@);
    if found {
        Some(out)
    } else {
        None
    }
}

/// Reads the stored position table: a zstd frame of six-byte records, turned into the table
/// ordered by time.
pub fn read_offset_table(compressed: &[u8]) -> (res: VCRResult<Vec<(u32, (u32, u16))>>)
    ensures
        match zstd_stream_decompress(None, compressed@) {
            None => res == Err::<Vec<(u32, (u32, u16))>, VCRError>(VCRError::CompressionError),
            Some(b) => (res matches Ok(t) && t@ == stable_sort(offset_entries(b), by_time_key::<(u32, (u32, u16))>())
                && keys_sorted(t@)),
        },
{
    let raw = stream_decompress(None, compressed)?;
    Ok(make_offset_table(raw.as_slice()))
}

/// Reads the stored tag and phase indexes: a zstd frame holding the four indexes.
pub fn read_feed_indexes(compressed: &[u8]) -> (res: VCRResult<FeedIndexes>)
    ensures
        match zstd_stream_decompress(None, compressed@) {
            None => res == Err::<FeedIndexes, VCRError>(VCRError::CompressionError),
            Some(b) => match spec_feed_indexes(b) {
                Err(e) => res == Err::<FeedIndexes, VCRError>(e),
                Ok(all) => (res matches Ok(ix)
                    && ix.game_index@.map_values(|s: IndexSection| section_view(s)) == all[0]
                    && ix.player_index@.map_values(|s: IndexSection| section_view(s)) == all[1]
                    && ix.team_index@.map_values(|s: IndexSection| section_view(s)) == all[2]
                    && ix.phase_index@.map_values(|s: IndexSection| section_view(s)) == all[3]),
            },
        },
{
    let raw = stream_decompress(None, compressed)?;
    parse_feed_indexes(raw.as_slice())
}

/// A forward walk gives at most the events asked for, and for a category other than -3 only
/// events of exactly that category.
pub proof fn lemma_walk_forward_wanted(
    t: Seq<(u32, (u32, u16))>,
    data: Seq<u8>,
    dict: Seq<u8>,
    tags: TagTablesView,
    i: int,
    left: nat,
    category: i8,
)
    ensures
        walk_forward(t, data, dict, tags, i, left, category) matches Ok(s) ==> s.len() <= left
            && forall|k: int| 0 <= k < s.len() ==> (category == -3 || (#[trigger] s[k]).category == category),
    decreases t.len() - i,
{
    if !(i < 0 || i >= t.len() || left == 0) {
        if let Ok(v) = spec_read_event(data, dict, t[i].1.0 as int, t[i].1.1 as int, seconds_millis(t[i].0), tags) {
            if category_wanted(category, v.category) {
                lemma_walk_forward_wanted(t, data, dict, tags, i + 1, (left - 1) as nat, category);
                if let Ok(rest) = walk_forward(t, data, dict, tags, i + 1, (left - 1) as nat, category) {
                    let s = seq![v] + rest;
                    assert forall|k: int| 0 <= k < s.len() implies (category == -3 || (#[trigger] s[k]).category == category) by {
                        if k > 0 {
                            assert(s[k] == rest[k - 1]);
                        }
                    }
                }
            } else {
                lemma_walk_forward_wanted(t, data, dict, tags, i + 1, left, category);
            }
        }
    }
}

/// A backward walk gives at most the events asked for, and for a category other than -3 only
/// events of exactly that category.
pub proof fn lemma_walk_backward_wanted(
    t: Seq<(u32, (u32, u16))>,
    data: Seq<u8>,
    dict: Seq<u8>,
    tags: TagTablesView,
    i: int,
    left: nat,
    category: i8,
)
    ensures
        walk_backward(t, data, dict, tags, i, left, category) matches Ok(s) ==> s.len() <= left
            && forall|k: int| 0 <= k < s.len() ==> (category == -3 || (#[trigger] s[k]).category == category),
    decreases i,
{
    if !(i <= 0 || i >= t.len() || left == 0) {
        if let Ok(v) = spec_read_event(data, dict, t[i].1.0 as int, t[i].1.1 as int, seconds_millis(t[i].0), tags) {
            if category_wanted(category, v.category) {
                lemma_walk_backward_wanted(t, data, dict, tags, i - 1, (left - 1) as nat, category);
                if let Ok(rest) = walk_backward(t, data, dict, tags, i - 1, (left - 1) as nat, category) {
                    let s = seq![v] + rest;
                    assert forall|k: int| 0 <= k < s.len() implies (category == -3 || (#[trigger] s[k]).category == category) by {
                        if k > 0 {
                            assert(s[k] == rest[k - 1]);
                        }
                    }
                }
            } else {
                lemma_walk_backward_wanted(t, data, dict, tags, i - 1, left, category);
            }
        }
    }
}

/// A walk over an index list gives at most the events asked for, for a category other than -3
/// only events of exactly that category, and none created after the time asked for.
pub proof fn lemma_walk_index_wanted(
    t: Seq<(i64, u32, u16)>,
    data: Seq<u8>,
    dict: Seq<u8>,
    tags: TagTablesView,
    i: int,
    left: nat,
    timestamp: i64,
    category: i8,
    in_seconds: bool,
)
    requires
        in_seconds ==> second_times(t),
    ensures
        walk_index(t, data, dict, tags, i, left, timestamp, category, in_seconds) matches Ok(s) ==> s.len() <= left
            && forall|k: int| 0 <= k < s.len() ==> (category == -3 || (#[trigger] s[k]).category == category)
                && s[k].created_millis <= (if in_seconds { timestamp * 1000 } else { timestamp as int }),
    decreases t.len() - i,
{
    if !(i < 0 || i >= t.len() || left == 0) {
        if t[i].0 > timestamp {
            lemma_walk_index_wanted(t, data, dict, tags, i + 1, left, timestamp, category, in_seconds);
        } else if let Ok(v) = spec_read_event(data, dict, t[i].1 as int, t[i].2 as int, entry_millis(t[i].0, in_seconds), tags) {
            if category_wanted(category, v.category) {
                lemma_walk_index_wanted(t, data, dict, tags, i + 1, (left - 1) as nat, timestamp, category, in_seconds);
                if in_seconds {
                    assert(0 <= t[i].0 <= u32::MAX);
                }
                if let Ok(rest) = walk_index(t, data, dict, tags, i + 1, (left - 1) as nat, timestamp, category, in_seconds) {
                    let s = seq![v] + rest;
                    assert forall|k: int| 0 <= k < s.len() implies (category == -3 || (#[trigger] s[k]).category == category)
                        && s[k].created_millis <= (if in_seconds { timestamp * 1000 } else { timestamp as int }) by {
                        if k > 0 {
                            assert(s[k] == rest[k - 1]);
                        }
                    }
                }
            } else {
                lemma_walk_index_wanted(t, data, dict, tags, i + 1, left, timestamp, category, in_seconds);
            }
        }
    }
}

/// The events of a forward walk are created no earlier than the earliest time of the entries
/// walked, and, over a table ordered by time, in order of creation.
pub proof fn lemma_walk_forward_times(
    t: Seq<(u32, (u32, u16))>,
    data: Seq<u8>,
    dict: Seq<u8>,
    tags: TagTablesView,
    i: int,
    left: nat,
    category: i8,
    lo: int,
)
    requires
        0 <= i,
        forall|j: int| i <= j < t.len() ==> lo <= (#[trigger] t[j]).0,
    ensures
        walk_forward(t, data, dict, tags, i, left, category) matches Ok(s) ==> (forall|k: int| 0 <= k < s.len()
            ==> lo * 1000 <= (#[trigger] s[k]).created_millis) && (keys_sorted(t) ==> forall|k1: int, k2: int|
            0 <= k1 < k2 < s.len() ==> (#[trigger] s[k1]).created_millis <= (#[trigger] s[k2]).created_millis),
    decreases t.len() - i,
{
    if !(i >= t.len() || left == 0) {
        if let Ok(v) = spec_read_event(data, dict, t[i].1.0 as int, t[i].1.1 as int, seconds_millis(t[i].0), tags) {
            assert(v.created_millis == t[i].0 as int * 1000);
            if category_wanted(category, v.category) {
                let n = (left - 1) as nat;
                lemma_walk_forward_times(t, data, dict, tags, i + 1, n, category, lo);
                if keys_sorted(t) {
                    assert forall|j: int| i + 1 <= j < t.len() implies t[i].0 <= (#[trigger] t[j]).0 by {
                        assert(t[i].time_key() <= t[j].time_key());
                    }
                    lemma_walk_forward_times(t, data, dict, tags, i + 1, n, category, t[i].0 as int);
                }
                if let Ok(rest) = walk_forward(t, data, dict, tags, i + 1, n, category) {
                    let s = seq![v] + rest;
                    assert forall|k: int| 0 <= k < s.len() implies lo * 1000 <= (#[trigger] s[k]).created_millis by {
                        if k > 0 {
                            assert(s[k] == rest[k - 1]);
                        }
                    }
                    if keys_sorted(t) {
                        assert forall|k1: int, k2: int| 0 <= k1 < k2 < s.len() implies
                            (#[trigger] s[k1]).created_millis <= (#[trigger] s[k2]).created_millis by {
                            assert(s[k2] == rest[k2 - 1]);
                            if k1 > 0 {
                                assert(s[k1] == rest[k1 - 1]);
                            }
                        }
                    }
                }
            } else {
                lemma_walk_forward_times(t, data, dict, tags, i + 1, left, category, lo);
            }
        }
    }
}

/// The events of a backward walk are created no later than the latest time of the entries
/// walked, and, over a table ordered by time, newest first.
pub proof fn lemma_walk_backward_times(
    t: Seq<(u32, (u32, u16))>,
    data: Seq<u8>,
    dict: Seq<u8>,
    tags: TagTablesView,
    i: int,
    left: nat,
    category: i8,
    hi: int,
)
    requires
        forall|j: int| 0 <= j <= i && j < t.len() ==> (#[trigger] t[j]).0 <= hi,
    ensures
        walk_backward(t, data, dict, tags, i, left, category) matches Ok(s) ==> (forall|k: int| 0 <= k < s.len()
            ==> (#[trigger] s[k]).created_millis <= hi * 1000) && (keys_sorted(t) ==> forall|k1: int, k2: int|
            0 <= k1 < k2 < s.len() ==> (#[trigger] s[k1]).created_millis >= (#[trigger] s[k2]).created_millis),
    decreases i,
{
    if !(i <= 0 || i >= t.len() || left == 0) {
        if let Ok(v) = spec_read_event(data, dict, t[i].1.0 as int, t[i].1.1 as int, seconds_millis(t[i].0), tags) {
            assert(v.created_millis == t[i].0 as int * 1000);
            if category_wanted(category, v.category) {
                let n = (left - 1) as nat;
                lemma_walk_backward_times(t, data, dict, tags, i - 1, n, category, hi);
                if keys_sorted(t) {
                    assert forall|j: int| 0 <= j <= i - 1 && j < t.len() implies (#[trigger] t[j]).0 <= t[i].0 by {
                        assert(t[j].time_key() <= t[i].time_key());
                    }
                    lemma_walk_backward_times(t, data, dict, tags, i - 1, n, category, t[i].0 as int);
                }
                if let Ok(rest) = walk_backward(t, data, dict, tags, i - 1, n, category) {
                    let s = seq![v] + rest;
                    assert forall|k: int| 0 <= k < s.len() implies (#[trigger] s[k]).created_millis <= hi * 1000 by {
                        if k > 0 {
                            assert(s[k] == rest[k - 1]);
                        }
                    }
                    if keys_sorted(t) {
                        assert forall|k1: int, k2: int| 0 <= k1 < k2 < s.len() implies
                            (#[trigger] s[k1]).created_millis >= (#[trigger] s[k2]).created_millis by {
                            assert(s[k2] == rest[k2 - 1]);
                            if k1 > 0 {
                                assert(s[k1] == rest[k1 - 1]);
                            }
                        }
                    }
                }
            } else {
                lemma_walk_backward_times(t, data, dict, tags, i - 1, left, category, hi);
            }
        }
    }
}

} // verus!
