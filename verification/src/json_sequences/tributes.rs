use vstd::prelude::*;
use std::collections::HashMap;
use crate::{VCRError, VCRResult};
use crate::bytes::{from_be16, from_be32};
use crate::varint::{lemma_scan_bounds, varint_u16_read, varint_u8_read, varint_u64_read, read_varint_u16, read_varint_u8, read_varint_u64};
use crate::search::{SortKey, stable_sort, stable_sort_vec, by_sort_key, lemma_stable_sort_map, lemma_stable_sort_orders, lemma_stable_sort_len, lemma_stable_sort_permutes};

verus! {

broadcast use vstd::std_specs::hash::group_hash_axioms;

/// From this time (in seconds) on, tributes are kept for teams and players apart; before it,
/// every holder is listed as a player.
pub const TEAMS_EPOCH: u32 = 1623642600;

/// The id table as plain values: index to (UUID bytes, whether it names a team).
pub open spec fn ids_view(m: &HashMap<u16, ([u8; 16], bool)>) -> Map<u16, (Seq<u8>, bool)> {
    m@.map_values(|e: ([u8; 16], bool)| (e.0@, e.1))
}

/// Reads id table entries from `p` up to `end`. Each entry is a UUID and two big-endian bytes
/// whose top bit marks a team and whose low twelve bits are the entry's index; a later entry
/// for an index replaces an earlier one. A table whose length is not a whole number of
/// entries cannot be read.
pub open spec fn spec_tribute_ids(b: Seq<u8>, p: int, end: int, m: Map<u16, (Seq<u8>, bool)>) -> Result<Map<u16, (Seq<u8>, bool)>, VCRError>
    decreases end - p,
{
    if p >= end {
        Ok(m)
    } else if p + 18 > end {
        Err(VCRError::Malformed)
    } else {
        let v = from_be16(b, p + 16);
        spec_tribute_ids(b, p + 18, end, m.insert((v % 4096) as u16, (b.subrange(p, p + 16), v >= 0x8000)))
    }
}

/// The records that follow the id table: ten bytes each (time, start and length, big-endian),
/// as many as fit.
pub open spec fn tribute_times(b: Seq<u8>, p: int) -> Seq<(u32, u32, u16)> {
    Seq::new(((b.len() - p) / 10) as nat, |i: int| (from_be32(b, p + 10 * i), from_be32(b, p + 10 * i + 4), from_be16(b, p + 10 * i + 8)))
}

/// Reads the tributes header: the id table's length (four bytes, big-endian), the table, and
/// the records.
pub open spec fn spec_tribute_header(b: Seq<u8>) -> Result<(Map<u16, (Seq<u8>, bool)>, Seq<(u32, u32, u16)>), VCRError> {
    if b.len() < 4 {
        Err(VCRError::UnexpectedEof)
    } else {
        let l = from_be32(b, 0) as int;
        if 4 + l > b.len() {
            Err(VCRError::UnexpectedEof)
        } else {
            match spec_tribute_ids(b, 4, 4 + l, Map::empty()) {
                Err(e) => Err(e),
                Ok(m) => Ok((m, tribute_times(b, 4 + l))),
            }
        }
    }
}

/// The tributes header: the id table and, for each stored record, its time, start and length.
pub struct TributesHeader {
    pub ids: HashMap<u16, ([u8; 16], bool)>,
    pub times: Vec<(u32, u32, u16)>,
}

/// Reads the tributes header.
pub fn parse_tribute_header(b: &[u8]) -> (res: VCRResult<TributesHeader>)
    ensures
        match spec_tribute_header(b@) {
            Ok((m, t)) => res matches Ok(h) && ids_view(&h.ids) == m && h.times@ == t,
            Err(e) => res matches Err(e2) && e2 == e,
        },
{
    let n = b.len();
    if n < 4 {
        return Err(VCRError::UnexpectedEof);
    }
    let l: u32 = b[0] as u32 * 0x100_0000 + b[1] as u32 * 0x1_0000 + b[2] as u32 * 256 + b[3] as u32;
    if l as usize > n - 4 {
        return Err(VCRError::UnexpectedEof);
    }
    assert(l == from_be32(b@, 0));
    let end = 4 + l as usize;
    let mut ids: HashMap<u16, ([u8; 16], bool)> = HashMap::new();
    assert(ids_view(&ids) =~= Map::<u16, (Seq<u8>, bool)>::empty());
    let mut p: usize = 4;
    while p < end
        invariant
            n == b@.len(),
            n >= 4,
            end as int == 4 + from_be32(b@, 0) as int,
            4 <= p,
            end <= n,
            spec_tribute_ids(b@, 4, end as int, Map::empty()) == spec_tribute_ids(b@, p as int, end as int, ids_view(&ids)),
        decreases end - p,
    {
        if end - p < 18 {
            return Err(VCRError::Malformed);
        }
        let mut id: [u8; 16] = [0u8; 16];
        let mut k: usize = 0;
        while k < 16
            invariant
                k <= 16,
                n == b@.len(),
                p + 18 <= n,
                forall|j: int| 0 <= j < k ==> id@[j] == b@[p + j],
            decreases 16 - k,
        {
            id[k] = b[p + k];
            k = k + 1;
        }
        assert(id@ =~= b@.subrange(p as int, p + 16));
        let v: u16 = b[p + 16] as u16 * 256 + b[p + 17] as u16;
        assert(v == from_be16(b@, p + 16));
        let is_team = v >= 0x8000;
        let idx: u16 = v % 4096;
        let ghost before = ids_view(&ids);
        ids.insert(idx, (id, is_team));
        proof {
            assert(ids_view(&ids) =~= before.insert(idx, (b@.subrange(p as int, p + 16), is_team)));
        }
        p = p + 18;
    }
    assert(spec_tribute_ids(b@, end as int, end as int, ids_view(&ids)) == Ok::<Map<u16, (Seq<u8>, bool)>, VCRError>(ids_view(&ids)));
    let mut times: Vec<(u32, u32, u16)> = Vec::new();
    let mut q = end;
    let ghost t = tribute_times(b@, end as int);
    while n - q >= 10
        invariant
            n == b@.len(),
            end <= q <= n,
            (q - end) % 10 == 0,
            t == tribute_times(b@, end as int),
            times@ == t.subrange(0, (q - end) / 10),
        decreases n - q,
    {
        let a: u32 = b[q] as u32 * 0x100_0000 + b[q + 1] as u32 * 0x1_0000 + b[q + 2] as u32 * 256 + b[q + 3] as u32;
        let s: u32 = b[q + 4] as u32 * 0x100_0000 + b[q + 5] as u32 * 0x1_0000 + b[q + 6] as u32 * 256 + b[q + 7] as u32;
        let c: u16 = b[q + 8] as u16 * 256 + b[q + 9] as u16;
        proof {
            let i = (q - end) / 10;
            assert(end + 10 * i == q);
            assert(t[i] == (a, s, c));
            assert(t.subrange(0, i + 1) =~= t.subrange(0, i).push(t[i]));
        }
        times.push((a, s, c));
        q = q + 10;
    }
    proof {
        assert((q - end) / 10 == t.len());
        assert(t.subrange(0, t.len() as int) =~= t);
    }
    Ok(TributesHeader { ids, times })
}

/// A holder's tributes: UUID bytes, whether it is a team, and its peanuts.
pub open spec fn entry_view(e: ([u8; 16], bool, u64)) -> (Seq<u8>, bool, u64) {
    (e.0@, e.1, e.2)
}

pub open spec fn state_view(v: Seq<([u8; 16], bool, u64)>) -> Seq<(Seq<u8>, bool, u64)> {
    v.map_values(|e: ([u8; 16], bool, u64)| entry_view(e))
}

/// The position of the holder `(id, team)` in the state, scanning from `j`; the length of the
/// state when it is not there.
pub open spec fn key_index(s: Seq<(Seq<u8>, bool, u64)>, id: Seq<u8>, team: bool, j: int) -> int
    decreases s.len() - j,
{
    if j < 0 || j >= s.len() || (s[j].0 == id && s[j].1 == team) {
        j
    } else {
        key_index(s, id, team, j + 1)
    }
}

/// Sets a holder's peanuts: in place when it is held, else at the end.
pub open spec fn spec_put(s: Seq<(Seq<u8>, bool, u64)>, id: Seq<u8>, team: bool, val: u64) -> Seq<(Seq<u8>, bool, u64)> {
    let i = key_index(s, id, team, 0);
    if i < s.len() {
        s.update(i, (id, team, val))
    } else {
        s.push((id, team, val))
    }
}

/// Removes a holder, when it is held.
pub open spec fn spec_drop(s: Seq<(Seq<u8>, bool, u64)>, id: Seq<u8>, team: bool) -> Seq<(Seq<u8>, bool, u64)> {
    let i = key_index(s, id, team, 0);
    if i < s.len() {
        s.remove(i)
    } else {
        s
    }
}

/// Reads `k` removals from `p`: each an index (variable-length) whose holder is removed. An
/// index missing from the id table cannot be resolved.
pub open spec fn spec_removals(b: Seq<u8>, p: int, k: nat, ids: Map<u16, (Seq<u8>, bool)>, s: Seq<(Seq<u8>, bool, u64)>) -> Result<(Seq<(Seq<u8>, bool, u64)>, int), VCRError>
    decreases k,
{
    if k == 0 {
        Ok((s, p))
    } else {
        match spec_removals(b, p, (k - 1) as nat, ids, s) {
            Err(e) => Err(e),
            Ok((s1, p1)) => if p1 < 0 || p1 > b.len() {
                Err(VCRError::Malformed)
            } else {
                let (r, c) = varint_u16_read(b.subrange(p1, b.len() as int));
                match r {
                    Err(e) => Err(e),
                    Ok(ridx) => if !ids.contains_key(ridx) {
                        Err(VCRError::Malformed)
                    } else {
                        Ok((spec_drop(s1, ids[ridx].0, ids[ridx].1), p1 + c))
                    },
                }
            },
        }
    }
}

/// Applies one stored record to the state, reading entries from `p` until an index can no
/// longer be read. Index 0 starts a removal list (a count, then that many indices); any other
/// index is followed by the holder's new peanuts.
pub open spec fn spec_apply_record(b: Seq<u8>, p: int, ids: Map<u16, (Seq<u8>, bool)>, s: Seq<(Seq<u8>, bool, u64)>) -> Result<Seq<(Seq<u8>, bool, u64)>, VCRError>
    decreases b.len() - p,
{
    if p < 0 || p > b.len() {
        Err(VCRError::Malformed)
    } else {
        let (r, c) = varint_u16_read(b.subrange(p, b.len() as int));
        match r {
            Err(_) => Ok(s),
            Ok(idx) => {
                let q = p + c;
                if c < 1 || q > b.len() {
                    Err(VCRError::Malformed)
                } else if idx == 0 {
                    let (r2, c2) = varint_u8_read(b.subrange(q, b.len() as int));
                    match r2 {
                        Err(e) => Err(e),
                        Ok(n) => match spec_removals(b, q + c2, n as nat, ids, s) {
                            Err(e) => Err(e),
                            Ok((s2, q2)) => if q2 <= p || q2 > b.len() {
                                Err(VCRError::Malformed)
                            } else {
                                spec_apply_record(b, q2, ids, s2)
                            },
                        },
                    }
                } else {
                    let (r3, c3) = varint_u64_read(b.subrange(q, b.len() as int));
                    match r3 {
                        Err(e) => Err(e),
                        Ok(val) => if c3 < 1 || q + c3 > b.len() {
                            Err(VCRError::Malformed)
                        } else if !ids.contains_key(idx) {
                            Err(VCRError::Malformed)
                        } else {
                            spec_apply_record(b, q + c3, ids, spec_put(s, ids[idx].0, ids[idx].1, val))
                        },
                    }
                }
            },
        }
    }
}

fn same_id(a: &[u8; 16], b: &[u8; 16]) -> (res: bool)
    ensures
        res == (a@ == b@),
{
    let mut i: usize = 0;
    while i < 16
        invariant
            i <= 16,
            forall|j: int| 0 <= j < i ==> a@[j] == b@[j],
        decreases 16 - i,
    {
        if a[i] != b[i] {
            return false;
        }
        i = i + 1;
    }
    assert(a@ =~= b@);
    true
}

fn find_holder(v: &Vec<([u8; 16], bool, u64)>, id: &[u8; 16], team: bool) -> (res: usize)
    ensures
        res as int == key_index(state_view(v@), id@, team, 0),
        res <= v@.len(),
{
    let ghost s = state_view(v@);
    let mut j: usize = 0;
    while j < v.len() && !(same_id(&v[j].0, id) && v[j].1 == team)
        invariant
            j <= v@.len(),
            s == state_view(v@),
            key_index(s, id@, team, 0) == key_index(s, id@, team, j as int),
        decreases v@.len() - j,
    {
        j = j + 1;
    }
    j
}

fn put_holder(v: &mut Vec<([u8; 16], bool, u64)>, id: [u8; 16], team: bool, val: u64)
    ensures
        state_view(final(v)@) == spec_put(state_view(old(v)@), id@, team, val),
{
    let i = find_holder(v, &id, team);
    if i < v.len() {
        v.set(i, (id, team, val));
        assert(state_view(v@) =~= state_view(old(v)@).update(i as int, (id@, team, val)));
    } else {
        v.push((id, team, val));
        assert(state_view(v@) =~= state_view(old(v)@).push((id@, team, val)));
    }
}

fn drop_holder(v: &mut Vec<([u8; 16], bool, u64)>, id: [u8; 16], team: bool)
    ensures
        state_view(final(v)@) == spec_drop(state_view(old(v)@), id@, team),
{
    let i = find_holder(v, &id, team);
    if i < v.len() {
        v.remove(i);
        assert(state_view(v@) =~= state_view(old(v)@).remove(i as int));
    }
}

fn read_removals(b: &[u8], p: usize, k: u8, ids: &HashMap<u16, ([u8; 16], bool)>, state: &mut Vec<([u8; 16], bool, u64)>) -> (res: VCRResult<usize>)
    requires
        p <= b@.len(),
    ensures
        match spec_removals(b@, p as int, k as nat, ids_view(ids), state_view(old(state)@)) {
            Ok((s, q)) => res == Ok::<usize, VCRError>(q as usize) && state_view(final(state)@) == s && q <= b@.len(),
            Err(e) => res == Err::<usize, VCRError>(e),
        },
{
    let ghost m = ids_view(ids);
    let ghost s0 = state_view(state@);
    let mut i: u8 = 0;
    let mut q = p;
    while i < k
        invariant
            i <= k,
            q <= b@.len(),
            m == ids_view(ids),
            s0 == state_view(old(state)@),
            spec_removals(b@, p as int, i as nat, m, s0) == Ok::<(Seq<(Seq<u8>, bool, u64)>, int), VCRError>((state_view(state@), q as int)),
        decreases k - i,
    {
        let (r, next) = read_varint_u16(b, q);
        let ghost sv = state_view(state@);
        let ridx = match r {
            Ok(x) => x,
            Err(e) => {
                proof {
                    assert(spec_removals(b@, p as int, (i + 1) as nat, m, s0) == Err::<(Seq<(Seq<u8>, bool, u64)>, int), VCRError>(e));
                    lemma_removals_err(b@, p as int, i as nat, k as nat, m, s0);
                }
                return Err(e);
            },
        };
        let entry = match ids.get(&ridx) {
            Some(e) => *e,
            None => {
                proof {
                    assert(spec_removals(b@, p as int, (i + 1) as nat, m, s0) == Err::<(Seq<(Seq<u8>, bool, u64)>, int), VCRError>(VCRError::Malformed));
                    lemma_removals_err(b@, p as int, i as nat, k as nat, m, s0);
                }
                return Err(VCRError::Malformed);
            },
        };
        drop_holder(state, entry.0, entry.1);
        proof {
            assert(m[ridx] == (entry.0@, entry.1));
            assert(spec_removals(b@, p as int, (i + 1) as nat, m, s0) == Ok::<(Seq<(Seq<u8>, bool, u64)>, int), VCRError>((state_view(state@), next as int)));
        }
        q = next;
        i = i + 1;
    }
    Ok(q)
}

proof fn lemma_removals_pos(b: Seq<u8>, p: int, k: nat, m: Map<u16, (Seq<u8>, bool)>, s: Seq<(Seq<u8>, bool, u64)>)
    requires
        0 <= p <= b.len(),
    ensures
        spec_removals(b, p, k, m, s) matches Ok((s1, p1)) ==> p <= p1 <= b.len(),
    decreases k,
{
    if k > 0 {
        lemma_removals_pos(b, p, (k - 1) as nat, m, s);
        match spec_removals(b, p, (k - 1) as nat, m, s) {
            Ok((s1, p1)) => {
                if 0 <= p1 <= b.len() {
                    lemma_scan_bounds(b.subrange(p1, b.len() as int), 0, 3);
                }
            },
            Err(_) => {},
        }
    }
}

proof fn lemma_removals_err(b: Seq<u8>, p: int, i: nat, k: nat, m: Map<u16, (Seq<u8>, bool)>, s: Seq<(Seq<u8>, bool, u64)>)
    requires
        i < k,
        spec_removals(b, p, (i + 1) as nat, m, s) is Err,
    ensures
        spec_removals(b, p, k, m, s) == spec_removals(b, p, (i + 1) as nat, m, s),
    decreases k - i,
{
    if k > i + 1 {
        lemma_removals_err(b, p, i, (k - 1) as nat, m, s);
    }
}

/// Applies one stored record to the tributes state.
pub fn apply_record(state: &mut Vec<([u8; 16], bool, u64)>, record: &[u8], ids: &HashMap<u16, ([u8; 16], bool)>) -> (res: VCRResult<()>)
    ensures
        match spec_apply_record(record@, 0, ids_view(ids), state_view(old(state)@)) {
            Ok(s) => res is Ok && state_view(final(state)@) == s,
            Err(e) => res == Err::<(), VCRError>(e),
        },
{
    let ghost m = ids_view(ids);
    let n = record.len();
    let mut p: usize = 0;
    loop
        invariant
            n == record@.len(),
            p <= n,
            m == ids_view(ids),
            spec_apply_record(record@, 0, m, state_view(old(state)@)) == spec_apply_record(record@, p as int, m, state_view(state@)),
        decreases n - p,
    {
        let (r, q) = read_varint_u16(record, p);
        let idx = match r {
            Ok(x) => x,
            Err(_) => return Ok(()),
        };
        if idx == 0 {
            let (r2, q2) = read_varint_u8(record, q);
            let count = match r2 {
                Ok(x) => x,
                Err(e) => return Err(e),
            };
            proof { lemma_removals_pos(record@, q2 as int, count as nat, m, state_view(state@)); }
            let next = match read_removals(record, q2, count, ids, state) {
                Ok(x) => x,
                Err(e) => return Err(e),
            };
            p = next;
        } else {
            let (r3, q3) = read_varint_u64(record, q);
            let val = match r3 {
                Ok(x) => x,
                Err(e) => return Err(e),
            };
            let entry = match ids.get(&idx) {
                Some(e) => *e,
                None => return Err(VCRError::Malformed),
            };
            proof { assert(m[idx] == (entry.0@, entry.1)); }
            put_holder(state, entry.0, entry.1, val);
            p = q3;
        }
    }
}


/// Who holds tributes and how many peanuts: before the teams epoch one list (every holder as a
/// player), from it on teams and players apart. Each list runs from most peanuts to fewest.
pub enum TributeSnapshot {
    Players(Vec<([u8; 16], u64)>),
    TeamsAndPlayers { teams: Vec<([u8; 16], u64)>, players: Vec<([u8; 16], u64)> },
}

pub enum SnapshotView {
    Players(Seq<(Seq<u8>, u64)>),
    TeamsAndPlayers { teams: Seq<(Seq<u8>, u64)>, players: Seq<(Seq<u8>, u64)> },
}

pub open spec fn holder_view(e: ([u8; 16], u64)) -> (Seq<u8>, u64) {
    (e.0@, e.1)
}

pub open spec fn list_view(v: Seq<([u8; 16], u64)>) -> Seq<(Seq<u8>, u64)> {
    v.map_values(|e: ([u8; 16], u64)| holder_view(e))
}

impl View for TributeSnapshot {
    type V = SnapshotView;

    open spec fn view(&self) -> SnapshotView {
        match self {
            TributeSnapshot::Players(p) => SnapshotView::Players(list_view(p@)),
            TributeSnapshot::TeamsAndPlayers { teams, players } => SnapshotView::TeamsAndPlayers {
                teams: list_view(teams@),
                players: list_view(players@),
            },
        }
    }
}

/// Every holder with its peanuts, in state order.
pub open spec fn holders(s: Seq<(Seq<u8>, bool, u64)>) -> Seq<(Seq<u8>, u64)> {
    s.map_values(|e: (Seq<u8>, bool, u64)| (e.0, e.2))
}

/// The holders that are teams (or that are not), with their peanuts, in state order.
pub open spec fn holders_of(s: Seq<(Seq<u8>, bool, u64)>, team: bool) -> Seq<(Seq<u8>, u64)>
    decreases s.len(),
{
    if s.len() == 0 {
        Seq::empty()
    } else if s.last().1 == team {
        holders_of(s.drop_last(), team).push((s.last().0, s.last().2))
    } else {
        holders_of(s.drop_last(), team)
    }
}

pub open spec fn by_peanuts() -> spec_fn((Seq<u8>, u64)) -> int {
    |e: (Seq<u8>, u64)| e.1 as int
}

pub open spec fn by_peanuts_exec() -> spec_fn(([u8; 16], u64)) -> int {
    |e: ([u8; 16], u64)| e.1 as int
}

/// A list ordered by peanuts (a stable sort from fewest up) and then reversed.
pub open spec fn ranked(l: Seq<(Seq<u8>, u64)>) -> Seq<(Seq<u8>, u64)> {
    stable_sort(l, by_peanuts()).reverse()
}

/// A list that runs from most peanuts to fewest, by the full peanut count.
pub open spec fn most_first(l: Seq<(Seq<u8>, u64)>) -> bool {
    forall|i: int, j: int| 0 <= i < j < l.len() ==> (#[trigger] l[i]).1 >= (#[trigger] l[j]).1
}

/// A ranked list holds the entries of the list, each as often, and runs from most peanuts to
/// fewest.
pub proof fn lemma_ranked_most_first(l: Seq<(Seq<u8>, u64)>)
    ensures
        ranked(l).to_multiset() == l.to_multiset(),
        ranked(l).len() == l.len(),
        forall|i: int, j: int| 0 <= i < j < ranked(l).len() ==> (#[trigger] ranked(l)[i]).1 >= (#[trigger] ranked(l)[j]).1,
{
    let t = stable_sort(l, by_peanuts());
    lemma_stable_sort_len(l, by_peanuts());
    lemma_stable_sort_orders(l, by_peanuts());
    lemma_stable_sort_permutes(l, by_peanuts());
    t.lemma_reverse_to_multiset();
    let r = ranked(l);
    let n = t.len();
    assert forall|i: int, j: int| 0 <= i < j < r.len() implies (#[trigger] r[i]).1 >= (#[trigger] r[j]).1 by {
        assert(r[i] == t[n - 1 - i]);
        assert(r[j] == t[n - 1 - j]);
        assert(by_peanuts()(t[n - 1 - j]) <= by_peanuts()(t[n - 1 - i]));
    }
}

proof fn lemma_holders_split(s: Seq<(Seq<u8>, bool, u64)>)
    ensures
        holders_of(s, true).len() + holders_of(s, false).len() == s.len(),
    decreases s.len(),
{
    if s.len() > 0 {
        lemma_holders_split(s.drop_last());
    }
}

/// Every list of a snapshot runs from most peanuts to fewest; before the teams epoch the one
/// list holds every holder with its peanuts, and from it on the two lists hold the teams and
/// the players, one entry per holder of the state.
pub proof fn lemma_snapshot_most_first(time: u32, s: Seq<(Seq<u8>, bool, u64)>)
    ensures
        match spec_snapshot(time, s) {
            SnapshotView::Players(p) => most_first(p) && p.to_multiset() == holders(s).to_multiset(),
            SnapshotView::TeamsAndPlayers { teams, players } => most_first(teams) && most_first(players)
                && teams.to_multiset() == holders_of(s, true).to_multiset()
                && players.to_multiset() == holders_of(s, false).to_multiset()
                && teams.len() + players.len() == s.len(),
        },
{
    lemma_ranked_most_first(holders(s));
    lemma_ranked_most_first(holders_of(s, true));
    lemma_ranked_most_first(holders_of(s, false));
    lemma_holders_split(s);
}

/// The tributes at `time` for a state.
pub open spec fn spec_snapshot(time: u32, s: Seq<(Seq<u8>, bool, u64)>) -> SnapshotView {
    if time < TEAMS_EPOCH {
        SnapshotView::Players(ranked(holders(s)))
    } else {
        SnapshotView::TeamsAndPlayers { teams: ranked(holders_of(s, true)), players: ranked(holders_of(s, false)) }
    }
}

impl SortKey for ([u8; 16], u64) {
    open spec fn spec_sort_key(&self) -> int {
        self.1 as int
    }

    fn sort_key(&self) -> (k: i128) {
        self.1 as i128
    }
}

fn rank(v: Vec<([u8; 16], u64)>) -> (res: Vec<([u8; 16], u64)>)
    ensures
        list_view(res@) == ranked(list_view(v@)),
{
    let ghost orig = v@;
    proof {
        assert(by_peanuts_exec() =~= by_sort_key::<([u8; 16], u64)>());
    }
    let out = stable_sort_vec(v);
    assert(out@ == stable_sort(orig, by_peanuts_exec()));
    let ghost sorted = out@;
    let mut res: Vec<([u8; 16], u64)> = Vec::new();
    let mut j: usize = out.len();
    while j > 0
        invariant
            j <= out@.len(),
            out@ == sorted,
            res@ == sorted.reverse().subrange(0, (sorted.len() - j) as int),
        decreases j,
    {
        j = j - 1;
        res.push(out[j]);
        proof {
            assert(sorted.reverse().subrange(0, (sorted.len() - j) as int) =~= sorted.reverse().subrange(0, (sorted.len() - j - 1) as int).push(sorted[j as int]));
        }
    }
    proof {
        assert(sorted.reverse().subrange(0, sorted.len() as int) =~= sorted.reverse());
        lemma_stable_sort_map(orig, |e: ([u8; 16], u64)| holder_view(e), by_peanuts_exec(), by_peanuts());
        assert(list_view(res@) =~= list_view(sorted).reverse());
        assert(list_view(orig) =~= orig.map_values(|e: ([u8; 16], u64)| holder_view(e)));
        assert(list_view(sorted) =~= sorted.map_values(|e: ([u8; 16], u64)| holder_view(e)));
    }
    res
}

fn collect_holders(state: &Vec<([u8; 16], bool, u64)>, all: bool, team: bool) -> (res: Vec<([u8; 16], u64)>)
    ensures
        all ==> list_view(res@) == holders(state_view(state@)),
        !all ==> list_view(res@) == holders_of(state_view(state@), team),
{
    let ghost sv = state_view(state@);
    let mut out: Vec<([u8; 16], u64)> = Vec::new();
    let mut i: usize = 0;
    while i < state.len()
        invariant
            i <= state@.len(),
            sv == state_view(state@),
            all ==> list_view(out@) == holders(sv.subrange(0, i as int)),
            !all ==> list_view(out@) == holders_of(sv.subrange(0, i as int), team),
        decreases state@.len() - i,
    {
        let e = state[i];
        proof {
            let pre = sv.subrange(0, i + 1);
            assert(pre.drop_last() =~= sv.subrange(0, i as int));
            assert(pre.last() == entry_view(e));
            assert(holders(pre) =~= holders(sv.subrange(0, i as int)).push((e.0@, e.2)));
        }
        if all || e.1 == team {
            let ghost before = out@;
            out.push((e.0, e.2));
            proof {
                assert(list_view(out@) =~= list_view(before).push((e.0@, e.2)));
            }
        }
        i = i + 1;
    }
    assert(sv.subrange(0, state@.len() as int) =~= sv);
    out
}

/// The tributes at `time` for a state.
pub fn snapshot(time: u32, state: &Vec<([u8; 16], bool, u64)>) -> (res: TributeSnapshot)
    ensures
        res@ == spec_snapshot(time, state_view(state@)),
        match res@ {
            SnapshotView::Players(p) => most_first(p),
            SnapshotView::TeamsAndPlayers { teams, players } => most_first(teams) && most_first(players),
        },
{
    proof {
        lemma_snapshot_most_first(time, state_view(state@));
    }
    if time < TEAMS_EPOCH {
        TributeSnapshot::Players(rank(collect_holders(state, true, false)))
    } else {
        let teams = rank(collect_holders(state, false, true));
        let players = rank(collect_holders(state, false, false));
        TributeSnapshot::TeamsAndPlayers { teams, players }
    }
}

/// The first position from `j` holding a record no earlier than `at`; the length when none does.
pub open spec fn first_from(t: Seq<(u32, u32, u16)>, at: u32, j: int) -> int
    decreases t.len() - j,
{
    if j < 0 || j >= t.len() || t[j].0 >= at {
        j
    } else {
        first_from(t, at, j + 1)
    }
}

/// The first position from `j` holding a record later than `before`; the length when none does.
pub open spec fn first_after(t: Seq<(u32, u32, u16)>, before: u32, j: int) -> int
    decreases t.len() - j,
{
    if j < 0 || j >= t.len() || t[j].0 > before {
        j
    } else {
        first_after(t, before, j + 1)
    }
}

/// How many records to read for the versions up to `before`: the leading ones no later than it.
pub fn versions_span(times: &Vec<(u32, u32, u16)>, before: u32) -> (res: usize)
    ensures
        res as int == first_after(times@, before, 0),
{
    let mut j: usize = 0;
    while j < times.len() && times[j].0 <= before
        invariant
            j <= times@.len(),
            first_after(times@, before, 0) == first_after(times@, before, j as int),
        decreases times@.len() - j,
    {
        j = j + 1;
    }
    j
}

/// How many records to read for the state at `at`: up to and including the first no earlier
/// than `at`, or all of them.
pub fn entity_span(times: &Vec<(u32, u32, u16)>, at: u32) -> (res: usize)
    ensures
        res as int == (if first_from(times@, at, 0) < times@.len() { first_from(times@, at, 0) + 1 } else { times@.len() as int }),
{
    let mut j: usize = 0;
    while j < times.len() && times[j].0 < at
        invariant
            j <= times@.len(),
            first_from(times@, at, 0) == first_from(times@, at, j as int),
        decreases times@.len() - j,
    {
        j = j + 1;
    }
    if j < times.len() {
        j + 1
    } else {
        j
    }
}

/// Records as plain values: time and bytes.
pub open spec fn records_view(r: Seq<(u32, Vec<u8>)>) -> Seq<(u32, Seq<u8>)> {
    r.map_values(|e: (u32, Vec<u8>)| (e.0, e.1@))
}

/// Applies the first `n` records in turn to an empty state, giving the state and the
/// snapshots taken after each record later than `after`.
pub open spec fn spec_tribute_walk(ids: Map<u16, (Seq<u8>, bool)>, recs: Seq<(u32, Seq<u8>)>, after: u32, n: int) -> Result<(Seq<(Seq<u8>, bool, u64)>, Seq<(u32, SnapshotView)>), VCRError>
    decreases n,
{
    if n <= 0 {
        Ok((Seq::empty(), Seq::empty()))
    } else {
        match spec_tribute_walk(ids, recs, after, n - 1) {
            Err(e) => Err(e),
            Ok((s, out)) => match spec_apply_record(recs[n - 1].1, 0, ids, s) {
                Err(e) => Err(e),
                Ok(s2) => {
                    let t = recs[n - 1].0;
                    Ok((s2, if t > after { out.push((t, spec_snapshot(t, s2))) } else { out }))
                },
            },
        }
    }
}

proof fn lemma_walk_err(ids: Map<u16, (Seq<u8>, bool)>, recs: Seq<(u32, Seq<u8>)>, after: u32, i: int, n: int)
    requires
        0 <= i < n,
        spec_tribute_walk(ids, recs, after, i + 1) is Err,
    ensures
        spec_tribute_walk(ids, recs, after, n) == spec_tribute_walk(ids, recs, after, i + 1),
    decreases n - i,
{
    if n > i + 1 {
        lemma_walk_err(ids, recs, after, i, n - 1);
    }
}

fn walk(ids: &HashMap<u16, ([u8; 16], bool)>, records: &Vec<(u32, Vec<u8>)>, after: u32, snapshots: bool) -> (res: VCRResult<(Vec<([u8; 16], bool, u64)>, Vec<(u32, TributeSnapshot)>)>)
    ensures
        match spec_tribute_walk(ids_view(ids), records_view(records@), after, records@.len() as int) {
            Ok((s, out)) => res matches Ok((st, v)) && state_view(st@) == s
                && (snapshots ==> v@.map_values(|e: (u32, TributeSnapshot)| (e.0, e.1@)) == out),
            Err(e) => res matches Err(e2) && e2 == e,
        },
{
    let ghost m = ids_view(ids);
    let ghost recs = records_view(records@);
    let mut state: Vec<([u8; 16], bool, u64)> = Vec::new();
    let mut out: Vec<(u32, TributeSnapshot)> = Vec::new();
    let mut i: usize = 0;
    assert(state_view(state@) =~= Seq::<(Seq<u8>, bool, u64)>::empty());
    assert(out@.map_values(|e: (u32, TributeSnapshot)| (e.0, e.1@)) =~= Seq::<(u32, SnapshotView)>::empty());
    while i < records.len()
        invariant
            i <= records@.len(),
            m == ids_view(ids),
            recs == records_view(records@),
            spec_tribute_walk(m, recs, after, i as int) matches Ok((s, o)) && state_view(state@) == s
                && (snapshots ==> out@.map_values(|e: (u32, TributeSnapshot)| (e.0, e.1@)) == o),
        decreases records@.len() - i,
    {
        let ghost before = out@.map_values(|e: (u32, TributeSnapshot)| (e.0, e.1@));
        let t = records[i].0;
        assert(recs[i as int] == (t, records@[i as int].1@));
        match apply_record(&mut state, records[i].1.as_slice(), ids) {
            Ok(()) => {},
            Err(e) => {
                proof { lemma_walk_err(m, recs, after, i as int, records@.len() as int); }
                return Err(e);
            },
        }
        if snapshots && t > after {
            let snap = snapshot(t, &state);
            let ghost item = (t, snap@);
            out.push((t, snap));
            proof {
                assert(out@.map_values(|e: (u32, TributeSnapshot)| (e.0, e.1@)) =~= before.push(item));
            }
        }
        i = i + 1;
    }
    Ok((state, out))
}

/// The versions of the tributes later than `after`, from records read in order (the app reads
/// the first `versions_span` records).
pub fn tribute_versions(ids: &HashMap<u16, ([u8; 16], bool)>, records: &Vec<(u32, Vec<u8>)>, after: u32) -> (res: VCRResult<Vec<(u32, TributeSnapshot)>>)
    ensures
        match spec_tribute_walk(ids_view(ids), records_view(records@), after, records@.len() as int) {
            Ok((s, out)) => res matches Ok(v) && v@.map_values(|e: (u32, TributeSnapshot)| (e.0, e.1@)) == out,
            Err(e) => res matches Err(e2) && e2 == e,
        },
{
    match walk(ids, records, after, true) {
        Ok((_, v)) => Ok(v),
        Err(e) => Err(e),
    }
}

/// The tributes after applying every given record (the app reads the first `entity_span`
/// records), stamped with the time of the last record (0 when there is none).
pub fn tribute_entity(ids: &HashMap<u16, ([u8; 16], bool)>, records: &Vec<(u32, Vec<u8>)>) -> (res: VCRResult<(u32, TributeSnapshot)>)
    ensures
        match spec_tribute_walk(ids_view(ids), records_view(records@), 0, records@.len() as int) {
            Ok((s, _)) => {
                let t = if records@.len() == 0 { 0 } else { records@.last().0 };
                res matches Ok((t2, snap)) && t2 == t && snap@ == spec_snapshot(t, s)
            },
            Err(e) => res matches Err(e2) && e2 == e,
        },
{
    match walk(ids, records, 0, false) {
        Ok((state, _)) => {
            let t: u32 = if records.len() == 0 { 0 } else { records[records.len() - 1].0 };
            Ok((t, snapshot(t, &state)))
        },
        Err(e) => Err(e),
    }
}


/// No holder appears twice in the state.
pub open spec fn unique_holders(s: Seq<(Seq<u8>, bool, u64)>) -> bool {
    forall|i: int, j: int| 0 <= i < j < s.len() ==> !(#[trigger] s[i].0 == #[trigger] s[j].0 && s[i].1 == s[j].1)
}

/// The state as a map from holder to peanuts.
pub open spec fn tribute_map(s: Seq<(Seq<u8>, bool, u64)>) -> Map<(Seq<u8>, bool), u64>
    decreases s.len(),
{
    if s.len() == 0 {
        Map::empty()
    } else {
        tribute_map(s.drop_last()).insert((s.last().0, s.last().1), s.last().2)
    }
}

proof fn lemma_key_index(s: Seq<(Seq<u8>, bool, u64)>, id: Seq<u8>, team: bool, j: int)
    requires
        0 <= j <= s.len(),
    ensures
        j <= key_index(s, id, team, j) <= s.len(),
        forall|k: int| j <= k < key_index(s, id, team, j) ==> !(#[trigger] s[k].0 == id && s[k].1 == team),
        key_index(s, id, team, j) < s.len() ==> s[key_index(s, id, team, j)].0 == id && s[key_index(s, id, team, j)].1 == team,
    decreases s.len() - j,
{
    if j < s.len() && !(s[j].0 == id && s[j].1 == team) {
        lemma_key_index(s, id, team, j + 1);
    }
}

proof fn lemma_map_shape(s: Seq<(Seq<u8>, bool, u64)>)
    requires
        unique_holders(s),
    ensures
        forall|k: (Seq<u8>, bool)| #[trigger] tribute_map(s).contains_key(k) <==> exists|i: int| 0 <= i < s.len() && (s[i].0, s[i].1) == k,
        forall|i: int| 0 <= i < s.len() ==> #[trigger] tribute_map(s)[(s[i].0, s[i].1)] == s[i].2,
    decreases s.len(),
{
    if s.len() > 0 {
        let d = s.drop_last();
        assert forall|i: int, j: int| 0 <= i < j < d.len() implies !(#[trigger] d[i].0 == #[trigger] d[j].0 && d[i].1 == d[j].1) by {
            assert(d[i] == s[i] && d[j] == s[j]);
        }
        lemma_map_shape(d);
        let last = s.last();
        let n = s.len() - 1;
        assert forall|k: (Seq<u8>, bool)| #[trigger] tribute_map(s).contains_key(k) <==> exists|i: int| 0 <= i < s.len() && (s[i].0, s[i].1) == k by {
            if tribute_map(s).contains_key(k) {
                if k == (last.0, last.1) {
                    assert((s[n].0, s[n].1) == k);
                } else {
                    assert(tribute_map(d).contains_key(k));
                    let i = choose|i: int| 0 <= i < d.len() && (d[i].0, d[i].1) == k;
                    assert(s[i] == d[i]);
                }
            }
            if exists|i: int| 0 <= i < s.len() && (s[i].0, s[i].1) == k {
                let i = choose|i: int| 0 <= i < s.len() && (s[i].0, s[i].1) == k;
                if i < n {
                    assert(d[i] == s[i]);
                    assert(tribute_map(d).contains_key(k));
                }
            }
        }
        assert forall|i: int| 0 <= i < s.len() implies #[trigger] tribute_map(s)[(s[i].0, s[i].1)] == s[i].2 by {
            if i < n {
                assert(d[i] == s[i]);
                assert(!(s[i].0 == s[n].0 && s[i].1 == s[n].1));
                assert(tribute_map(d)[(d[i].0, d[i].1)] == d[i].2);
            }
        }
    }
}

/// Setting a holder's peanuts keeps every holder once, and acts on the state's map as an
/// insert: the holder's earlier peanuts are replaced.
pub proof fn lemma_put_is_insert(s: Seq<(Seq<u8>, bool, u64)>, id: Seq<u8>, team: bool, val: u64)
    requires
        unique_holders(s),
    ensures
        unique_holders(spec_put(s, id, team, val)),
        tribute_map(spec_put(s, id, team, val)) == tribute_map(s).insert((id, team), val),
{
    let i = key_index(s, id, team, 0);
    lemma_key_index(s, id, team, 0);
    let s2 = spec_put(s, id, team, val);
    if i < s.len() {
        assert forall|a: int, b: int| 0 <= a < b < s2.len() implies !(#[trigger] s2[a].0 == #[trigger] s2[b].0 && s2[a].1 == s2[b].1) by {
            assert(s2[a].0 == s[a].0 && s2[a].1 == s[a].1);
            assert(s2[b].0 == s[b].0 && s2[b].1 == s[b].1);
        }
    } else {
        assert forall|a: int, b: int| 0 <= a < b < s2.len() implies !(#[trigger] s2[a].0 == #[trigger] s2[b].0 && s2[a].1 == s2[b].1) by {
            if b < s.len() {
                assert(s2[a] == s[a] && s2[b] == s[b]);
            } else {
                assert(s2[a] == s[a]);
            }
        }
    }
    lemma_map_shape(s);
    lemma_map_shape(s2);
    let m1 = tribute_map(s2);
    let m2 = tribute_map(s).insert((id, team), val);
    assert forall|k: (Seq<u8>, bool)| #[trigger] m1.contains_key(k) <==> m2.contains_key(k) by {
        if m1.contains_key(k) {
            let a = choose|a: int| 0 <= a < s2.len() && (s2[a].0, s2[a].1) == k;
            if k != (id, team) {
                assert(s2[a] == s[a]);
                assert(tribute_map(s).contains_key((s[a].0, s[a].1)));
            }
        }
        if m2.contains_key(k) {
            if k == (id, team) {
                if i < s.len() {
                    assert((s2[i].0, s2[i].1) == k);
                } else {
                    assert((s2[s.len() as int].0, s2[s.len() as int].1) == k);
                }
            } else {
                let a = choose|a: int| 0 <= a < s.len() && (s[a].0, s[a].1) == k;
                if a == i {
                    assert(false);
                }
                assert(s2[a] == s[a]);
                assert((s2[a].0, s2[a].1) == k);
            }
        }
    }
    assert forall|k: (Seq<u8>, bool)| m1.contains_key(k) implies #[trigger] m1[k] == m2[k] by {
        let a = choose|a: int| 0 <= a < s2.len() && (s2[a].0, s2[a].1) == k;
        assert(m1[(s2[a].0, s2[a].1)] == s2[a].2);
        if k != (id, team) {
            assert(s2[a] == s[a]);
            assert(tribute_map(s)[(s[a].0, s[a].1)] == s[a].2);
        }
    }
    assert(m1 =~= m2);
}

/// Removing a holder keeps every holder once, and acts on the state's map as a removal.
pub proof fn lemma_drop_is_remove(s: Seq<(Seq<u8>, bool, u64)>, id: Seq<u8>, team: bool)
    requires
        unique_holders(s),
    ensures
        unique_holders(spec_drop(s, id, team)),
        tribute_map(spec_drop(s, id, team)) == tribute_map(s).remove((id, team)),
{
    let i = key_index(s, id, team, 0);
    lemma_key_index(s, id, team, 0);
    let s2 = spec_drop(s, id, team);
    lemma_map_shape(s);
    if i < s.len() {
        assert forall|a: int, b: int| 0 <= a < b < s2.len() implies !(#[trigger] s2[a].0 == #[trigger] s2[b].0 && s2[a].1 == s2[b].1) by {
            let a0 = if a < i { a } else { a + 1 };
            let b0 = if b < i { b } else { b + 1 };
            assert(s2[a] == s[a0] && s2[b] == s[b0]);
        }
        lemma_map_shape(s2);
        let m1 = tribute_map(s2);
        let m2 = tribute_map(s).remove((id, team));
        assert forall|k: (Seq<u8>, bool)| #[trigger] m1.contains_key(k) <==> m2.contains_key(k) by {
            if m1.contains_key(k) {
                let a = choose|a: int| 0 <= a < s2.len() && (s2[a].0, s2[a].1) == k;
                let a0 = if a < i { a } else { a + 1 };
                assert(s2[a] == s[a0]);
                assert(a0 != i);
                assert(tribute_map(s).contains_key((s[a0].0, s[a0].1)));
            }
            if m2.contains_key(k) {
                let a0 = choose|a: int| 0 <= a < s.len() && (s[a].0, s[a].1) == k;
                assert(a0 != i);
                let a = if a0 < i { a0 } else { a0 - 1 };
                assert(s2[a] == s[a0]);
                assert((s2[a].0, s2[a].1) == k);
            }
        }
        assert forall|k: (Seq<u8>, bool)| m1.contains_key(k) implies #[trigger] m1[k] == m2[k] by {
            let a = choose|a: int| 0 <= a < s2.len() && (s2[a].0, s2[a].1) == k;
            let a0 = if a < i { a } else { a + 1 };
            assert(s2[a] == s[a0]);
            assert(m1[(s2[a].0, s2[a].1)] == s2[a].2);
            assert(tribute_map(s)[(s[a0].0, s[a0].1)] == s[a0].2);
        }
        assert(m1 =~= m2);
    } else {
        assert(!tribute_map(s).contains_key((id, team)));
        assert(tribute_map(s).remove((id, team)) =~= tribute_map(s));
    }
}

proof fn lemma_removals_unique(b: Seq<u8>, p: int, k: nat, ids: Map<u16, (Seq<u8>, bool)>, s: Seq<(Seq<u8>, bool, u64)>)
    requires
        unique_holders(s),
    ensures
        spec_removals(b, p, k, ids, s) matches Ok((s2, _)) ==> unique_holders(s2),
    decreases k,
{
    if k > 0 {
        lemma_removals_unique(b, p, (k - 1) as nat, ids, s);
        match spec_removals(b, p, (k - 1) as nat, ids, s) {
            Ok((s1, p1)) => {
                if 0 <= p1 <= b.len() {
                    let (r, c) = varint_u16_read(b.subrange(p1, b.len() as int));
                    if let Ok(ridx) = r {
                        if ids.contains_key(ridx) {
                            lemma_drop_is_remove(s1, ids[ridx].0, ids[ridx].1);
                        }
                    }
                }
            },
            Err(_) => {},
        }
    }
}

/// Applying a record to a state in which every holder appears once gives such a state again.
pub proof fn lemma_apply_record_unique(b: Seq<u8>, p: int, ids: Map<u16, (Seq<u8>, bool)>, s: Seq<(Seq<u8>, bool, u64)>)
    requires
        unique_holders(s),
    ensures
        spec_apply_record(b, p, ids, s) matches Ok(s2) ==> unique_holders(s2),
    decreases b.len() - p,
{
    if 0 <= p <= b.len() {
        let (r, c) = varint_u16_read(b.subrange(p, b.len() as int));
        if let Ok(idx) = r {
            let q = p + c;
            if c >= 1 && q <= b.len() {
                if idx == 0 {
                    let (r2, c2) = varint_u8_read(b.subrange(q, b.len() as int));
                    if let Ok(n) = r2 {
                        lemma_removals_unique(b, q + c2, n as nat, ids, s);
                        match spec_removals(b, q + c2, n as nat, ids, s) {
                            Ok((s2, q2)) => {
                                if p < q2 <= b.len() {
                                    lemma_apply_record_unique(b, q2, ids, s2);
                                }
                            },
                            Err(_) => {},
                        }
                    }
                } else {
                    let (r3, c3) = varint_u64_read(b.subrange(q, b.len() as int));
                    if let Ok(val) = r3 {
                        if c3 >= 1 && q + c3 <= b.len() && ids.contains_key(idx) {
                            lemma_put_is_insert(s, ids[idx].0, ids[idx].1, val);
                            lemma_apply_record_unique(b, q + c3, ids, spec_put(s, ids[idx].0, ids[idx].1, val));
                        }
                    }
                }
            }
        }
    }
}

} // verus!
