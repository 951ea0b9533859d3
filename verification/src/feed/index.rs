use vstd::prelude::*;
use crate::bytes::{be32, push_bytes, push_be32};
use fst::IntoStreamer;

verus! {

/// The kinds of tag index over the feed.
#[derive(Clone, Copy, Debug, PartialEq, Eq, Structural)]
pub enum IndexType {
    PlayerTags,
    GameTags,
    TeamTags,
    EventType,
}

#[verifier::external_type_specification]
#[verifier::external_body]
#[verifier::reject_recursive_types(D)]
pub struct ExFstMap<D>(fst::Map<D>);

/// The entries of an fst map: byte-string keys with their values, in key order.
pub uninterp spec fn fst_entries(m: fst::Map<Vec<u8>>) -> Seq<(Seq<u8>, u64)>;

/// Byte strings in lexicographic order: `a` does not come after `b`.
pub open spec fn lex_le(a: Seq<u8>, b: Seq<u8>) -> bool
    decreases a.len(),
{
    if a.len() == 0 {
        true
    } else if b.len() == 0 {
        false
    } else if a[0] < b[0] {
        true
    } else if a[0] > b[0] {
        false
    } else {
        lex_le(a.drop_first(), b.drop_first())
    }
}

pub open spec fn entries_view(v: Seq<(Vec<u8>, u64)>) -> Seq<(Seq<u8>, u64)> {
    v.map_values(|e: (Vec<u8>, u64)| (e.0@, e.1))
}

/// Whether a map was made by fst's own builder. fst reads such maps without panicking; a map
/// made from arbitrary bytes may panic when it is read.
pub uninterp spec fn fst_built(m: fst::Map<Vec<u8>>) -> bool;

/// Keys that come one after another in strictly increasing byte order.
pub open spec fn keys_increasing(v: Seq<(Seq<u8>, u64)>) -> bool {
    forall|i: int, j: int| 0 <= i < j < v.len() ==> lex_le(#[trigger] v[i].0, #[trigger] v[j].0) && v[i].0 != v[j].0
}

/// Calls `fst::Map::from_iter`, which builds a map in memory with fst's builder. Claimed, as
/// fst documents: the map holds exactly the given entries; it is built exactly when the keys
/// are unique and in increasing order, and every error becomes `InvalidData`.
#[verifier::external_body]
fn fst_from_entries(entries: Vec<(Vec<u8>, u64)>) -> (res: Result<fst::Map<Vec<u8>>, crate::VCRError>)
    ensures
        match res {
            Ok(m) => fst_built(m) && fst_entries(m) == entries_view(entries@) && keys_increasing(entries_view(entries@)),
            Err(e) => e == crate::VCRError::InvalidData && !keys_increasing(entries_view(entries@)),
        },
{
    fst::Map::from_iter(entries).map_err(|_| crate::VCRError::InvalidData)
}

/// Builds an index map from entries: the map holding exactly them when their keys are unique
/// and in increasing order, and `InvalidData` otherwise.
pub fn index_map(entries: Vec<(Vec<u8>, u64)>) -> (res: Result<fst::Map<Vec<u8>>, crate::VCRError>)
    ensures
        match res {
            Ok(m) => fst_built(m) && fst_entries(m) == entries_view(entries@),
            Err(e) => e == crate::VCRError::InvalidData,
        },
        res is Ok <==> keys_increasing(entries_view(entries@)),
{
    fst_from_entries(entries)
}

/// Calls `fst::Map::range` with both bounds inclusive and collects the stream with
/// `into_byte_vec`, on a map made by fst's builder. Claimed, as fst documents: the entries
/// whose keys lie between the bounds, in key order.
#[verifier::external_body]
fn fst_range(m: &fst::Map<Vec<u8>>, lo: &[u8], hi: &[u8]) -> (res: Vec<(Vec<u8>, u64)>)
    requires
        fst_built(*m),
    ensures
        entries_view(res@) == fst_entries(*m).filter(|e: (Seq<u8>, u64)| lex_le(lo@, e.0) && lex_le(e.0, hi@)),
{
    m.range().ge(lo).le(hi).into_stream().into_byte_vec()
}

/// The index key of a tag at a time: the tag followed by the time in big-endian order.
pub open spec fn spec_index_key(tag: Seq<u8>, time: u32) -> Seq<u8> {
    tag + be32(time)
}

/// Convenience function to make an index key out of a tag and a time.
#[inline(always)]
pub fn make_index_key(tag: &[u8], time: u32) -> (res: Vec<u8>)
    ensures
        res@ == spec_index_key(tag@, time),
{
    let mut v: Vec<u8> = Vec::new();
    push_bytes(&mut v, tag);
    push_be32(&mut v, time);
    assert(v@ =~= spec_index_key(tag@, time));
    v
}

/// Splits a packed (block index, event index) pair: the block index from bits 16 to 31 and
/// the event index from the low 16 bits.
#[inline(always)]
pub fn unpack_event_index(idx: u64) -> (res: (u16, usize))
    ensures
        res.0 == (idx / 0x1_0000) % 0x1_0000,
        res.1 == idx % 0x1_0000,
{
    let block: u16 = ((idx >> 16u64) & 0xffffu64) as u16;
    let event: usize = (idx & 0xffffu64) as usize;
    assert((idx >> 16u64) & 0xffffu64 == (idx / 0x1_0000) % 0x1_0000) by (bit_vector);
    assert(idx & 0xffffu64 == idx % 0x1_0000) by (bit_vector);
    (block, event)
}

/// A key between two keys that share a prefix carries that prefix too.
pub proof fn lemma_between_shares_prefix(t: Seq<u8>, x: Seq<u8>, y: Seq<u8>, k: Seq<u8>)
    requires
        lex_le(t + x, k),
        lex_le(k, t + y),
    ensures
        k.len() >= t.len(),
        k.subrange(0, t.len() as int) == t,
    decreases t.len(),
{
    if t.len() > 0 {
        assert((t + x)[0] == t[0]);
        assert((t + y)[0] == t[0]);
        assert((t + x).drop_first() =~= t.drop_first() + x);
        assert((t + y).drop_first() =~= t.drop_first() + y);
        lemma_between_shares_prefix(t.drop_first(), x, y, k.drop_first());
        assert(k.subrange(0, t.len() as int) =~= seq![k[0]] + k.drop_first().subrange(0, t.len() - 1));
        assert(t =~= seq![t[0]] + t.drop_first());
    }
}

proof fn lemma_lex_common_prefix(t: Seq<u8>, x: Seq<u8>, y: Seq<u8>)
    ensures
        lex_le(t + x, t + y) == lex_le(x, y),
    decreases t.len(),
{
    if t.len() > 0 {
        assert((t + x)[0] == t[0]);
        assert((t + y)[0] == t[0]);
        assert((t + x).drop_first() =~= t.drop_first() + x);
        assert((t + y).drop_first() =~= t.drop_first() + y);
        lemma_lex_common_prefix(t.drop_first(), x, y);
    } else {
        assert(t + x =~= x);
        assert(t + y =~= y);
    }
}

proof fn lemma_be32_digits(v: u32)
    ensures
        v as int == be32(v)[0] as int * 0x100_0000 + be32(v)[1] as int * 0x1_0000 + be32(v)[2] as int * 256
            + be32(v)[3] as int,
{
    assert(v == (v / 0x100_0000u32) * 0x100_0000u32 + ((v / 0x1_0000u32) % 256u32) * 0x1_0000u32
        + ((v / 256u32) % 256u32) * 256u32 + v % 256u32) by (bit_vector);
    assert(v / 0x100_0000u32 < 256u32) by (bit_vector);
    assert(be32(v)[0] as int == (v / 0x100_0000) as int);
    assert(be32(v)[1] as int == ((v / 0x1_0000) % 256) as int);
    assert(be32(v)[2] as int == ((v / 256) % 256) as int);
    assert(be32(v)[3] as int == (v % 256) as int);
}

proof fn lemma_digits_order(x0: int, x1: int, x2: int, x3: int, y0: int, y1: int, y2: int, y3: int)
    requires
        0 <= x0 < 256, 0 <= x1 < 256, 0 <= x2 < 256, 0 <= x3 < 256,
        0 <= y0 < 256, 0 <= y1 < 256, 0 <= y2 < 256, 0 <= y3 < 256,
    ensures
        (x0 < y0 || (x0 == y0 && (x1 < y1 || (x1 == y1 && (x2 < y2 || (x2 == y2 && x3 <= y3))))))
            <==> x0 * 0x100_0000 + x1 * 0x1_0000 + x2 * 256 + x3 <= y0 * 0x100_0000 + y1 * 0x1_0000 + y2 * 256 + y3,
{
}

/// Two index keys of the same tag are in the order of their times: one does not come after the
/// other exactly when its time is not later, and they are equal exactly when the times are.
pub proof fn lemma_index_key_order(tag: Seq<u8>, t1: u32, t2: u32)
    ensures
        lex_le(spec_index_key(tag, t1), spec_index_key(tag, t2)) <==> t1 <= t2,
        spec_index_key(tag, t1) == spec_index_key(tag, t2) <==> t1 == t2,
{
    let a = be32(t1);
    let b = be32(t2);
    lemma_lex_common_prefix(tag, a, b);
    lemma_be32_digits(t1);
    lemma_be32_digits(t2);
    let a1 = a.drop_first();
    let b1 = b.drop_first();
    let a2 = a1.drop_first();
    let b2 = b1.drop_first();
    let a3 = a2.drop_first();
    let b3 = b2.drop_first();
    assert(a1[0] == a[1] && a2[0] == a[2] && a3[0] == a[3]);
    assert(b1[0] == b[1] && b2[0] == b[2] && b3[0] == b[3]);
    assert(lex_le(a3.drop_first(), b3.drop_first()));
    assert(lex_le(a3, b3) == (a[3] < b[3] || (a[3] == b[3])));
    assert(lex_le(a2, b2) == (a[2] < b[2] || (a[2] == b[2] && lex_le(a3, b3))));
    assert(lex_le(a1, b1) == (a[1] < b[1] || (a[1] == b[1] && lex_le(a2, b2))));
    assert(lex_le(a, b) == (a[0] < b[0] || (a[0] == b[0] && lex_le(a1, b1))));
    lemma_digits_order(a[0] as int, a[1] as int, a[2] as int, a[3] as int, b[0] as int, b[1] as int, b[2] as int, b[3] as int);
    if spec_index_key(tag, t1) == spec_index_key(tag, t2) {
        assert(a =~= spec_index_key(tag, t1).subrange(tag.len() as int, tag.len() as int + 4));
        assert(b =~= spec_index_key(tag, t2).subrange(tag.len() as int, tag.len() as int + 4));
        assert(a[0] == b[0] && a[1] == b[1] && a[2] == b[2] && a[3] == b[3]);
    }
    if t1 == t2 {
        assert(spec_index_key(tag, t1) =~= spec_index_key(tag, t2));
    }
}

pub open spec fn starts_with(k: Seq<u8>, t: Seq<u8>) -> bool {
    k.len() >= t.len() && k.subrange(0, t.len() as int) == t
}

proof fn lemma_filter_same<A>(s: Seq<A>, f: spec_fn(A) -> bool, g: spec_fn(A) -> bool)
    requires
        forall|i: int| 0 <= i < s.len() ==> f(#[trigger] s[i]) == g(s[i]),
    ensures
        s.filter(f) == s.filter(g),
    decreases s.len(),
{
    reveal(Seq::filter);
    if s.len() > 0 {
        let d = s.drop_last();
        assert forall|i: int| 0 <= i < d.len() implies f(#[trigger] d[i]) == g(d[i]) by {
            assert(d[i] == s[i]);
        }
        lemma_filter_same(d, f, g);
        assert(f(s[s.len() - 1]) == g(s[s.len() - 1]));
        assert(s.filter(f) == (if f(s.last()) { d.filter(f).push(s.last()) } else { d.filter(f) }));
        assert(s.filter(g) == (if g(s.last()) { d.filter(g).push(s.last()) } else { d.filter(g) }));
    }
}

/// The entries of an index whose key starts with a tag and lies between the keys of that
/// tag at two times.
pub open spec fn tag_entries(entries: Seq<(Seq<u8>, u64)>, tag: Seq<u8>, after: u32, before: u32) -> Seq<(Seq<u8>, u64)> {
    entries.filter(|e: (Seq<u8>, u64)| starts_with(e.0, tag)
        && lex_le(spec_index_key(tag, after), e.0) && lex_le(e.0, spec_index_key(tag, before)))
}

/// One optional fst map per kind of tag, each made by fst's builder.
pub struct Index {
    player_tags: Option<fst::Map<Vec<u8>>>,
    game_tags: Option<fst::Map<Vec<u8>>>,
    team_tags: Option<fst::Map<Vec<u8>>>,
    event_type: Option<fst::Map<Vec<u8>>>,
}

pub open spec fn built_slot(m: Option<fst::Map<Vec<u8>>>) -> bool {
    match m {
        Some(x) => fst_built(x),
        None => true,
    }
}

impl Index {
    #[verifier::type_invariant]
    spec fn maps_built(self) -> bool {
        &&& built_slot(self.player_tags)
        &&& built_slot(self.game_tags)
        &&& built_slot(self.team_tags)
        &&& built_slot(self.event_type)
    }

    /// The entries of the map of a kind, if one was added.
    pub closed spec fn entries_of(&self, kind: IndexType) -> Option<Seq<(Seq<u8>, u64)>> {
        let slot = match kind {
            IndexType::PlayerTags => self.player_tags,
            IndexType::GameTags => self.game_tags,
            IndexType::TeamTags => self.team_tags,
            IndexType::EventType => self.event_type,
        };
        match slot {
            Some(m) => Some(fst_entries(m)),
            None => None,
        }
    }

    pub fn new() -> (res: Index)
        ensures
            forall|k: IndexType| res.entries_of(k) is None,
    {
        Index { player_tags: None, game_tags: None, team_tags: None, event_type: None }
    }

    /// Adds the map of a kind, replacing any earlier one; the map must come from fst's builder
    /// (see `index_map`).
    pub fn add_index(&mut self, kind: IndexType, map: fst::Map<Vec<u8>>)
        requires
            fst_built(map),
        ensures
            final(self).entries_of(kind) == Some(fst_entries(map)),
            forall|k: IndexType| k != kind ==> final(self).entries_of(k) == old(self).entries_of(k),
    {
        proof {
            use_type_invariant(&*self);
        }
        match kind {
            IndexType::PlayerTags => self.player_tags = Some(map),
            IndexType::GameTags => self.game_tags = Some(map),
            IndexType::TeamTags => self.team_tags = Some(map),
            IndexType::EventType => self.event_type = Some(map),
        }
    }

    /// Builds the map of a kind from entries and adds it, replacing any earlier one;
    /// `InvalidData`, with the index unchanged, when the keys are not unique and in increasing
    /// order.
    pub fn add_entries(&mut self, kind: IndexType, entries: Vec<(Vec<u8>, u64)>) -> (res: Result<(), crate::VCRError>)
        ensures
            res is Ok <==> keys_increasing(entries_view(entries@)),
            res matches Err(e) ==> e == crate::VCRError::InvalidData && forall|k: IndexType| final(self).entries_of(k) == old(self).entries_of(k),
            res is Ok ==> final(self).entries_of(kind) == Some(entries_view(entries@)),
            res is Ok ==> forall|k: IndexType| k != kind ==> final(self).entries_of(k) == old(self).entries_of(k),
    {
        match index_map(entries) {
            Ok(m) => {
                self.add_index(kind, m);
                Ok(())
            },
            Err(e) => Err(e),
        }
    }

    fn slot(&self, kind: IndexType) -> (res: &Option<fst::Map<Vec<u8>>>)
        ensures
            built_slot(*res),
            match res {
                Some(m) => self.entries_of(kind) == Some(fst_entries(*m)),
                None => self.entries_of(kind) is None,
            },
    {
        proof {
            use_type_invariant(self);
        }
        match kind {
            IndexType::PlayerTags => &self.player_tags,
            IndexType::GameTags => &self.game_tags,
            IndexType::TeamTags => &self.team_tags,
            IndexType::EventType => &self.event_type,
        }
    }

    /// The entries of a tag between two times, in key order; `None` when no map of that kind
    /// was added.
    pub fn get_by_tag_and_time(&self, idx_kind: IndexType, tag: &[u8], after: u32, before: u32) -> (res: Option<Vec<(Vec<u8>, u64)>>)
        ensures
            match self.entries_of(idx_kind) {
                Some(entries) => (res matches Some(v) && entries_view(v@) == tag_entries(entries, tag@, after, before)),
                None => res is None,
            },
    {
        match self.slot(idx_kind) {
            Some(idx) => {
                let lower_bound = make_index_key(tag, after);
                let upper_bound = make_index_key(tag, before);
                let v = fst_range(idx, lower_bound.as_slice(), upper_bound.as_slice());
                proof {
                    let entries = fst_entries(*idx);
                    let lo = spec_index_key(tag@, after);
                    let hi = spec_index_key(tag@, before);
                    let f = |e: (Seq<u8>, u64)| lex_le(lo, e.0) && lex_le(e.0, hi);
                    let g = |e: (Seq<u8>, u64)| starts_with(e.0, tag@) && lex_le(lo, e.0) && lex_le(e.0, hi);
                    assert forall|i: int| 0 <= i < entries.len() implies f(#[trigger] entries[i]) == g(entries[i]) by {
                        if lex_le(lo, entries[i].0) && lex_le(entries[i].0, hi) {
                            lemma_between_shares_prefix(tag@, be32(after), be32(before), entries[i].0);
                        }
                    }
                    lemma_filter_same(entries, f, g);
                }
                Some(v)
            },
            None => None,
        }
    }
}

} // verus!
