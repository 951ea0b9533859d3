use vstd::prelude::*;
use crate::bytes::{utf8_bytes, lemma_str_bytes, be16, be32, be16_all, push_bytes, push_be16, push_be32};
use crate::utils::{spec_encode_varint, encode_varint};
use super::desc::{EventDescription, DescriptionView, description_of_type};

verus! {

/// A feed event. Ids and tags are UUIDs as their sixteen bytes, the creation time is in
/// milliseconds since the Unix epoch, and the metadata is held MessagePack-encoded.
#[derive(Clone)]
pub struct FeedEvent {
    pub id: [u8; 16],
    pub category: i8,
    pub created_millis: i64,
    pub day: i16,
    pub description: String,
    pub nuts: u16,
    pub phase: u8,
    pub player_tags: Option<Vec<[u8; 16]>>,
    pub game_tags: Option<Vec<[u8; 16]>>,
    pub team_tags: Option<Vec<[u8; 16]>>,
    pub etype: i16,
    pub tournament: i8,
    pub season: u8,
    pub metadata: Vec<u8>,
}

/// A feed event as plain values.
pub struct FeedEventView {
    pub id: Seq<u8>,
    pub category: i8,
    pub created_millis: i64,
    pub day: i16,
    pub description: Seq<char>,
    pub nuts: u16,
    pub phase: u8,
    pub player_tags: Option<Seq<Seq<u8>>>,
    pub game_tags: Option<Seq<Seq<u8>>>,
    pub team_tags: Option<Seq<Seq<u8>>>,
    pub etype: i16,
    pub tournament: i8,
    pub season: u8,
    pub metadata: Seq<u8>,
}

/// UUIDs as byte sequences.
pub open spec fn uuid_seqs(v: Seq<[u8; 16]>) -> Seq<Seq<u8>> {
    v.map_values(|u: [u8; 16]| u@)
}

pub open spec fn opt_uuids(v: Option<Vec<[u8; 16]>>) -> Option<Seq<Seq<u8>>> {
    match v {
        Some(x) => Some(uuid_seqs(x@)),
        None => None,
    }
}

impl View for FeedEvent {
    type V = FeedEventView;

    open spec fn view(&self) -> FeedEventView {
        FeedEventView {
            id: self.id@,
            category: self.category,
            created_millis: self.created_millis,
            day: self.day,
            description: self.description@,
            nuts: self.nuts,
            phase: self.phase,
            player_tags: opt_uuids(self.player_tags),
            game_tags: opt_uuids(self.game_tags),
            team_tags: opt_uuids(self.team_tags),
            etype: self.etype,
            tournament: self.tournament,
            season: self.season,
            metadata: self.metadata@,
        }
    }
}

/// A feed event with its tags replaced by small table indices, as it is stored.
pub struct CompactedFeedEvent {
    pub id: [u8; 16],
    pub created_millis: i64,
    pub category: i8,
    pub day: u8,
    pub description: String,
    pub player_tags: Vec<u16>,
    pub game_tags: Vec<u16>,
    pub team_tags: Vec<u8>,
    pub etype: i16,
    pub tournament: i8,
    pub metadata: Vec<u8>,
    pub season: u8,
    pub phase: u8,
}

/// Whole seconds since the epoch of a time in milliseconds (rounded down).
pub open spec fn seconds_of(millis: i64) -> int {
    millis as int / 1000
}

/// The time part of an event id: milliseconds since an epoch given in seconds, or else
/// seconds since the Unix epoch, cut to 32 bits.
pub open spec fn id_time(created_millis: i64, millis_epoch: Option<u32>) -> u32 {
    match millis_epoch {
        Some(epoch) => (created_millis as int - epoch as int * 1000) as u32,
        None => seconds_of(created_millis) as u32,
    }
}

/// An event id: season, phase, the time part in big-endian order and the first two bytes of the UUID.
pub open spec fn spec_generate_id(ev: &FeedEvent, millis_epoch: Option<u32>) -> Seq<u8> {
    seq![ev.season, ev.phase] + be32(id_time(ev.created_millis, millis_epoch)) + ev.id@.subrange(0, 2)
}

impl FeedEvent {
    pub fn generate_id(&self, millis_epoch: Option<u32>) -> (res: Vec<u8>)
        requires
            self.created_millis >= -0x3fff_ffff_ffff_ffff,
        ensures
            res@ == spec_generate_id(self, millis_epoch),
    {
        let timestamp: u32 = match millis_epoch {
            Some(epoch) => {
                let epoch_ms: i64 = (epoch as i64) * 1000;
                (self.created_millis - epoch_ms) as u32
            },
            None => {
                let m = self.created_millis;
                let secs: i64 = if m >= 0 { m / 1000 } else { -((-(m + 1)) / 1000) - 1 };
                assert(secs == seconds_of(m)) by (nonlinear_arith)
                    requires
                        m >= 0 ==> secs == m / 1000,
                        m < 0 ==> secs == -((-(m + 1)) / 1000) - 1,
                ;
                secs as u32
            },
        };
        let mut out: Vec<u8> = Vec::new();
        out.push(self.season);
        out.push(self.phase);
        push_be32(&mut out, timestamp);
        out.push(self.id[0]);
        out.push(self.id[1]);
        assert(out@ =~= spec_generate_id(self, millis_epoch));
        out
    }
}

/// The index of the first text whose UTF-8 bytes equal the given bytes.
pub open spec fn first_match(ps: Seq<Seq<char>>, d: Seq<u8>) -> int {
    choose|i: int| 0 <= i < ps.len() && utf8_bytes(ps[i]) == d
        && forall|j: int| 0 <= j < i ==> utf8_bytes(#[trigger] ps[j]) != d
}

/// Whether an event's description fits the scheme of its type, and its season can be stored.
pub open spec fn encodable(ev: &CompactedFeedEvent) -> bool {
    let d = utf8_bytes(ev.description@);
    &&& ev.season >= 10
    &&& match description_of_type(ev.etype) {
        DescriptionView::Constant(s) => ev.description@ == s,
        DescriptionView::ConstantVariant(ps) => exists|i: int| 0 <= i < ps.len() && utf8_bytes(#[trigger] ps[i]) == d,
        DescriptionView::Suffix(s) => d.len() >= utf8_bytes(s).len() && d.subrange(d.len() - utf8_bytes(s).len(), d.len() as int) == utf8_bytes(s),
        DescriptionView::Prefix(s) => d.len() >= utf8_bytes(s).len() && d.subrange(0, utf8_bytes(s).len() as int) == utf8_bytes(s),
        DescriptionView::Variable => true,
    }
}

/// The stored form of a description: nothing for a fixed text, the index of the matching text,
/// or the length-prefixed part outside a fixed prefix or suffix, or the whole text.
pub open spec fn description_bytes(ev: &CompactedFeedEvent) -> Seq<u8> {
    let d = utf8_bytes(ev.description@);
    match description_of_type(ev.etype) {
        DescriptionView::Constant(_) => Seq::empty(),
        DescriptionView::ConstantVariant(ps) => seq![first_match(ps, d) as u8],
        DescriptionView::Suffix(s) => {
            let part = d.subrange(0, d.len() - utf8_bytes(s).len());
            spec_encode_varint(part.len() as u16) + part
        },
        DescriptionView::Prefix(s) => {
            let part = d.subrange(utf8_bytes(s).len() as int, d.len() as int);
            spec_encode_varint(part.len() as u16) + part
        },
        DescriptionView::Variable => spec_encode_varint(d.len() as u16) + d,
    }
}

/// The stored form of an event: category, type, day, season and phase packed in one byte,
/// the UUID for phase 13, the description, the three tag lists each with a count byte,
/// and the metadata.
pub open spec fn spec_encode(ev: &CompactedFeedEvent) -> Seq<u8> {
    seq![ev.category as u8] + be16(ev.etype as u16) + seq![ev.day]
        + seq![((ev.season - 10) as u8) | ((ev.phase << 4u8) as u8)]
        + (if ev.phase == 13 { ev.id@ } else { Seq::empty() })
        + description_bytes(ev)
        + seq![ev.player_tags@.len() as u8] + be16_all(ev.player_tags@)
        + seq![ev.team_tags@.len() as u8] + ev.team_tags@
        + seq![ev.game_tags@.len() as u8] + be16_all(ev.game_tags@)
        + ev.metadata@
}

/// Whether two byte strings are equal.
pub fn bytes_eq(a: &[u8], b: &[u8]) -> (res: bool)
    ensures
        res == (a@ == b@),
{
    if a.len() != b.len() {
        return false;
    }
    let mut i: usize = 0;
    while i < a.len()
        invariant
            a@.len() == b@.len(),
            i <= a@.len(),
            forall|j: int| 0 <= j < i ==> a@[j] == b@[j],
        decreases a@.len() - i,
    {
        if a[i] != b[i] {
            return false;
        }
        i = i + 1;
    }
    assert(a@ =~= b@);
    true
}

fn push_tags16(out: &mut Vec<u8>, tags: &Vec<u16>)
    ensures
        final(out)@ == old(out)@ + seq![tags@.len() as u8] + be16_all(tags@),
{
    out.push(tags.len() as u8);
    let ghost start = out@;
    let mut i: usize = 0;
    while i < tags.len()
        invariant
            i <= tags@.len(),
            out@ == start + be16_all(tags@.subrange(0, i as int)),
        decreases tags@.len() - i,
    {
        push_be16(out, tags[i]);
        proof {
            assert(tags@.subrange(0, i + 1).drop_last() =~= tags@.subrange(0, i as int));
        }
        i = i + 1;
    }
    proof {
        assert(tags@.subrange(0, tags@.len() as int) =~= tags@);
    }
}

impl CompactedFeedEvent {
    fn find_variant(d: &[u8], possibilities: &Vec<&'static str>) -> (i: usize)
        requires
            exists|k: int| 0 <= k < possibilities@.len() && utf8_bytes(#[trigger] possibilities@[k]@) == d@,
        ensures
            i < possibilities@.len(),
            utf8_bytes(possibilities@[i as int]@) == d@,
            forall|j: int| 0 <= j < i ==> utf8_bytes(#[trigger] possibilities@[j]@) != d@,
    {
        let mut i: usize = 0;
        while i < possibilities.len()
            invariant
                i <= possibilities@.len(),
                forall|j: int| 0 <= j < i ==> utf8_bytes(#[trigger] possibilities@[j]@) != d@,
                exists|k: int| i <= k < possibilities@.len() && utf8_bytes(#[trigger] possibilities@[k]@) == d@,
            decreases possibilities@.len() - i,
        {
            let p = possibilities[i].as_bytes();
            proof { lemma_str_bytes(possibilities@[i as int]); }
            if bytes_eq(p, d) {
                return i;
            }
            i = i + 1;
        }
        i
    }

    fn encode_variant(&self, possibilities: Vec<&'static str>) -> (res: Vec<u8>)
        requires
            encodable(self),
            description_of_type(self.etype) == DescriptionView::ConstantVariant(possibilities@.map_values(|s: &'static str| s@)),
        ensures
            res@ == description_bytes(self),
    {
        let ds = self.description.as_str();
        let d = ds.as_bytes();
        proof { lemma_str_bytes(ds); }
        let ghost ps = possibilities@.map_values(|s: &'static str| s@);
        assert forall|k: int| 0 <= k < ps.len() implies #[trigger] ps[k] == possibilities@[k]@ by {}
        proof {
            let k = choose|k: int| 0 <= k < ps.len() && utf8_bytes(#[trigger] ps[k]) == d@;
            assert(utf8_bytes(possibilities@[k]@) == d@);
        }
        let i = Self::find_variant(d, &possibilities);
        proof {
            let f = first_match(ps, d@);
            assert(utf8_bytes(ps[i as int]) == d@);
            assert(forall|j: int| 0 <= j < i ==> utf8_bytes(#[trigger] ps[j]) != d@) by {
                assert forall|j: int| 0 <= j < i implies utf8_bytes(#[trigger] ps[j]) != d@ by {
                    assert(ps[j] == possibilities@[j]@);
                }
            }
            assert(0 <= f < ps.len() && utf8_bytes(ps[f]) == d@
                && forall|j: int| 0 <= j < f ==> utf8_bytes(#[trigger] ps[j]) != d@);
            if f > i {
                assert(utf8_bytes(ps[i as int]) != d@);
            }
            if f < i {
                assert(utf8_bytes(ps[f]) != d@);
            }
        }
        let mut v: Vec<u8> = Vec::new();
        v.push(i as u8);
        assert(v@ =~= description_bytes(self));
        v
    }

    fn encode_suffixed(&self, s: &'static str) -> (res: Vec<u8>)
        requires
            encodable(self),
            description_of_type(self.etype) == DescriptionView::Suffix(s@),
        ensures
            res@ == description_bytes(self),
    {
        let ds = self.description.as_str();
        let d = ds.as_bytes();
        let sb = s.as_bytes();
        proof { lemma_str_bytes(ds); lemma_str_bytes(s); }
        let part = crate::compress::slice_range(d, 0, d.len() - sb.len());
        let mut v = encode_varint(part.len() as u16);
        push_bytes(&mut v, part);
        v
    }

    fn encode_prefixed(&self, s: &'static str) -> (res: Vec<u8>)
        requires
            encodable(self),
            description_of_type(self.etype) == DescriptionView::Prefix(s@),
        ensures
            res@ == description_bytes(self),
    {
        let ds = self.description.as_str();
        let d = ds.as_bytes();
        let sb = s.as_bytes();
        proof { lemma_str_bytes(ds); lemma_str_bytes(s); }
        let part = crate::compress::slice_range(d, sb.len(), d.len());
        let mut v = encode_varint(part.len() as u16);
        push_bytes(&mut v, part);
        v
    }

    fn encode_description(&self) -> (res: Vec<u8>)
        requires
            encodable(self),
        ensures
            res@ == description_bytes(self),
    {
        match EventDescription::from_type(self.etype) {
            EventDescription::Constant(_) => Vec::new(),
            EventDescription::ConstantVariant(possibilities) => self.encode_variant(possibilities),
            EventDescription::Suffix(s) => self.encode_suffixed(s),
            EventDescription::Prefix(s) => self.encode_prefixed(s),
            EventDescription::Variable => {
                let ds = self.description.as_str();
        let d = ds.as_bytes();
                proof { lemma_str_bytes(ds); }
                let mut v = encode_varint(d.len() as u16);
                push_bytes(&mut v, d);
                v
            },
        }
    }

    /// Packs an event into its stored form.
    pub fn encode(&self) -> (res: Vec<u8>)
        requires
            encodable(self),
        ensures
            res@ == spec_encode(self),
    {
        let description = self.encode_description();
        let mut out: Vec<u8> = Vec::new();
        out.push(self.category as u8);
        push_be16(&mut out, self.etype as u16);
        out.push(self.day);
        out.push((self.season - 10) | (self.phase << 4u8));
        if self.phase == 13 {
            push_bytes(&mut out, self.id.as_slice());
        }
        push_bytes(&mut out, description.as_slice());
        push_tags16(&mut out, &self.player_tags);
        out.push(self.team_tags.len() as u8);
        push_bytes(&mut out, self.team_tags.as_slice());
        push_tags16(&mut out, &self.game_tags);
        push_bytes(&mut out, self.metadata.as_slice());
        assert(out@ =~= spec_encode(self));
        out
    }
}

} // verus!
