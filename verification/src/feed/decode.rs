use vstd::prelude::*;
use vstd::utf8::{valid_utf8, decode_utf8};
use crate::{VCRError, VCRResult};
use crate::bytes::{from_be16, from_be32};
use crate::search::{sort_by_time, keys_sorted, stable_sort, by_time_key};
use crate::utils::{decode_varint, spec_decode_varint};
use crate::compress::{slice_range, utf8_to_string, stream_decompress, zstd_stream_decompress};
use super::desc::{EventDescription, DescriptionView, description_of_type};

verus! {

/// A stored event as read back: its header fields, the UUID for phase 13, the description,
/// the table indices of its tags and its MessagePack-encoded metadata.
pub struct DecodedEvent {
    pub category: i8,
    pub etype: i16,
    pub day: i16,
    pub season: i8,
    pub phase: u8,
    pub id: Option<[u8; 16]>,
    pub description: String,
    pub player_tags: Vec<u16>,
    pub team_tags: Vec<u8>,
    pub game_tags: Vec<u16>,
    pub metadata: Vec<u8>,
}

/// The fields of a decoded event as plain values.
pub struct DecodedEventView {
    pub category: i8,
    pub etype: i16,
    pub day: i16,
    pub season: i8,
    pub phase: u8,
    pub id: Option<Seq<u8>>,
    pub description: Seq<char>,
    pub player_tags: Seq<u16>,
    pub team_tags: Seq<u8>,
    pub game_tags: Seq<u16>,
    pub metadata: Seq<u8>,
}

impl View for DecodedEvent {
    type V = DecodedEventView;

    open spec fn view(&self) -> DecodedEventView {
        DecodedEventView {
            category: self.category,
            etype: self.etype,
            day: self.day,
            season: self.season,
            phase: self.phase,
            id: match self.id {
                Some(i) => Some(i@),
                None => None,
            },
            description: self.description@,
            player_tags: self.player_tags@,
            team_tags: self.team_tags@,
            game_tags: self.game_tags@,
            metadata: self.metadata@,
        }
    }
}

/// Big-endian `u16` values stored one after another from `start`.
pub open spec fn tags16(b: Seq<u8>, start: int, count: int) -> Seq<u16> {
    Seq::new(count as nat, |i: int| from_be16(b, start + 2 * i))
}

/// A length-prefixed text at `p`: `UnexpectedEof` when the bytes end first, `Malformed` when
/// the text is not UTF-8.
pub open spec fn spec_stored_text(b: Seq<u8>, p: int) -> Result<(Seq<char>, int), VCRError> {
    match spec_decode_varint(b, p) {
        None => Err(VCRError::UnexpectedEof),
        Some((l, q)) => if q + l > b.len() {
            Err(VCRError::UnexpectedEof)
        } else if !valid_utf8(b.subrange(q, q + l)) {
            Err(VCRError::Malformed)
        } else {
            Ok((decode_utf8(b.subrange(q, q + l)), q + l))
        },
    }
}

/// Reads a description at `p` by the scheme of the event type, giving the text and the
/// position after it.
pub open spec fn spec_decode_description(b: Seq<u8>, p: int, etype: i16) -> Result<(Seq<char>, int), VCRError> {
    match description_of_type(etype) {
        DescriptionView::Constant(s) => Ok((s, p)),
        DescriptionView::ConstantVariant(ps) => if p >= b.len() {
            Err(VCRError::UnexpectedEof)
        } else if b[p] as int >= ps.len() {
            Err(VCRError::Malformed)
        } else {
            Ok((ps[b[p] as int], p + 1))
        },
        DescriptionView::Suffix(s) => match spec_stored_text(b, p) {
            Err(e) => Err(e),
            Ok((t, q)) => Ok((t + s, q)),
        },
        DescriptionView::Prefix(s) => match spec_stored_text(b, p) {
            Err(e) => Err(e),
            Ok((t, q)) => Ok((s + t, q)),
        },
        DescriptionView::Variable => spec_stored_text(b, p),
    }
}

/// Reads a stored event. Tag counts are doubled in 8 bits (wrapping) for the two-byte tags.
pub open spec fn spec_decode_event(b: Seq<u8>) -> Result<DecodedEventView, VCRError> {
    if b.len() < 7 {
        Err(VCRError::UnexpectedEof)
    } else {
        let etype = from_be16(b, 1) as i16;
        let phase = b[6];
        let p0: int = if phase == 13 { 23 } else { 7 };
        if b.len() < p0 {
            Err(VCRError::UnexpectedEof)
        } else {
            match spec_decode_description(b, p0, etype) {
                Err(e) => Err(e),
                Ok((text, p1)) => {
                    if p1 >= b.len() {
                        Err(VCRError::UnexpectedEof)
                    } else {
                        let pl = (b[p1] as int * 2) % 256;
                        let p2 = p1 + 1 + pl;
                        if p2 >= b.len() {
                            Err(VCRError::UnexpectedEof)
                        } else {
                            let tl = b[p2] as int;
                            let p3 = p2 + 1 + tl;
                            if p3 >= b.len() {
                                Err(VCRError::UnexpectedEof)
                            } else {
                                let gl = (b[p3] as int * 2) % 256;
                                let p4 = p3 + 1 + gl;
                                if p4 > b.len() {
                                    Err(VCRError::UnexpectedEof)
                                } else {
                                    Ok(DecodedEventView {
                                        category: b[0] as i8,
                                        etype,
                                        day: from_be16(b, 3) as i16,
                                        season: b[5] as i8,
                                        phase,
                                        id: if phase == 13 { Some(b.subrange(7, 23)) } else { None },
                                        description: text,
                                        player_tags: tags16(b, p1 + 1, pl / 2),
                                        team_tags: b.subrange(p2 + 1, p3),
                                        game_tags: tags16(b, p3 + 1, gl / 2),
                                        metadata: b.subrange(p4, b.len() as int),
                                    })
                                }
                            }
                        }
                    }
                },
            }
        }
    }
}

fn read_tags16(b: &[u8], start: usize, count: usize) -> (res: Vec<u16>)
    requires
        start + 2 * count <= b@.len(),
    ensures
        res@ == tags16(b@, start as int, count as int),
{
    let mut v: Vec<u16> = Vec::new();
    let n = b.len();
    let mut i: usize = 0;
    while i < count
        invariant
            i <= count,
            n == b@.len(),
            start + 2 * count <= n,
            v@ == tags16(b@, start as int, i as int),
        decreases count - i,
    {
        let x: u16 = b[start + 2 * i] as u16 * 256 + b[start + 2 * i + 1] as u16;
        v.push(x);
        assert(v@ =~= tags16(b@, start as int, i + 1));
        i = i + 1;
    }
    assert(v@ =~= tags16(b@, start as int, count as int));
    v
}

fn read_text(b: &[u8], p: usize) -> (res: VCRResult<(String, usize)>)
    ensures
        match spec_stored_text(b@, p as int) {
            Err(e) => res == Err::<(String, usize), VCRError>(e),
            Ok((t, q)) => (res matches Ok((s, q2)) && s@ == t && q2 == q),
        },
{
    let (l, q) = decode_varint(b, p)?;
    if l as usize > b.len() - q {
        return Err(VCRError::UnexpectedEof);
    }
    let part = slice_range(b, q, q + l as usize);
    let mut owned: Vec<u8> = Vec::new();
    crate::bytes::push_bytes(&mut owned, part);
    match utf8_to_string(owned) {
        Some(s) => Ok((s, q + l as usize)),
        None => Err(VCRError::Malformed),
    }
}

fn read_description(b: &[u8], p: usize, etype: i16) -> (res: VCRResult<(String, usize)>)
    requires
        p <= b@.len(),
    ensures
        match spec_decode_description(b@, p as int, etype) {
            Err(e) => res == Err::<(String, usize), VCRError>(e),
            Ok((t, q)) => (res matches Ok((s, q2)) && s@ == t && q2 == q),
        },
{
    match EventDescription::from_type(etype) {
        EventDescription::Constant(s) => Ok((String::from_str(s), p)),
        EventDescription::ConstantVariant(possibilities) => {
            if p >= b.len() {
                return Err(VCRError::UnexpectedEof);
            }
            let v = b[p] as usize;
            if v >= possibilities.len() {
                return Err(VCRError::Malformed);
            }
            Ok((String::from_str(possibilities[v]), p + 1))
        },
        EventDescription::Suffix(sfx) => {
            let (t, q) = read_text(b, p)?;
            Ok((t.concat(sfx), q))
        },
        EventDescription::Prefix(pfx) => {
            let (t, q) = read_text(b, p)?;
            Ok((String::from_str(pfx).concat(t.as_str()), q))
        },
        EventDescription::Variable => read_text(b, p),
    }
}

/// Reads a stored, decompressed event.
pub fn decode_event_bytes(b: &[u8]) -> (res: VCRResult<DecodedEvent>)
    ensures
        match spec_decode_event(b@) {
            Err(e) => res == Err::<DecodedEvent, VCRError>(e),
            Ok(v) => (res matches Ok(ev) && ev@ == v),
        },
{
    let n = b.len();
    if n < 7 {
        return Err(VCRError::UnexpectedEof);
    }
    let category = b[0] as i8;
    let etype = (b[1] as u16 * 256 + b[2] as u16) as i16;
    let day = (b[3] as u16 * 256 + b[4] as u16) as i16;
    let season = b[5] as i8;
    let phase = b[6];
    let mut id: Option<[u8; 16]> = None;
    let mut p: usize = 7;
    if phase == 13 {
        if n < 23 {
            return Err(VCRError::UnexpectedEof);
        }
        let mut a: [u8; 16] = [0u8; 16];
        let mut k: usize = 0;
        while k < 16
            invariant
                k <= 16,
                n == b@.len(),
                n >= 23,
                forall|j: int| 0 <= j < k ==> a@[j] == b@[7 + j],
            decreases 16 - k,
        {
            a[k] = b[7 + k];
            k = k + 1;
        }
        assert(a@ =~= b@.subrange(7, 23));
        id = Some(a);
        p = 23;
    }
    let (description, p1) = read_description(b, p, etype)?;
    if p1 >= n {
        return Err(VCRError::UnexpectedEof);
    }
    let pl: usize = b[p1].wrapping_mul(2) as usize;
    assert(pl == (b@[p1 as int] as int * 2) % 256) by {
        let x = b@[p1 as int];
        assert(x.wrapping_mul(2) as int == (x as int * 2) % 256) by (bit_vector);
    }
    if pl >= n - p1 - 1 {
        return Err(VCRError::UnexpectedEof);
    }
    let player_tags = read_tags16(b, p1 + 1, pl / 2);
    let p2 = p1 + 1 + pl;
    let tl: usize = b[p2] as usize;
    if tl >= n - p2 - 1 {
        return Err(VCRError::UnexpectedEof);
    }
    let team_part = slice_range(b, p2 + 1, p2 + 1 + tl);
    let mut team_tags: Vec<u8> = Vec::new();
    crate::bytes::push_bytes(&mut team_tags, team_part);
    let p3 = p2 + 1 + tl;
    let gl: usize = b[p3].wrapping_mul(2) as usize;
    assert(gl == (b@[p3 as int] as int * 2) % 256) by {
        let x = b@[p3 as int];
        assert(x.wrapping_mul(2) as int == (x as int * 2) % 256) by (bit_vector);
    }
    if gl > n - p3 - 1 {
        return Err(VCRError::UnexpectedEof);
    }
    let game_tags = read_tags16(b, p3 + 1, gl / 2);
    let p4 = p3 + 1 + gl;
    let meta_part = slice_range(b, p4, n);
    let mut metadata: Vec<u8> = Vec::new();
    crate::bytes::push_bytes(&mut metadata, meta_part);
    let ev = DecodedEvent {
        category, etype, day, season, phase, id, description, player_tags, team_tags, game_tags, metadata,
    };
    assert(ev@ == spec_decode_event(b@).unwrap());
    Ok(ev)
}

/// Decompresses a stored event with the feed's dictionary and reads it.
pub fn decode_event(compressed: &[u8], dictionary: &[u8]) -> (res: VCRResult<DecodedEvent>)
    ensures
        match zstd_stream_decompress(Some(dictionary@), compressed@) {
            None => res == Err::<DecodedEvent, VCRError>(VCRError::CompressionError),
            Some(b) => match spec_decode_event(b) {
                Err(e) => res == Err::<DecodedEvent, VCRError>(e),
                Ok(v) => (res matches Ok(ev) && ev@ == v),
            },
        },
{
    let bytes = stream_decompress(Some(dictionary), compressed)?;
    decode_event_bytes(bytes.as_slice())
}

/// The position delta of the `i`-th six-byte record of an offset table.
pub open spec fn record_delta(b: Seq<u8>, i: int) -> u16 {
    from_be16(b, 6 * i)
}

/// The time, in seconds, of the `i`-th record.
pub open spec fn record_time(b: Seq<u8>, i: int) -> u32 {
    from_be32(b, 6 * i + 2)
}

/// The sum of the position deltas of records `0..=i`.
pub open spec fn delta_sum(b: Seq<u8>, i: int) -> int
    decreases i + 1,
{
    if i < 0 {
        0
    } else {
        delta_sum(b, i - 1) + record_delta(b, i)
    }
}

/// The offset table entry of record `i` of `n`: its time, its start (cut to 32 bits) and its
/// length, which is the next record's delta, or 0 for the last record (read to the end).
pub open spec fn offset_entry(b: Seq<u8>, n: int, i: int) -> (u32, (u32, u16)) {
    (record_time(b, i), ((delta_sum(b, i) % 0x1_0000_0000) as u32, if i + 1 < n { record_delta(b, i + 1) } else { 0u16 }))
}

/// The entries of every whole record, in file order.
pub open spec fn offset_entries(b: Seq<u8>) -> Seq<(u32, (u32, u16))> {
    Seq::new((b.len() / 6) as nat, |i: int| offset_entry(b, (b.len() / 6) as int, i))
}

/// Builds the table of event positions from six-byte records (a big-endian position delta and
/// a big-endian time in seconds), ordered by time (records with the same time keep their
/// order); bytes after the last whole record are ignored.
pub fn make_offset_table(reader: &[u8]) -> (res: Vec<(u32, (u32, u16))>)
    ensures
        res@ == stable_sort(offset_entries(reader@), by_time_key::<(u32, (u32, u16))>()),
        keys_sorted(res@),
{
    let b = reader;
    let n = b.len() / 6;
    let mut index: Vec<(u32, (u32, u16))> = Vec::new();
    let mut acc: u32 = 0;
    let mut i: usize = 0;
    while i < n
        invariant
            n == b@.len() / 6,
            i <= n,
            acc as int == delta_sum(b@, i - 1) % 0x1_0000_0000,
            index@ =~= offset_entries(b@).subrange(0, i as int),
        decreases n - i,
    {
        let blen: usize = b.len();
        assert(6 * i + 5 < blen) by (nonlinear_arith)
            requires i < n, n == blen / 6;
        let delta: u16 = b[6 * i] as u16 * 256 + b[6 * i + 1] as u16;
        let time: u32 = b[6 * i + 2] as u32 * 0x100_0000 + b[6 * i + 3] as u32 * 0x1_0000 + b[6 * i + 4] as u32 * 256 + b[6 * i + 5] as u32;
        proof {
            vstd::arithmetic::div_mod::lemma_add_mod_noop(delta_sum(b@, i - 1), delta as int, 0x1_0000_0000);
            assert(delta as int % 0x1_0000_0000 == delta as int);
        }
        acc = acc.wrapping_add(delta as u32);
        let len: u16 = if i + 1 < n { b[6 * i + 6] as u16 * 256 + b[6 * i + 7] as u16 } else { 0 };
        index.push((time, (acc, len)));
        proof {
            assert(index@.last() == offset_entry(b@, n as int, i as int));
        }
        i = i + 1;
    }
    assert(index@ =~= offset_entries(b@));
    sort_by_time(&mut index);
    index
}

/// One section of a tag index: a key and the (time, offset, length) of each event under it.
pub struct IndexSection {
    pub key: u16,
    pub entries: Vec<(i64, u32, u16)>,
}

pub open spec fn section_view(s: IndexSection) -> (u16, Seq<(i64, u32, u16)>) {
    (s.key, s.entries@)
}

/// The value of `w` big-endian bytes at `p`, as an unsigned number.
pub open spec fn be_value(b: Seq<u8>, p: int, w: int) -> int
    decreases w,
{
    if w <= 0 {
        0
    } else {
        be_value(b, p, w - 1) * 256 + b[p + w - 1] as int
    }
}

/// One index entry at `p`: a time of `tw` bytes (4, unsigned, or 8, signed), an offset and a
/// length prefix.
pub open spec fn spec_index_entry(b: Seq<u8>, p: int, tw: int) -> Result<((i64, u32, u16), int), VCRError> {
    if p + tw + 4 > b.len() {
        Err(VCRError::UnexpectedEof)
    } else {
        match spec_decode_varint(b, p + tw + 4) {
            None => Err(VCRError::UnexpectedEof),
            Some((l, q)) => Ok(((if tw == 4 { be_value(b, p, 4) as i64 } else { be_value(b, p, 8) as u64 as i64 },
                be_value(b, p + tw, 4) as u32, l), q)),
        }
    }
}

/// The entries of a section, read while the position lies before `end`.
pub open spec fn spec_index_entries(b: Seq<u8>, p: int, end: int, tw: int) -> Result<(Seq<(i64, u32, u16)>, int), VCRError>
    decreases b.len() - p,
{
    if p >= end {
        Ok((Seq::empty(), p))
    } else {
        match spec_index_entry(b, p, tw) {
            Err(e) => Err(e),
            Ok((e, q)) => if q <= p || q > b.len() {
                Err(VCRError::Malformed)
            } else {
                match spec_index_entries(b, q, end, tw) {
                    Err(err) => Err(err),
                    Ok((rest, r)) => Ok((seq![e] + rest, r)),
                }
            },
        }
    }
}

/// The sections of an index held in `b`, each a key of `kw` bytes, a four-byte length of its
/// entries and the entries.
pub open spec fn spec_index_sections(b: Seq<u8>, p: int, kw: int, tw: int) -> Result<Seq<(u16, Seq<(i64, u32, u16)>)>, VCRError>
    decreases b.len() - p,
{
    if p >= b.len() {
        Ok(Seq::empty())
    } else if p + kw + 4 > b.len() {
        Err(VCRError::UnexpectedEof)
    } else {
        let key = be_value(b, p, kw) as u16;
        let klen = be_value(b, p + kw, 4);
        let s = p + kw + 4;
        match spec_index_entries(b, s, s + klen, tw) {
            Err(e) => Err(e),
            Ok((es, q)) => if q <= p || q > b.len() {
                Err(VCRError::Malformed)
            } else {
                match spec_index_sections(b, q, kw, tw) {
                    Err(e) => Err(e),
                    Ok(rest) => Ok(seq![(key, es)] + rest),
                }
            },
        }
    }
}

fn read_be(b: &[u8], p: usize, w: usize) -> (res: u64)
    requires
        p + w <= b@.len(),
        w <= 8,
    ensures
        res as int == be_value(b@, p as int, w as int),
        res as int <= pow256(w as int) - 1,
{
    let mut v: u64 = 0;
    let n = b.len();
    let mut k: usize = 0;
    while k < w
        invariant
            n == b@.len(),
            k <= w <= 8,
            p + w <= b@.len(),
            v as int == be_value(b@, p as int, k as int),
            v as int <= pow256(k as int) - 1,
        decreases w - k,
    {
        proof {
            assert(pow256(k + 1) == pow256(k as int) * 256);
            assert(v as int * 256 + 255 <= pow256(k + 1) - 1) by (nonlinear_arith)
                requires v as int <= pow256(k as int) - 1, pow256(k + 1) == pow256(k as int) * 256;
            lemma_pow256_bound(k + 1);
        }
        v = v * 256 + b[p + k] as u64;
        k = k + 1;
    }
    v
}

pub open spec fn pow256(k: int) -> int
    decreases k,
{
    if k <= 0 { 1 } else { pow256(k - 1) * 256 }
}

proof fn lemma_pow256_bound(k: int)
    requires
        0 <= k <= 8,
    ensures
        pow256(k) <= 0x1_0000_0000_0000_0000,
{
    reveal_with_fuel(pow256, 9);
    if k == 0 {
    } else if k == 1 {
    } else if k == 2 {
    } else if k == 3 {
    } else if k == 4 {
    } else if k == 5 {
    } else if k == 6 {
    } else if k == 7 {
    } else {
    }
}

fn read_index_entry(b: &[u8], p: usize, tw: usize) -> (res: VCRResult<((i64, u32, u16), usize)>)
    requires
        tw == 4 || tw == 8,
    ensures
        match spec_index_entry(b@, p as int, tw as int) {
            Err(e) => res == Err::<((i64, u32, u16), usize), VCRError>(e),
            Ok((e, q)) => res == Ok::<((i64, u32, u16), usize), VCRError>((e, q as usize)) && p < q <= b@.len(),
        },
{
    if tw + 4 > b.len() || p > b.len() - tw - 4 {
        return Err(VCRError::UnexpectedEof);
    }
    let t = read_be(b, p, tw);
    let time: i64 = if tw == 4 { t as i64 } else { t as i64 };
    let offset = read_be(b, p + tw, 4) as u32;
    let (l, q) = decode_varint(b, p + tw + 4)?;
    Ok(((time, offset, l), q))
}

fn read_index_entries(b: &[u8], p: usize, end: u128, tw: usize) -> (res: VCRResult<(Vec<(i64, u32, u16)>, usize)>)
    requires
        tw == 4 || tw == 8,
        p <= b@.len(),
    ensures
        match spec_index_entries(b@, p as int, end as int, tw as int) {
            Err(e) => res == Err::<(Vec<(i64, u32, u16)>, usize), VCRError>(e),
            Ok((es, q)) => (res matches Ok((v, q2)) && v@ == es && q2 == q),
        },
{
    let mut out: Vec<(i64, u32, u16)> = Vec::new();
    let mut pos = p;
    let n = b.len();
    while (pos as u128) < end
        invariant
            n == b@.len(),
            tw == 4 || tw == 8,
            pos <= b@.len(),
            spec_index_entries(b@, p as int, end as int, tw as int) == match spec_index_entries(b@, pos as int, end as int, tw as int) {
                Err(e) => Err(e),
                Ok((rest, r)) => Ok((out@ + rest, r)),
            },
        decreases b@.len() - pos,
    {
        let ((t, o, l), q) = match read_index_entry(b, pos, tw) {
            Ok(x) => x,
            Err(e) => return Err(e),
        };
        let ghost before = out@;
        out.push((t, o, l));
        proof {
            let r = spec_index_entries(b@, q as int, end as int, tw as int);
            match r {
                Err(e) => {},
                Ok((rest, rr)) => {
                    assert(before + (seq![(t, o, l)] + rest) =~= out@ + rest);
                },
            }
        }
        pos = q;
    }
    proof {
        assert(out@ + Seq::<(i64, u32, u16)>::empty() =~= out@);
    }
    Ok((out, pos))
}

fn read_index_sections(b: &[u8], kw: usize, tw: usize) -> (res: VCRResult<Vec<IndexSection>>)
    requires
        kw == 1 || kw == 2,
        tw == 4 || tw == 8,
    ensures
        match spec_index_sections(b@, 0, kw as int, tw as int) {
            Err(e) => res == Err::<Vec<IndexSection>, VCRError>(e),
            Ok(ss) => (res matches Ok(v) && v@.map_values(|s: IndexSection| section_view(s)) == ss),
        },
{
    let mut out: Vec<IndexSection> = Vec::new();
    let mut pos: usize = 0;
    let n = b.len();
    while pos < b.len()
        invariant
            n == b@.len(),
            kw == 1 || kw == 2,
            tw == 4 || tw == 8,
            pos <= b@.len(),
            spec_index_sections(b@, 0, kw as int, tw as int) == match spec_index_sections(b@, pos as int, kw as int, tw as int) {
                Err(e) => Err(e),
                Ok(rest) => Ok(out@.map_values(|s: IndexSection| section_view(s)) + rest),
            },
        decreases b@.len() - pos,
    {
        if kw + 4 > b.len() - pos {
            return Err(VCRError::UnexpectedEof);
        }
        let key = read_be(b, pos, kw) as u16;
        let klen = read_be(b, pos + kw, 4);
        let s = pos + kw + 4;
        let (entries, q) = match read_index_entries(b, s, s as u128 + klen as u128, tw) {
            Ok(x) => x,
            Err(e) => return Err(e),
        };
        if q <= pos || q > b.len() {
            return Err(VCRError::Malformed);
        }
        let ghost before = out@.map_values(|s: IndexSection| section_view(s));
        out.push(IndexSection { key, entries });
        proof {
            assert(out@.map_values(|s: IndexSection| section_view(s)) =~= before.push(section_view(out@.last())));
            match spec_index_sections(b@, q as int, kw as int, tw as int) {
                Err(e) => {},
                Ok(rest) => {
                    assert(before + (seq![section_view(out@.last())] + rest)
                        =~= out@.map_values(|s: IndexSection| section_view(s)) + rest);
                },
            }
        }
        pos = q;
    }
    proof {
        let m = out@.map_values(|s: IndexSection| section_view(s));
        assert(m + Seq::<(u16, Seq<(i64, u32, u16)>)>::empty() =~= m);
    }
    Ok(out)
}

/// An index stored as a four-byte length followed by that many bytes of sections.
pub open spec fn spec_index_block(b: Seq<u8>, p: int, kw: int, tw: int) -> Result<(Seq<(u16, Seq<(i64, u32, u16)>)>, int), VCRError> {
    if p < 0 || p + 4 > b.len() {
        Err(VCRError::UnexpectedEof)
    } else {
        let l = be_value(b, p, 4);
        if p + 4 + l > b.len() {
            Err(VCRError::UnexpectedEof)
        } else {
            match spec_index_sections(b.subrange(p + 4, p + 4 + l), 0, kw, tw) {
                Err(e) => Err(e),
                Ok(ss) => Ok((ss, p + 4 + l)),
            }
        }
    }
}

fn read_index_block(b: &[u8], p: usize, kw: usize, tw: usize) -> (res: VCRResult<(Vec<IndexSection>, usize)>)
    requires
        kw == 1 || kw == 2,
        tw == 4 || tw == 8,
    ensures
        match spec_index_block(b@, p as int, kw as int, tw as int) {
            Err(e) => res == Err::<(Vec<IndexSection>, usize), VCRError>(e),
            Ok((ss, q)) => (res matches Ok((v, q2)) && v@.map_values(|s: IndexSection| section_view(s)) == ss && q2 == q),
        },
{
    if p > b.len() || b.len() - p < 4 {
        return Err(VCRError::UnexpectedEof);
    }
    let l64 = read_be(b, p, 4);
    proof {
        reveal_with_fuel(pow256, 5);
    }
    let l = l64 as usize;
    if l > b.len() - p - 4 {
        return Err(VCRError::UnexpectedEof);
    }
    let part = slice_range(b, p + 4, p + 4 + l);
    let sections = read_index_sections(part, kw, tw)?;
    Ok((sections, p + 4 + l))
}

/// The four tag indexes of the feed: by game, by player, by team, and by (season, phase).
pub struct FeedIndexes {
    pub game_index: Vec<IndexSection>,
    pub player_index: Vec<IndexSection>,
    pub team_index: Vec<IndexSection>,
    pub phase_index: Vec<IndexSection>,
}

/// The indexes one after another: games and players with two-byte keys, teams with one-byte
/// keys (all with four-byte times), and phases with a two-byte (season, phase) key and
/// eight-byte signed times in milliseconds.
pub open spec fn spec_feed_indexes(b: Seq<u8>) -> Result<Seq<Seq<(u16, Seq<(i64, u32, u16)>)>>, VCRError> {
    match spec_index_block(b, 0, 2, 4) {
        Err(e) => Err(e),
        Ok((g, p1)) => match spec_index_block(b, p1, 2, 4) {
            Err(e) => Err(e),
            Ok((pl, p2)) => match spec_index_block(b, p2, 1, 4) {
                Err(e) => Err(e),
                Ok((t, p3)) => match spec_index_block(b, p3, 2, 8) {
                    Err(e) => Err(e),
                    Ok((ph, _)) => Ok(seq![g, pl, t, ph]),
                },
            },
        },
    }
}

/// Reads the tag indexes from their decompressed bytes.
pub fn parse_feed_indexes(bytes: &[u8]) -> (res: VCRResult<FeedIndexes>)
    ensures
        match spec_feed_indexes(bytes@) {
            Err(e) => res == Err::<FeedIndexes, VCRError>(e),
            Ok(all) => (res matches Ok(ix)
                && ix.game_index@.map_values(|s: IndexSection| section_view(s)) == all[0]
                && ix.player_index@.map_values(|s: IndexSection| section_view(s)) == all[1]
                && ix.team_index@.map_values(|s: IndexSection| section_view(s)) == all[2]
                && ix.phase_index@.map_values(|s: IndexSection| section_view(s)) == all[3]),
        },
{
    let (game_index, p1) = read_index_block(bytes, 0, 2, 4)?;
    let (player_index, p2) = read_index_block(bytes, p1, 2, 4)?;
    let (team_index, p3) = read_index_block(bytes, p2, 1, 4)?;
    let (phase_index, _) = read_index_block(bytes, p3, 2, 8)?;
    Ok(FeedIndexes { game_index, player_index, team_index, phase_index })
}

} // verus!
