use vstd::prelude::*;
use std::collections::HashMap;
use vstd::utf8::{valid_utf8, decode_utf8};
use crate::{VCRError, VCRResult};
use crate::bytes::{be32, from_be32, push_bytes, push_be32, utf8_bytes, lemma_str_bytes};
use crate::varint::{lemma_leb128_read_u32, lemma_leb128_read_u16, leb128, varint_u32_bytes, varint_u16_bytes, varint_u32_read, varint_u16_read, read_varint_u32, read_varint_u16};
use crate::compress::{slice_range, utf8_to_string};
use crate::uuid_text::{uuid_text, uuid_to_string};
use super::{BaseValue, EntityData};

verus! {

broadcast use vstd::std_specs::hash::group_hash_axioms;

/// The byte that names the kind of an entity's base value.
pub open spec fn base_kind(b: BaseValue) -> u8 {
    match b {
        BaseValue::Null => 0,
        BaseValue::Bool => 1,
        BaseValue::Number => 2,
        BaseValue::String => 3,
        BaseValue::Array => 4,
        BaseValue::Object => 5,
    }
}

/// The base value that a kind byte names; `None` for bytes above 5.
pub open spec fn base_of_kind(k: u8) -> Option<BaseValue> {
    if k == 0 { Some(BaseValue::Null) }
    else if k == 1 { Some(BaseValue::Bool) }
    else if k == 2 { Some(BaseValue::Number) }
    else if k == 3 { Some(BaseValue::String) }
    else if k == 4 { Some(BaseValue::Array) }
    else if k == 5 { Some(BaseValue::Object) }
    else { None }
}

/// The stored path table: for each (id, path), the byte length of the path (cut to 8 bits),
/// its UTF-8 bytes and the id as a variable-length integer.
pub open spec fn path_bytes(paths: Seq<(u16, Seq<char>)>) -> Seq<u8>
    decreases paths.len(),
{
    if paths.len() == 0 {
        Seq::empty()
    } else {
        let (id, s) = paths.last();
        path_bytes(paths.drop_last()) + seq![utf8_bytes(s).len() as u8] + utf8_bytes(s) + leb128(id as nat)
    }
}

/// The start of an entity header: the position of its first patch, the checkpoint interval,
/// the length of the path table and the table, and the kind of the base value.
pub open spec fn spec_header_start(base: BaseValue, checkpoint_every: u16, paths: Seq<(u16, Seq<char>)>, start_pos: u32) -> Seq<u8> {
    leb128(start_pos as nat) + leb128(checkpoint_every as nat) + leb128((path_bytes(paths).len() as u32) as nat)
        + path_bytes(paths) + seq![base_kind(base)]
}

/// The record of one patch: its time in big-endian order and the distance from the previous
/// patch's start.
pub open spec fn spec_patch_record(time: u32, position_delta: u32) -> Seq<u8> {
    be32(time) + leb128(position_delta as nat)
}

/// Writes the header of an entity's patches.
pub struct HeaderEncoder {
    writer: Vec<u8>,
}

impl HeaderEncoder {
    /// The bytes written so far.
    pub closed spec fn written(&self) -> Seq<u8> {
        self.writer@
    }

    pub fn new(base: BaseValue, checkpoint_every: u16, path_map: &Vec<(u16, String)>, start_pos: u32, writer: Vec<u8>) -> (res: HeaderEncoder)
        ensures
            res.written() == writer@ + spec_header_start(base, checkpoint_every,
                path_map@.map_values(|e: (u16, String)| (e.0, e.1@)), start_pos),
    {
        let ghost paths = path_map@.map_values(|e: (u16, String)| (e.0, e.1@));
        let mut w = writer;
        let ghost w0 = w@;
        let a = varint_u32_bytes(start_pos);
        push_bytes(&mut w, a.as_slice());
        let c = varint_u16_bytes(checkpoint_every);
        push_bytes(&mut w, c.as_slice());
        let mut pb: Vec<u8> = Vec::new();
        let mut i: usize = 0;
        while i < path_map.len()
            invariant
                i <= path_map@.len(),
                paths == path_map@.map_values(|e: (u16, String)| (e.0, e.1@)),
                pb@ == path_bytes(paths.subrange(0, i as int)),
            decreases path_map@.len() - i,
        {
            let s = path_map[i].1.as_str();
            let sb = s.as_bytes();
            proof { lemma_str_bytes(s); }
            pb.push(sb.len() as u8);
            push_bytes(&mut pb, sb);
            let idb = varint_u16_bytes(path_map[i].0);
            push_bytes(&mut pb, idb.as_slice());
            proof {
                assert(paths.subrange(0, i + 1).drop_last() =~= paths.subrange(0, i as int));
                assert(paths.subrange(0, i + 1).last() == paths[i as int]);
            }
            i = i + 1;
        }
        proof {
            assert(paths.subrange(0, path_map@.len() as int) =~= paths);
        }
        let l = varint_u32_bytes(pb.len() as u32);
        push_bytes(&mut w, l.as_slice());
        push_bytes(&mut w, pb.as_slice());
        let k: u8 = match base {
            BaseValue::Null => 0,
            BaseValue::Bool => 1,
            BaseValue::Number => 2,
            BaseValue::String => 3,
            BaseValue::Array => 4,
            BaseValue::Object => 5,
        };
        w.push(k);
        assert(w@ =~= w0 + spec_header_start(base, checkpoint_every, paths, start_pos));
        HeaderEncoder { writer: w }
    }

    /// Writes the record of one patch.
    pub fn write_patch(&mut self, time: u32, position_delta: u32)
        ensures
            final(self).written() == old(self).written() + spec_patch_record(time, position_delta),
    {
        push_be32(&mut self.writer, time);
        let d = varint_u32_bytes(position_delta);
        push_bytes(&mut self.writer, d.as_slice());
        assert(self.writer@ =~= old(self).writer@ + spec_patch_record(time, position_delta));
    }

    /// Hands back the bytes written.
    pub fn release(self) -> (res: Vec<u8>)
        ensures
            res@ == self.written(),
    {
        self.writer
    }
}

/// An entity's data as plain values: patches, path table, checkpoint interval and base.
pub struct EntityView {
    pub patches: Seq<(u32, u32, u32)>,
    pub path_map: Map<u16, Seq<char>>,
    pub checkpoint_every: u16,
    pub base: BaseValue,
}

pub open spec fn entity_view(e: &EntityData) -> EntityView {
    EntityView {
        patches: e.patches@,
        path_map: e.path_map@.map_values(|s: String| s@),
        checkpoint_every: e.checkpoint_every,
        base: e.base,
    }
}

/// Reads the path table from `p` while the position lies before `end`; a later entry with the
/// same id replaces an earlier one.
pub open spec fn spec_paths(h: Seq<u8>, p: int, end: int, m: Map<u16, Seq<char>>) -> Result<(Map<u16, Seq<char>>, int), VCRError>
    decreases h.len() - p,
{
    if p >= end {
        Ok((m, p))
    } else if p < 0 || p >= h.len() {
        Err(VCRError::UnexpectedEof)
    } else {
        let sl = h[p] as int;
        if p + 1 + sl > h.len() {
            Err(VCRError::UnexpectedEof)
        } else {
            let (r, c) = varint_u16_read(h.subrange(p + 1 + sl, h.len() as int));
            match r {
                Err(e) => Err(e),
                Ok(id) => {
                    let s = h.subrange(p + 1, p + 1 + sl);
                    if c < 1 || p + 1 + sl + c > h.len() {
                        Err(VCRError::Malformed)
                    } else if !valid_utf8(s) {
                        Err(VCRError::Utf8Error)
                    } else {
                        spec_paths(h, p + 1 + sl + c, end, m.insert(id, decode_utf8(s)))
                    }
                },
            }
        }
    }
}

/// Reads the patch records from `p` until fewer than four bytes remain, giving the time and
/// the start (each start the previous one plus the stored distance, wrapping at 32 bits).
pub open spec fn spec_starts(h: Seq<u8>, p: int, last: u32) -> Result<Seq<(u32, u32)>, VCRError>
    decreases h.len() - p,
{
    if p < 0 || p + 4 > h.len() {
        Ok(Seq::empty())
    } else {
        let t = from_be32(h, p);
        let (r, c) = varint_u32_read(h.subrange(p + 4, h.len() as int));
        match r {
            Err(e) => Err(e),
            Ok(d) => if c < 1 || p + 4 + c > h.len() {
                Err(VCRError::Malformed)
            } else {
                let s = ((last as int + d as int) % 0x1_0000_0000) as u32;
                match spec_starts(h, p + 4 + c, s) {
                    Err(e) => Err(e),
                    Ok(rest) => Ok(seq![(t, s)] + rest),
                }
            },
        }
    }
}

/// The (time, start, length) of each patch: a length runs to the next patch's start, or to
/// the end position for the last patch (wrapping at 32 bits).
pub open spec fn patch_triples(st: Seq<(u32, u32)>, end_position: u32) -> Seq<(u32, u32, u32)> {
    Seq::new(st.len(), |i: int| (st[i].0, st[i].1,
        (((if i + 1 < st.len() { st[i + 1].1 as int } else { end_position as int }) - st[i].1 as int) % 0x1_0000_0000) as u32))
}

/// Reads one entity header.
pub open spec fn spec_parse_header(h: Seq<u8>, end_position: u32) -> Result<EntityView, VCRError> {
    let (r1, c1) = varint_u32_read(h);
    match r1 {
        Err(e) => Err(e),
        Ok(last) => if c1 < 0 || c1 > h.len() { Err(VCRError::Malformed) } else {
            let (r2, c2) = varint_u16_read(h.subrange(c1, h.len() as int));
            match r2 {
                Err(e) => Err(e),
                Ok(cp) => if c2 < 0 || c1 + c2 > h.len() { Err(VCRError::Malformed) } else {
                    let (r3, c3) = varint_u32_read(h.subrange(c1 + c2, h.len() as int));
                    match r3 {
                        Err(e) => Err(e),
                        Ok(pbl) => {
                            let start = c1 + c2 + c3;
                            match spec_paths(h, start, start + pbl, Map::empty()) {
                                Err(e) => Err(e),
                                Ok((m, p)) => if p < 0 || p >= h.len() {
                                    Err(VCRError::UnexpectedEof)
                                } else {
                                    match base_of_kind(h[p]) {
                                        None => Err(VCRError::InvalidPatchData),
                                        Some(base) => match spec_starts(h, p + 1, last) {
                                            Err(e) => Err(e),
                                            Ok(st) => Ok(EntityView {
                                                patches: patch_triples(st, end_position),
                                                path_map: m,
                                                checkpoint_every: cp,
                                                base,
                                            }),
                                        },
                                    }
                                },
                            }
                        },
                    }
                },
            }
        },
    }
}

/// Reads the headers of every entity from `p` until the input ends where a header would
/// start: each is the header's length and the entity's end position (both variable-length),
/// the entity's UUID and the header.
pub open spec fn spec_entities(b: Seq<u8>, p: int) -> Result<Seq<(Seq<char>, EntityView)>, VCRError>
    decreases b.len() - p,
{
    if p < 0 || p > b.len() {
        Err(VCRError::Malformed)
    } else {
        let (r1, c1) = varint_u32_read(b.subrange(p, b.len() as int));
        if r1 == Err::<u32, VCRError>(VCRError::UnexpectedEof) {
            Ok(Seq::empty())
        } else if c1 < 1 || p + c1 > b.len() {
            Err(VCRError::Malformed)
        } else {
            let (r2, c2) = varint_u32_read(b.subrange(p + c1, b.len() as int));
            match r2 {
                Err(e) => Err(e),
                Ok(end_position) => {
                    let q = p + c1 + c2;
                    if c2 < 0 || q + 16 > b.len() {
                        Err(VCRError::UnexpectedEof)
                    } else {
                        match r1 {
                            Err(e) => Err(e),
                            Ok(l) => if q + 16 + l > b.len() {
                                Err(VCRError::UnexpectedEof)
                            } else {
                                match spec_parse_header(b.subrange(q + 16, q + 16 + l), end_position) {
                                    Err(e) => Err(e),
                                    Ok(ev) => match spec_entities(b, q + 16 + l) {
                                        Err(e) => Err(e),
                                        Ok(rest) => Ok(seq![(uuid_text(b.subrange(q, q + 16)), ev)] + rest),
                                    },
                                }
                            },
                        }
                    }
                },
            }
        }
    }
}

fn read_paths(h: &[u8], start: usize, end: u128) -> (res: VCRResult<(HashMap<u16, String>, usize)>)
    requires
        start <= h@.len(),
    ensures
        match spec_paths(h@, start as int, end as int, Map::empty()) {
            Err(e) => res == Err::<(HashMap<u16, String>, usize), VCRError>(e),
            Ok((m, q)) => (res matches Ok((hm, q2)) && hm@.map_values(|s: String| s@) == m && q2 == q),
        },
{
    let mut m: HashMap<u16, String> = HashMap::new();
    assert(m@.map_values(|s: String| s@) =~= Map::<u16, Seq<char>>::empty());
    let mut p = start;
    let n = h.len();
    while (p as u128) < end
        invariant
            n == h@.len(),
            p <= n,
            spec_paths(h@, start as int, end as int, Map::empty())
                == spec_paths(h@, p as int, end as int, m@.map_values(|s: String| s@)),
        decreases n - p,
    {
        if p >= n {
            return Err(VCRError::UnexpectedEof);
        }
        let sl = h[p] as usize;
        if sl > n - p - 1 {
            return Err(VCRError::UnexpectedEof);
        }
        let (r, next) = read_varint_u16(h, p + 1 + sl);
        proof {
            assert(h@.subrange(p + 1 + sl, n as int) == h@.subrange((p + 1 + sl) as int, h@.len() as int));
        }
        let id = match r {
            Ok(id) => id,
            Err(e) => return Err(e),
        };
        let part = slice_range(h, p + 1, p + 1 + sl);
        let mut owned: Vec<u8> = Vec::new();
        push_bytes(&mut owned, part);
        let s = match utf8_to_string(owned) {
            Some(s) => s,
            None => return Err(VCRError::Utf8Error),
        };
        let ghost before = m@.map_values(|s: String| s@);
        let ghost sv = s@;
        m.insert(id, s);
        proof {
            assert(m@.map_values(|s: String| s@) =~= before.insert(id, sv));
        }
        p = next;
    }
    Ok((m, p))
}

fn read_starts(h: &[u8], start: usize, last: u32) -> (res: VCRResult<Vec<(u32, u32)>>)
    requires
        start <= h@.len(),
    ensures
        match spec_starts(h@, start as int, last) {
            Err(e) => res == Err::<Vec<(u32, u32)>, VCRError>(e),
            Ok(st) => (res matches Ok(v) && v@ == st),
        },
{
    let mut out: Vec<(u32, u32)> = Vec::new();
    let mut p = start;
    let mut last_position = last;
    let n = h.len();
    while n - p >= 4
        invariant
            n == h@.len(),
            p <= n,
            spec_starts(h@, start as int, last) == match spec_starts(h@, p as int, last_position) {
                Err(e) => Err(e),
                Ok(rest) => Ok(out@ + rest),
            },
        decreases n - p,
    {
        let t: u32 = h[p] as u32 * 0x100_0000 + h[p + 1] as u32 * 0x1_0000 + h[p + 2] as u32 * 256 + h[p + 3] as u32;
        let (r, next) = read_varint_u32(h, p + 4);
        let d = match r {
            Ok(d) => d,
            Err(e) => return Err(e),
        };
        let s = last_position.wrapping_add(d);
        let ghost before = out@;
        out.push((t, s));
        proof {
            match spec_starts(h@, next as int, s) {
                Err(e) => {},
                Ok(rest) => {
                    assert(before + (seq![(t, s)] + rest) =~= out@ + rest);
                },
            }
        }
        last_position = s;
        p = next;
    }
    proof {
        assert(out@ + Seq::<(u32, u32)>::empty() =~= out@);
    }
    Ok(out)
}

fn make_triples(st: &Vec<(u32, u32)>, end_position: u32) -> (res: Vec<(u32, u32, u32)>)
    ensures
        res@ == patch_triples(st@, end_position),
{
    let mut out: Vec<(u32, u32, u32)> = Vec::new();
    let mut i: usize = 0;
    while i < st.len()
        invariant
            i <= st@.len(),
            out@ =~= patch_triples(st@, end_position).subrange(0, i as int),
        decreases st@.len() - i,
    {
        let (t, s) = st[i];
        let next: u32 = if i + 1 < st.len() { st[i + 1].1 } else { end_position };
        let l = next.wrapping_sub(s);
        out.push((t, s, l));
        i = i + 1;
    }
    assert(out@ =~= patch_triples(st@, end_position));
    out
}

/// Reads one entity header.
pub fn parse_header(h: &[u8], end_position: u32) -> (res: VCRResult<EntityData>)
    ensures
        match spec_parse_header(h@, end_position) {
            Err(e) => res == Err::<EntityData, VCRError>(e),
            Ok(v) => (res matches Ok(d) && entity_view(&d) == v),
        },
{
    let n = h.len();
    proof { assert(h@.subrange(0, n as int) =~= h@); }
    let (r1, c1) = read_varint_u32(h, 0);
    let last = r1?;
    let (r2, c2) = read_varint_u16(h, c1);
    let checkpoint_every = r2?;
    let (r3, c3) = read_varint_u32(h, c2);
    let pbl = r3?;
    let (path_map, p) = read_paths(h, c3, c3 as u128 + pbl as u128)?;
    if p >= n {
        return Err(VCRError::UnexpectedEof);
    }
    let base = match h[p] {
        0 => BaseValue::Null,
        1 => BaseValue::Bool,
        2 => BaseValue::Number,
        3 => BaseValue::String,
        4 => BaseValue::Array,
        5 => BaseValue::Object,
        _ => return Err(VCRError::InvalidPatchData),
    };
    let starts = read_starts(h, p + 1, last)?;
    let patches = make_triples(&starts, end_position);
    Ok(EntityData { patches, path_map, checkpoint_every, base })
}

/// Reads the headers of every entity: the UUID text of each entity with its data, in the order
/// stored (a later entry for the same UUID is meant to replace an earlier one).
pub fn decode_header(b: &[u8]) -> (res: VCRResult<Vec<(String, EntityData)>>)
    ensures
        match spec_entities(b@, 0) {
            Err(e) => res == Err::<Vec<(String, EntityData)>, VCRError>(e),
            Ok(es) => (res matches Ok(v) && v@.map_values(|e: (String, EntityData)| (e.0@, entity_view(&e.1))) == es),
        },
{
    let mut out: Vec<(String, EntityData)> = Vec::new();
    let mut p: usize = 0;
    let n = b.len();
    loop
        invariant
            n == b@.len(),
            p <= n,
            spec_entities(b@, 0) == match spec_entities(b@, p as int) {
                Err(e) => Err(e),
                Ok(rest) => Ok(out@.map_values(|e: (String, EntityData)| (e.0@, entity_view(&e.1))) + rest),
            },
        decreases n - p,
    {
        let ghost mv = out@.map_values(|e: (String, EntityData)| (e.0@, entity_view(&e.1)));
        let (len_res, c1) = read_varint_u32(b, p);
        if crate::utils::is_eof(&len_res) {
            proof {
                assert(mv + Seq::<(Seq<char>, EntityView)>::empty() =~= mv);
            }
            return Ok(out);
        }
        let (r2, c2) = read_varint_u32(b, c1);
        let end_position = match r2 {
            Ok(x) => x,
            Err(e) => return Err(e),
        };
        if c2 > n || n - c2 < 16 {
            return Err(VCRError::UnexpectedEof);
        }
        let mut id: [u8; 16] = [0u8; 16];
        let mut k: usize = 0;
        while k < 16
            invariant
                k <= 16,
                n == b@.len(),
                c2 + 16 <= n,
                forall|j: int| 0 <= j < k ==> id@[j] == b@[c2 + j],
            decreases 16 - k,
        {
            id[k] = b[c2 + k];
            k = k + 1;
        }
        assert(id@ =~= b@.subrange(c2 as int, c2 + 16));
        let l = match len_res {
            Ok(x) => x,
            Err(e) => return Err(e),
        };
        let q = c2 + 16;
        if l as usize > n - q {
            return Err(VCRError::UnexpectedEof);
        }
        let h = slice_range(b, q, q + l as usize);
        let data = match parse_header(h, end_position) {
            Ok(d) => d,
            Err(e) => return Err(e),
        };
        let key = uuid_to_string(&id);
        let ghost item = (key@, entity_view(&data));
        out.push((key, data));
        proof {
            assert(out@.map_values(|e: (String, EntityData)| (e.0@, entity_view(&e.1))) =~= mv.push(item));
            match spec_entities(b@, q + l) {
                Err(e) => {},
                Ok(rest) => {
                    assert(mv + (seq![item] + rest) =~= mv.push(item) + rest);
                },
            }
        }
        p = q + l as usize;
    }
}


/// The path table that a list of (id, path) entries makes over `m`: a later entry for an id
/// replaces an earlier one.
pub open spec fn paths_over(m: Map<u16, Seq<char>>, paths: Seq<(u16, Seq<char>)>) -> Map<u16, Seq<char>>
    decreases paths.len(),
{
    if paths.len() == 0 {
        m
    } else {
        paths_over(m, paths.drop_last()).insert(paths.last().0, paths.last().1)
    }
}

/// Every path is shorter than 256 bytes of UTF-8, so that its length fits the byte it is
/// written in.
pub open spec fn short_paths(paths: Seq<(u16, Seq<char>)>) -> bool {
    forall|i: int| 0 <= i < paths.len() ==> #[trigger] utf8_bytes(paths[i].1).len() < 256
}

proof fn lemma_read_paths(h: Seq<u8>, p: int, end: int, m: Map<u16, Seq<char>>, paths: Seq<(u16, Seq<char>)>)
    requires
        short_paths(paths),
        0 <= p,
        p + path_bytes(paths).len() <= end,
        p + path_bytes(paths).len() <= h.len(),
        h.subrange(p, p + path_bytes(paths).len()) == path_bytes(paths),
    ensures
        spec_paths(h, p, end, m) == spec_paths(h, p + path_bytes(paths).len(), end, paths_over(m, paths)),
    decreases paths.len(),
{
    if paths.len() > 0 {
        let d = paths.drop_last();
        let (id, text) = paths.last();
        let bytes = utf8_bytes(text);
        let sl = bytes.len() as int;
        let lb = leb128(id as nat);
        let pd = path_bytes(d);
        let q = p + pd.len();
        assert(path_bytes(paths) == pd + seq![sl as u8] + bytes + lb);
        assert forall|i: int| 0 <= i < d.len() implies #[trigger] utf8_bytes(d[i].1).len() < 256 by {
            assert(d[i] == paths[i]);
        }
        assert(utf8_bytes(paths[paths.len() - 1].1).len() < 256);
        assert(h.subrange(p, q) =~= path_bytes(paths).subrange(0, pd.len() as int));
        assert(path_bytes(paths).subrange(0, pd.len() as int) =~= pd);
        lemma_read_paths(h, p, end, m, d);
        let m2 = paths_over(m, d);
        let total = path_bytes(paths).len() as int;
        assert(total == pd.len() + 1 + sl + lb.len());
        assert(h[q] == path_bytes(paths)[pd.len() as int]);
        assert(h[q] == sl as u8);
        assert((sl as u8) as int == sl);
        let rest = h.subrange(q + 1 + sl, h.len() as int);
        assert(rest =~= lb + h.subrange(q + 1 + sl + lb.len(), h.len() as int)) by {
            assert forall|k: int| 0 <= k < lb.len() implies rest[k] == lb[k] by {
                assert(rest[k] == h[q + 1 + sl + k]);
                assert(h[q + 1 + sl + k] == path_bytes(paths)[pd.len() + 1 + sl + k]);
            }
        }
        lemma_leb128_read_u16(id, h.subrange(q + 1 + sl + lb.len(), h.len() as int));
        let sb = h.subrange(q + 1, q + 1 + sl);
        assert(sb =~= bytes) by {
            assert forall|k: int| 0 <= k < sl implies sb[k] == bytes[k] by {
                assert(sb[k] == h[q + 1 + k]);
                assert(h[q + 1 + k] == path_bytes(paths)[pd.len() + 1 + k]);
            }
        }
        reveal(utf8_bytes);
        vstd::utf8::encode_utf8_valid_utf8(text);
        vstd::utf8::encode_utf8_decode_utf8(text);
        assert(lb.len() >= 1);
    }
}

/// The bytes of patch records written one after another: time and distance from the
/// previous start.
pub open spec fn records_bytes(r: Seq<(u32, u32)>) -> Seq<u8>
    decreases r.len(),
{
    if r.len() == 0 {
        Seq::empty()
    } else {
        records_bytes(r.drop_last()) + spec_patch_record(r.last().0, r.last().1)
    }
}

/// The (time, start) of each record: each start is the previous one (first `last`) plus the
/// record's distance, wrapping at 32 bits.
pub open spec fn record_starts(r: Seq<(u32, u32)>, last: u32) -> Seq<(u32, u32)>
    decreases r.len(),
{
    if r.len() == 0 {
        Seq::empty()
    } else {
        let s = ((last as int + r[0].1 as int) % 0x1_0000_0000) as u32;
        seq![(r[0].0, s)] + record_starts(r.drop_first(), s)
    }
}

proof fn lemma_records_front(r: Seq<(u32, u32)>)
    requires
        r.len() > 0,
    ensures
        records_bytes(r) == spec_patch_record(r[0].0, r[0].1) + records_bytes(r.drop_first()),
    decreases r.len(),
{
    if r.len() == 1 {
        assert(r.drop_first() =~= Seq::<(u32, u32)>::empty());
        assert(r.drop_last() =~= Seq::<(u32, u32)>::empty());
        assert(records_bytes(r.drop_last()) == Seq::<u8>::empty());
        assert(records_bytes(r.drop_first()) == Seq::<u8>::empty());
        assert(r.last() == r[0]);
        assert(records_bytes(r) =~= spec_patch_record(r[0].0, r[0].1));
    } else {
        lemma_records_front(r.drop_last());
        assert(r.drop_last().drop_first() =~= r.drop_first().drop_last());
        assert(r.drop_first().last() == r.last());
        assert(r.drop_last()[0] == r[0]);
        assert(records_bytes(r) =~= spec_patch_record(r[0].0, r[0].1) + records_bytes(r.drop_first()));
    }
}

proof fn lemma_be32_roundtrip(x: u32)
    ensures
        from_be32(be32(x), 0) == x,
{
    let b = be32(x);
    assert(b[0] as int == x as int / 0x100_0000);
    assert(b[1] as int == (x as int / 0x1_0000) % 256);
    assert(b[2] as int == (x as int / 256) % 256);
    assert(b[3] as int == x as int % 256);
}

proof fn lemma_read_starts(h: Seq<u8>, p: int, last: u32, r: Seq<(u32, u32)>)
    requires
        0 <= p <= h.len(),
        h.subrange(p, h.len() as int) == records_bytes(r),
    ensures
        spec_starts(h, p, last) == Ok::<Seq<(u32, u32)>, VCRError>(record_starts(r, last)),
    decreases r.len(),
{
    if r.len() == 0 {
        assert(h.subrange(p, h.len() as int).len() == 0);
    } else {
        let (t, d) = r[0];
        lemma_records_front(r);
        let lb = leb128(d as nat);
        let tail = records_bytes(r.drop_first());
        let all = h.subrange(p, h.len() as int);
        assert(all == be32(t) + lb + tail);
        assert(h.len() - p >= 4 + lb.len());
        assert(from_be32(h, p) == from_be32(be32(t), 0)) by {
            assert(h[p] == all[0] && h[p + 1] == all[1] && h[p + 2] == all[2] && h[p + 3] == all[3]);
        }
        lemma_be32_roundtrip(t);
        assert(h.subrange(p + 4, h.len() as int) =~= lb + tail) by {
            assert forall|k: int| 0 <= k < lb.len() + tail.len() implies #[trigger] h.subrange(p + 4, h.len() as int)[k] == (lb + tail)[k] by {
                assert(h[p + 4 + k] == all[4 + k]);
            }
        }
        lemma_leb128_read_u32(d, tail);
        let c = lb.len() as int;
        assert(h.subrange(p + 4 + c, h.len() as int) =~= tail) by {
            assert forall|k: int| 0 <= k < tail.len() implies #[trigger] h.subrange(p + 4 + c, h.len() as int)[k] == tail[k] by {
                assert(h[p + 4 + c + k] == all[4 + c + k]);
            }
        }
        let s = ((last as int + d as int) % 0x1_0000_0000) as u32;
        lemma_read_starts(h, p + 4 + c, s, r.drop_first());
    }
}


/// The parts of a written header: its three leading lengths, the path table, the base kind
/// and the records.
pub open spec fn header_parts(base: BaseValue, checkpoint_every: u16, paths: Seq<(u16, Seq<char>)>, start_pos: u32, records: Seq<(u32, u32)>) -> (Seq<u8>, Seq<u8>, Seq<u8>, Seq<u8>, Seq<u8>, Seq<u8>) {
    (
        leb128(start_pos as nat),
        leb128(checkpoint_every as nat),
        leb128((path_bytes(paths).len() as u32) as nat),
        path_bytes(paths),
        seq![base_kind(base)],
        records_bytes(records),
    )
}

proof fn lemma_header_split(base: BaseValue, checkpoint_every: u16, paths: Seq<(u16, Seq<char>)>, start_pos: u32, records: Seq<(u32, u32)>)
    ensures
        ({
            let (l1, l2, l3, pb, kb, rb) = header_parts(base, checkpoint_every, paths, start_pos, records);
            let h = spec_header_start(base, checkpoint_every, paths, start_pos) + rb;
            &&& h == l1 + (l2 + (l3 + (pb + (kb + rb))))
            &&& h == (l1 + l2) + (l3 + (pb + (kb + rb)))
            &&& h == (l1 + l2 + l3) + (pb + (kb + rb))
            &&& h == (l1 + l2 + l3 + pb) + (kb + rb)
            &&& h == (l1 + l2 + l3 + pb + kb) + rb
        }),
{
    let (l1, l2, l3, pb, kb, rb) = header_parts(base, checkpoint_every, paths, start_pos, records);
    let h = spec_header_start(base, checkpoint_every, paths, start_pos) + rb;
    assert(h =~= l1 + (l2 + (l3 + (pb + (kb + rb)))));
    assert(h =~= (l1 + l2) + (l3 + (pb + (kb + rb))));
    assert(h =~= (l1 + l2 + l3) + (pb + (kb + rb)));
    assert(h =~= (l1 + l2 + l3 + pb) + (kb + rb));
    assert(h =~= (l1 + l2 + l3 + pb + kb) + rb);
}

proof fn lemma_header_lengths(h: Seq<u8>, l1: Seq<u8>, l2: Seq<u8>, l3: Seq<u8>, rest: Seq<u8>, a: u32, b: u16, c: u32)
    requires
        l1 == leb128(a as nat),
        l2 == leb128(b as nat),
        l3 == leb128(c as nat),
        h == l1 + (l2 + (l3 + rest)),
        h == (l1 + l2) + (l3 + rest),
    ensures
        varint_u32_read(h) == (Ok::<u32, VCRError>(a), l1.len() as int),
        varint_u16_read(h.subrange(l1.len() as int, h.len() as int)) == (Ok::<u16, VCRError>(b), l2.len() as int),
        varint_u32_read(h.subrange((l1.len() + l2.len()) as int, h.len() as int)) == (Ok::<u32, VCRError>(c), l3.len() as int),
{
    lemma_leb128_read_u32(a, l2 + (l3 + rest));
    lemma_suffix(h, l1, l2 + (l3 + rest));
    lemma_leb128_read_u16(b, l3 + rest);
    lemma_suffix(h, l1 + l2, l3 + rest);
    lemma_leb128_read_u32(c, rest);
}

proof fn lemma_header_paths(h: Seq<u8>, a: Seq<u8>, paths: Seq<(u16, Seq<char>)>, rest: Seq<u8>)
    requires
        short_paths(paths),
        h == a + (path_bytes(paths) + rest),
    ensures
        spec_paths(h, a.len() as int, (a.len() + path_bytes(paths).len()) as int, Map::empty())
            == Ok::<(Map<u16, Seq<char>>, int), VCRError>((paths_over(Map::empty(), paths), (a.len() + path_bytes(paths).len()) as int)),
{
    let pb = path_bytes(paths);
    lemma_suffix(h, a, pb + rest);
    assert(h.subrange(a.len() as int, (a.len() + pb.len()) as int) =~= (pb + rest).subrange(0, pb.len() as int));
    assert((pb + rest).subrange(0, pb.len() as int) =~= pb);
    lemma_read_paths(h, a.len() as int, (a.len() + pb.len()) as int, Map::empty(), paths);
}

proof fn lemma_header_tail(h: Seq<u8>, a: Seq<u8>, base: BaseValue, start_pos: u32, records: Seq<(u32, u32)>)
    requires
        h == a + (seq![base_kind(base)] + records_bytes(records)),
        h == (a + seq![base_kind(base)]) + records_bytes(records),
    ensures
        a.len() < h.len(),
        base_of_kind(h[a.len() as int]) == Some(base),
        spec_starts(h, (a.len() + 1) as int, start_pos) == Ok::<Seq<(u32, u32)>, VCRError>(record_starts(records, start_pos)),
{
    lemma_at(h, a, seq![base_kind(base)] + records_bytes(records));
    lemma_suffix(h, a + seq![base_kind(base)], records_bytes(records));
    lemma_read_starts(h, (a.len() + 1) as int, start_pos, records);
}

/// A header as `HeaderEncoder` writes it (its start, then one record per `write_patch`) reads
/// back with `parse_header` as the entity it describes: the patches with their starts and
/// lengths, the path table (a later entry for an id replacing an earlier one), the checkpoint
/// interval and the base. Paths must be shorter than 256 bytes, as their length is written in
/// one byte.
pub proof fn lemma_header_roundtrip(
    base: BaseValue,
    checkpoint_every: u16,
    paths: Seq<(u16, Seq<char>)>,
    start_pos: u32,
    records: Seq<(u32, u32)>,
    end_position: u32,
)
    requires
        short_paths(paths),
        path_bytes(paths).len() <= u32::MAX,
    ensures
        spec_parse_header(spec_header_start(base, checkpoint_every, paths, start_pos) + records_bytes(records), end_position)
            == Ok::<EntityView, VCRError>(EntityView {
                patches: patch_triples(record_starts(records, start_pos), end_position),
                path_map: paths_over(Map::empty(), paths),
                checkpoint_every,
                base,
            }),
{
    let (l1, l2, l3, pb, kb, rb) = header_parts(base, checkpoint_every, paths, start_pos, records);
    let h = spec_header_start(base, checkpoint_every, paths, start_pos) + rb;
    let pbl = pb.len() as u32;
    assert(pbl as int == pb.len());
    lemma_header_split(base, checkpoint_every, paths, start_pos, records);
    lemma_header_lengths(h, l1, l2, l3, pb + (kb + rb), start_pos, checkpoint_every, pbl);
    lemma_header_paths(h, l1 + l2 + l3, paths, kb + rb);
    lemma_header_tail(h, l1 + l2 + l3 + pb, base, start_pos, records);
    lemma_parse_header_from(h, end_position, start_pos, l1.len() as int, checkpoint_every, l2.len() as int, pbl, l3.len() as int,
        paths_over(Map::empty(), paths), (l1 + l2 + l3 + pb).len() as int, base, record_starts(records, start_pos));
}

proof fn lemma_parse_header_from(
    h: Seq<u8>,
    end_position: u32,
    start_pos: u32,
    c1: int,
    cp: u16,
    c2: int,
    pbl: u32,
    c3: int,
    over: Map<u16, Seq<char>>,
    p: int,
    base: BaseValue,
    st: Seq<(u32, u32)>,
)
    requires
        varint_u32_read(h) == (Ok::<u32, VCRError>(start_pos), c1),
        0 <= c1 <= h.len(),
        varint_u16_read(h.subrange(c1, h.len() as int)) == (Ok::<u16, VCRError>(cp), c2),
        0 <= c2,
        c1 + c2 <= h.len(),
        varint_u32_read(h.subrange(c1 + c2, h.len() as int)) == (Ok::<u32, VCRError>(pbl), c3),
        spec_paths(h, c1 + c2 + c3, c1 + c2 + c3 + pbl, Map::empty()) == Ok::<(Map<u16, Seq<char>>, int), VCRError>((over, p)),
        0 <= p < h.len(),
        base_of_kind(h[p]) == Some(base),
        spec_starts(h, p + 1, start_pos) == Ok::<Seq<(u32, u32)>, VCRError>(st),
    ensures
        spec_parse_header(h, end_position) == Ok::<EntityView, VCRError>(EntityView {
            patches: patch_triples(st, end_position),
            path_map: over,
            checkpoint_every: cp,
            base,
        }),
{
}

proof fn lemma_at(x: Seq<u8>, a: Seq<u8>, b: Seq<u8>)
    requires
        x == a + b,
        b.len() > 0,
    ensures
        a.len() < x.len(),
        x[a.len() as int] == b[0],
{
}

proof fn lemma_suffix(x: Seq<u8>, a: Seq<u8>, b: Seq<u8>)
    requires
        x == a + b,
    ensures
        x.subrange(a.len() as int, x.len() as int) == b,
        x.len() == a.len() + b.len(),
{
    assert(x.subrange(a.len() as int, x.len() as int) =~= b);
}

/// One entity's header as the header file frames it: the header's length and the end position
/// of the entity's last patch (both as LEB128 varints), the entity's UUID, then the header.
pub open spec fn spec_frame(id: Seq<u8>, end_position: u32, header: Seq<u8>) -> Seq<u8> {
    leb128(header.len()) + leb128(end_position as nat) + id + header
}

/// Reading the entities after bytes that come before them reads them as if those bytes were
/// not there.
proof fn lemma_entities_shift(pre: Seq<u8>, rest: Seq<u8>, p: int)
    requires
        0 <= p <= rest.len(),
    ensures
        spec_entities(pre + rest, pre.len() + p) == spec_entities(rest, p),
    decreases rest.len() - p,
{
    let b = pre + rest;
    let bp = pre.len() + p;
    assert(b.subrange(bp, b.len() as int) =~= rest.subrange(p, rest.len() as int));
    let (r1, c1) = varint_u32_read(rest.subrange(p, rest.len() as int));
    if r1 != Err::<u32, VCRError>(VCRError::UnexpectedEof) && c1 >= 1 && p + c1 <= rest.len() {
        assert(b.subrange(bp + c1, b.len() as int) =~= rest.subrange(p + c1, rest.len() as int));
        let (r2, c2) = varint_u32_read(rest.subrange(p + c1, rest.len() as int));
        let q = p + c1 + c2;
        if let Ok(end_position) = r2 {
            if c2 >= 0 && q + 16 <= rest.len() {
                assert(b.subrange(pre.len() + q, pre.len() + q + 16) =~= rest.subrange(q, q + 16));
                if let Ok(l) = r1 {
                    if q + 16 + l <= rest.len() {
                        assert(b.subrange(pre.len() + q + 16, pre.len() + q + 16 + l) =~= rest.subrange(q + 16, q + 16 + l));
                        lemma_entities_shift(pre, rest, q + 16 + l);
                    }
                }
            }
        }
    }
}

/// A header file with nothing (left) in it holds no entities.
proof fn lemma_entities_end(b: Seq<u8>)
    ensures
        spec_entities(b, b.len() as int) == Ok::<Seq<(Seq<char>, EntityView)>, VCRError>(Seq::empty()),
{
    assert(b.subrange(b.len() as int, b.len() as int).len() == 0);
}

proof fn lemma_entities_step(b: Seq<u8>, p: int, l: u32, c1: int, end_position: u32, c2: int, id: Seq<u8>, hd: Seq<u8>)
    requires
        0 <= p <= b.len(),
        varint_u32_read(b.subrange(p, b.len() as int)) == (Ok::<u32, VCRError>(l), c1),
        1 <= c1,
        p + c1 <= b.len(),
        varint_u32_read(b.subrange(p + c1, b.len() as int)) == (Ok::<u32, VCRError>(end_position), c2),
        0 <= c2,
        p + c1 + c2 + 16 + l <= b.len(),
        b.subrange(p + c1 + c2, p + c1 + c2 + 16) == id,
        b.subrange(p + c1 + c2 + 16, p + c1 + c2 + 16 + l) == hd,
    ensures
        spec_entities(b, p) == match spec_parse_header(hd, end_position) {
            Err(e) => Err(e),
            Ok(ev) => match spec_entities(b, p + c1 + c2 + 16 + l) {
                Err(e) => Err(e),
                Ok(rest) => Ok(seq![(uuid_text(id), ev)] + rest),
            },
        },
{
}

/// Where the parts of a frame lie when it is read: its two varints, its UUID and its header.
proof fn lemma_frame_parts(id: Seq<u8>, end_position: u32, h: Seq<u8>, rest: Seq<u8>)
    requires
        id.len() == 16,
        h.len() <= u32::MAX,
    ensures
        ({
            let b = spec_frame(id, end_position, h) + rest;
            let c1 = leb128(h.len()).len() as int;
            let c2 = leb128(end_position as nat).len() as int;
            &&& varint_u32_read(b.subrange(0, b.len() as int)) == (Ok::<u32, VCRError>(h.len() as u32), c1)
            &&& 1 <= c1
            &&& c1 <= b.len()
            &&& varint_u32_read(b.subrange(c1, b.len() as int)) == (Ok::<u32, VCRError>(end_position), c2)
            &&& 0 <= c2
            &&& b.subrange(c1 + c2, c1 + c2 + 16) == id
            &&& b.subrange(c1 + c2 + 16, c1 + c2 + 16 + h.len()) == h
            &&& spec_frame(id, end_position, h).len() == c1 + c2 + 16 + h.len()
            &&& c1 + c2 + 16 + h.len() <= b.len()
        }),
{
    let hl = h.len() as u32;
    let lh = leb128(h.len());
    let le = leb128(end_position as nat);
    let b = spec_frame(id, end_position, h) + rest;
    let q: int = (lh.len() + le.len()) as int;
    assert(hl as nat == h.len());
    lemma_leb128_read_u32(hl, le + id + h + rest);
    assert(b.subrange(0, b.len() as int) =~= lh + (le + id + h + rest));
    assert(lh.len() >= 1) by {
        reveal_with_fuel(leb128, 2);
    }
    lemma_leb128_read_u32(end_position, id + h + rest);
    assert(b.subrange(lh.len() as int, b.len() as int) =~= le + (id + h + rest));
    assert(b.subrange(q, q + 16) =~= id);
    assert(b.subrange(q + 16, q + 16 + h.len() as int) =~= h);
}

/// A framed header that parses reads back as its entity, followed by the rest of the file.
proof fn lemma_frame_reads(id: Seq<u8>, end_position: u32, h: Seq<u8>, ev: EntityView, rest: Seq<u8>)
    requires
        id.len() == 16,
        h.len() <= u32::MAX,
        spec_parse_header(h, end_position) == Ok::<EntityView, VCRError>(ev),
    ensures
        spec_entities(spec_frame(id, end_position, h) + rest, 0) == match spec_entities(rest, 0) {
            Ok(es) => Ok(seq![(uuid_text(id), ev)] + es),
            Err(e) => Err(e),
        },
{
    let f = spec_frame(id, end_position, h);
    let b = f + rest;
    lemma_frame_parts(id, end_position, h, rest);
    let c1 = leb128(h.len()).len() as int;
    let c2 = leb128(end_position as nat).len() as int;
    lemma_entities_step(b, 0, h.len() as u32, c1, end_position, c2, id, h);
    lemma_entities_shift(f, rest, 0);
}

/// A header written as `HeaderEncoder` writes it (`new` writes `spec_header_start`, and each
/// `write_patch` appends one record, so the calls together write `records_bytes` of the
/// records in call order) and framed with its length, its end position and its entity's UUID
/// reads back with
/// `decode_header` as that entity under its UUID text, followed by whatever the rest of the file
/// holds; a file of one such frame holds exactly that entity. Paths must be shorter than 256
/// bytes (their length is written in one byte) and the header must fit a 32-bit length.
pub proof fn lemma_framed_header_roundtrip(
    id: Seq<u8>,
    end_position: u32,
    base: BaseValue,
    checkpoint_every: u16,
    paths: Seq<(u16, Seq<char>)>,
    start_pos: u32,
    records: Seq<(u32, u32)>,
    rest: Seq<u8>,
)
    requires
        id.len() == 16,
        short_paths(paths),
        path_bytes(paths).len() <= u32::MAX,
        (spec_header_start(base, checkpoint_every, paths, start_pos) + records_bytes(records)).len() <= u32::MAX,
    ensures
        ({
            let h = spec_header_start(base, checkpoint_every, paths, start_pos) + records_bytes(records);
            let ev = EntityView {
                patches: patch_triples(record_starts(records, start_pos), end_position),
                path_map: paths_over(Map::empty(), paths),
                checkpoint_every,
                base,
            };
            &&& spec_entities(spec_frame(id, end_position, h) + rest, 0) == match spec_entities(rest, 0) {
                Ok(es) => Ok(seq![(uuid_text(id), ev)] + es),
                Err(e) => Err(e),
            }
            &&& spec_entities(spec_frame(id, end_position, h), 0)
                == Ok::<Seq<(Seq<char>, EntityView)>, VCRError>(seq![(uuid_text(id), ev)])
        }),
{
    let h = spec_header_start(base, checkpoint_every, paths, start_pos) + records_bytes(records);
    let ev = EntityView {
        patches: patch_triples(record_starts(records, start_pos), end_position),
        path_map: paths_over(Map::empty(), paths),
        checkpoint_every,
        base,
    };
    lemma_header_roundtrip(base, checkpoint_every, paths, start_pos, records, end_position);
    lemma_frame_reads(id, end_position, h, ev, rest);
    let empty = Seq::<u8>::empty();
    lemma_frame_reads(id, end_position, h, ev, empty);
    lemma_entities_end(empty);
    let f = spec_frame(id, end_position, h);
    assert(f + empty =~= f);
    assert(seq![(uuid_text(id), ev)] + Seq::<(Seq<char>, EntityView)>::empty() =~= seq![(uuid_text(id), ev)]);
}

} // verus!
