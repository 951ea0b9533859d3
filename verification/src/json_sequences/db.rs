use vstd::prelude::*;
use std::collections::HashMap;
use crate::{VCRError, VCRResult};
use crate::bytes::from_be16;
use crate::compress::{slice_range, stream_decompress, zstd_stream_decompress, opt_slice};
use crate::search::{TimeKeyed, SortKey, search_by_key, floor_search, floor_index, keys_sorted, stable_sort, stable_sort_vec, by_sort_key, lemma_stable_sort_map};
use super::EntityData;
use super::header::{EntityView, entity_view};

verus! {

broadcast use vstd::std_specs::hash::group_hash_axioms;

/// `input` held within `[min, max]`: below `min` it gives `min`, otherwise above `max` it
/// gives `max`.
pub fn clamp(input: u32, min: u32, max: u32) -> (res: u32)
    ensures
        res == (if input < min { min } else if input > max { max } else { input }),
{
    if input < min {
        min
    } else if input > max {
        max
    } else {
        input
    }
}

/// Where the run of patches from position `k` whose time is at most `until` ends.
pub open spec fn run_end(s: Seq<(u32, u32, u32)>, until: u32, k: int) -> int
    decreases s.len() - k,
{
    if k < 0 || k >= s.len() || s[k].0 > until {
        k
    } else {
        run_end(s, until, k + 1)
    }
}

pub proof fn lemma_run_end_bounds(s: Seq<(u32, u32, u32)>, until: u32, k: int)
    requires
        0 <= k <= s.len(),
    ensures
        k <= run_end(s, until, k) <= s.len(),
        forall|j: int| k <= j < run_end(s, until, k) ==> #[trigger] s[j].0 <= until,
        run_end(s, until, k) < s.len() ==> s[run_end(s, until, k)].0 > until,
    decreases s.len() - k,
{
    if k < s.len() && s[k].0 <= until {
        lemma_run_end_bounds(s, until, k + 1);
    }
}

/// The patches to replay for an entity, all but the last stored one (which holds the entity's
/// last version whole). From the start, or from `from_index`, the run of patches no later than
/// `until` is taken; when skipping to a checkpoint, the run starts at the last checkpoint at or
/// before the last patch of the run.
pub open spec fn spec_select_patches(
    patches: Seq<(u32, u32, u32)>,
    checkpoint_every: u16,
    until: u32,
    skip_to_checkpoint: bool,
    from_index: int,
) -> Seq<(u32, u32, u32)> {
    let body = patches.drop_last();
    if skip_to_checkpoint {
        let n = run_end(body, until, 0);
        let latest = if n > 0 { n - 1 } else { 0 };
        body.subrange(latest - latest % (checkpoint_every as int), n)
    } else {
        let f = if from_index < body.len() { from_index } else { body.len() as int };
        body.subrange(f, run_end(body, until, f))
    }
}

fn scan_run(patches: &Vec<(u32, u32, u32)>, last: usize, until: u32, start: usize) -> (res: usize)
    requires
        last + 1 == patches@.len(),
        start <= last,
    ensures
        res == run_end(patches@.drop_last(), until, start as int),
{
    let ghost body = patches@.drop_last();
    let mut i = start;
    while i < last && patches[i].0 <= until
        invariant
            last + 1 == patches@.len(),
            body == patches@.drop_last(),
            start <= i <= last,
            run_end(body, until, start as int) == run_end(body, until, i as int),
        decreases last - i,
    {
        i = i + 1;
    }
    i
}

/// A copy of the patches in `[start, end)`.
fn copy_range(patches: &Vec<(u32, u32, u32)>, start: usize, end: usize) -> (res: Vec<(u32, u32, u32)>)
    requires
        start <= end <= patches@.len(),
    ensures
        res@ == patches@.subrange(start as int, end as int),
{
    let mut out: Vec<(u32, u32, u32)> = Vec::new();
    let mut i = start;
    while i < end
        invariant
            start <= i <= end <= patches@.len(),
            out@ == patches@.subrange(start as int, i as int),
        decreases end - i,
    {
        out.push(patches[i]);
        proof {
            assert(patches@.subrange(start as int, i + 1) =~= patches@.subrange(start as int, i as int).push(patches@[i as int]));
        }
        i = i + 1;
    }
    out
}

/// Picks the patches of an entity to replay.
pub fn select_patches(
    patches: &Vec<(u32, u32, u32)>,
    checkpoint_every: u16,
    until: u32,
    skip_to_checkpoint: bool,
    from_index: usize,
) -> (res: Vec<(u32, u32, u32)>)
    requires
        patches@.len() > 0,
        skip_to_checkpoint ==> checkpoint_every > 0,
    ensures
        res@ == spec_select_patches(patches@, checkpoint_every, until, skip_to_checkpoint, from_index as int),
{
    let ghost body = patches@.drop_last();
    let last = patches.len() - 1;
    let start: usize = if skip_to_checkpoint {
        0
    } else if from_index < last {
        from_index
    } else {
        last
    };
    let end = scan_run(patches, last, until, start);
    proof {
        lemma_run_end_bounds(body, until, start as int);
    }
    let first: usize = if skip_to_checkpoint {
        let latest: usize = if end > 0 { end - 1 } else { 0 };
        let c = checkpoint_every as usize;
        assert(latest % c <= latest) by (nonlinear_arith)
            requires c > 0;
        latest - latest % c
    } else {
        start
    };
    let res = copy_range(patches, first, end);
    proof {
        assert(patches@.subrange(first as int, end as int) =~= body.subrange(first as int, end as int));
    }
    res
}

/// One operation of a stored JSON patch; values are left as the MessagePack bytes stored.
pub enum PatchOp {
    Add { path: String, value: Vec<u8> },
    Remove { path: String },
    Replace { path: String, value: Vec<u8> },
    Move { path: String, from: String },
    Copy { path: String, from: String },
    Test { path: String, value: Vec<u8> },
}

/// A `PatchOp` as text and bytes.
pub enum PatchOpView {
    Add { path: Seq<char>, value: Seq<u8> },
    Remove { path: Seq<char> },
    Replace { path: Seq<char>, value: Seq<u8> },
    Move { path: Seq<char>, from: Seq<char> },
    Copy { path: Seq<char>, from: Seq<char> },
    Test { path: Seq<char>, value: Seq<u8> },
}

impl View for PatchOp {
    type V = PatchOpView;

    open spec fn view(&self) -> PatchOpView {
        match self {
            PatchOp::Add { path, value } => PatchOpView::Add { path: path@, value: value@ },
            PatchOp::Remove { path } => PatchOpView::Remove { path: path@ },
            PatchOp::Replace { path, value } => PatchOpView::Replace { path: path@, value: value@ },
            PatchOp::Move { path, from } => PatchOpView::Move { path: path@, from: from@ },
            PatchOp::Copy { path, from } => PatchOpView::Copy { path: path@, from: from@ },
            PatchOp::Test { path, value } => PatchOpView::Test { path: path@, value: value@ },
        }
    }
}

/// A stored patch: either a list of operations, or a new value for the whole entity
/// (as MessagePack bytes).
pub enum Patch {
    ReplaceRoot(Vec<u8>),
    Normal(Vec<PatchOp>),
}

pub enum PatchView {
    ReplaceRoot(Seq<u8>),
    Normal(Seq<PatchOpView>),
}

impl View for Patch {
    type V = PatchView;

    open spec fn view(&self) -> PatchView {
        match self {
            Patch::ReplaceRoot(v) => PatchView::ReplaceRoot(v@),
            Patch::Normal(ops) => PatchView::Normal(ops@.map_values(|o: PatchOp| o@)),
        }
    }
}

/// The path that the id stored at `q` (two bytes, big-endian) names in the path table.
pub open spec fn path_at(b: Seq<u8>, q: int, m: Map<u16, Seq<char>>) -> Result<Seq<char>, VCRError> {
    if q < 0 || q + 2 > b.len() {
        Err(VCRError::Malformed)
    } else if m.contains_key(from_be16(b, q)) {
        Ok(m[from_be16(b, q)])
    } else {
        Err(VCRError::PathResolutionError)
    }
}

/// Whether bytes begin with a MessagePack value that `rmp_serde` reads as a JSON value.
pub uninterp spec fn msgpack_json_ok(b: Seq<u8>) -> bool;

/// Calls `rmp_serde::from_slice` for a `serde_json::Value` and keeps only whether it succeeds.
/// Claimed: the answer is a function of the bytes alone.
#[verifier::external_body]
fn msgpack_is_json(b: &[u8]) -> (res: bool)
    ensures
        res == msgpack_json_ok(b@),
{
    rmp_serde::from_slice::<serde_json::Value>(b).is_ok()
}

/// The operation an op code stands for: 0 add, 1 remove, 2 replace, 3 move, 4 copy, 5 test.
/// Add, replace and test need a value.
pub open spec fn make_op(op: u8, p0: Seq<char>, p1: Seq<char>, value: Option<Seq<u8>>) -> Result<PatchOpView, VCRError> {
    if op == 0 {
        match value {
            Some(v) => Ok(PatchOpView::Add { path: p0, value: v }),
            None => Err(VCRError::InvalidPatchData),
        }
    } else if op == 1 {
        Ok(PatchOpView::Remove { path: p0 })
    } else if op == 2 {
        match value {
            Some(v) => Ok(PatchOpView::Replace { path: p0, value: v }),
            None => Err(VCRError::InvalidPatchData),
        }
    } else if op == 3 {
        Ok(PatchOpView::Move { path: p0, from: p1 })
    } else if op == 4 {
        Ok(PatchOpView::Copy { path: p0, from: p1 })
    } else if op == 5 {
        match value {
            Some(v) => Ok(PatchOpView::Test { path: p0, value: v }),
            None => Err(VCRError::InvalidPatchData),
        }
    } else {
        Err(VCRError::InvalidOpCode)
    }
}

/// Reads a patch from `p` while more than one byte remains. Each operation is an op code, one
/// path id (two for move and copy), a value length and the value (none when the length is 0).
/// Op code 6 holds a new root value instead, and ends the patch. A value that is not
/// MessagePack for a JSON value gives `MsgPackDecError`, before the op code is looked at.
pub open spec fn spec_decode_patch(b: Seq<u8>, p: int, m: Map<u16, Seq<char>>) -> Result<PatchView, VCRError>
    decreases b.len() - p,
{
    if p < 0 || b.len() - p <= 1 {
        Ok(PatchView::Normal(Seq::empty()))
    } else {
        let op = b[p];
        let q = p + 1;
        if op == 6 {
            if q + 2 > b.len() {
                Err(VCRError::Malformed)
            } else {
                let vl = from_be16(b, q) as int;
                if q + 2 + vl > b.len() {
                    Err(VCRError::Malformed)
                } else {
                    if !msgpack_json_ok(b.subrange(q + 2, q + 2 + vl)) {
                        Err(VCRError::MsgPackDecError)
                    } else {
                        Ok(PatchView::ReplaceRoot(b.subrange(q + 2, q + 2 + vl)))
                    }
                }
            }
        } else {
            let two = op == 3 || op == 4;
            match path_at(b, q, m) {
                Err(e) => Err(e),
                Ok(p0) => match (if two { path_at(b, q + 2, m) } else { Ok(Seq::<char>::empty()) }) {
                    Err(e) => Err(e),
                    Ok(p1) => {
                        let lp = if two { q + 4 } else { q + 2 };
                        if lp + 2 > b.len() {
                            Err(VCRError::Malformed)
                        } else {
                            let vl = from_be16(b, lp) as int;
                            let vend = lp + 2 + vl;
                            if vend > b.len() {
                                Err(VCRError::Malformed)
                            } else {
                                let value = if vl > 0 { Some(b.subrange(lp + 2, vend)) } else { None };
                                if vl > 0 && !msgpack_json_ok(b.subrange(lp + 2, vend)) {
                                    Err(VCRError::MsgPackDecError)
                                } else {
                                match make_op(op, p0, p1, value) {
                                    Err(e) => Err(e),
                                    Ok(o) => match spec_decode_patch(b, vend, m) {
                                        Err(e) => Err(e),
                                        Ok(PatchView::Normal(rest)) => Ok(PatchView::Normal(seq![o] + rest)),
                                        Ok(r) => Ok(r),
                                    },
                                }
                                }
                            }
                        }
                    },
                },
            }
        }
    }
}

/// The operations already read, put in front of what the rest of the patch gives.
pub open spec fn prepend_ops(ops: Seq<PatchOpView>, r: Result<PatchView, VCRError>) -> Result<PatchView, VCRError> {
    match r {
        Err(e) => Err(e),
        Ok(PatchView::Normal(rest)) => Ok(PatchView::Normal(ops + rest)),
        Ok(x) => Ok(x),
    }
}

/// The path table as text.
pub open spec fn path_table(m: &HashMap<u16, String>) -> Map<u16, Seq<char>> {
    m@.map_values(|s: String| s@)
}

fn lookup_path(b: &[u8], q: usize, path_map: &HashMap<u16, String>) -> (res: VCRResult<String>)
    requires
        q <= b@.len(),
    ensures
        match path_at(b@, q as int, path_table(path_map)) {
            Ok(s) => res matches Ok(r) && r@ == s,
            Err(e) => res == Err::<String, VCRError>(e),
        },
{
    if b.len() - q < 2 {
        return Err(VCRError::Malformed);
    }
    let id: u16 = b[q] as u16 * 256 + b[q + 1] as u16;
    assert(id == from_be16(b@, q as int));
    match path_map.get(&id) {
        Some(s) => Ok(s.clone()),
        None => Err(VCRError::PathResolutionError),
    }
}

fn value_bytes(b: &[u8], start: usize, end: usize) -> (res: Vec<u8>)
    requires
        start <= end <= b@.len(),
    ensures
        res@ == b@.subrange(start as int, end as int),
{
    let mut out: Vec<u8> = Vec::new();
    crate::bytes::push_bytes(&mut out, slice_range(b, start, end));
    out
}

/// Reads the operations of a decompressed patch, resolving path ids through the path table.
pub fn decode_patch(b: &[u8], path_map: &HashMap<u16, String>) -> (res: VCRResult<Patch>)
    ensures
        match spec_decode_patch(b@, 0, path_table(path_map)) {
            Ok(v) => res matches Ok(r) && r@ == v,
            Err(e) => res matches Err(e2) && e2 == e,
        },
{
    let ghost m = path_table(path_map);
    let n = b.len();
    let mut ops: Vec<PatchOp> = Vec::new();
    let mut p: usize = 0;
    while n - p > 1
        invariant
            n == b@.len(),
            p <= n,
            m == path_table(path_map),
            spec_decode_patch(b@, 0, m) == prepend_ops(ops@.map_values(|o: PatchOp| o@), spec_decode_patch(b@, p as int, m)),
        decreases n - p,
    {
        let ghost before = ops@.map_values(|o: PatchOp| o@);
        let op = b[p];
        let q = p + 1;
        if op == 6 {
            if n - q < 2 {
                return Err(VCRError::Malformed);
            }
            let vl = b[q] as usize * 256 + b[q + 1] as usize;
            if vl > n - q - 2 {
                return Err(VCRError::Malformed);
            }
            let v = value_bytes(b, q + 2, q + 2 + vl);
            if !msgpack_is_json(v.as_slice()) {
                return Err(VCRError::MsgPackDecError);
            }
            return Ok(Patch::ReplaceRoot(v));
        }
        let two = op == 3 || op == 4;
        let p0 = match lookup_path(b, q, path_map) {
            Ok(s) => s,
            Err(e) => return Err(e),
        };
        let p1 = if two {
            if n - q < 2 {
                return Err(VCRError::Malformed);
            }
            match lookup_path(b, q + 2, path_map) {
                Ok(s) => s,
                Err(e) => return Err(e),
            }
        } else {
            String::new()
        };
        let lp: usize = if two { q + 4 } else { q + 2 };
        if lp > n || n - lp < 2 {
            return Err(VCRError::Malformed);
        }
        let vl = b[lp] as usize * 256 + b[lp + 1] as usize;
        if vl > n - lp - 2 {
            return Err(VCRError::Malformed);
        }
        let vend = lp + 2 + vl;
        let value: Option<Vec<u8>> = if vl > 0 { Some(value_bytes(b, lp + 2, vend)) } else { None };
        let ghost vview = crate::compress::opt_bytes(&value);
        proof {
            assert(vview == (if vl > 0 { Some(b@.subrange(lp + 2, vend as int)) } else { None }));
        }
        if let Some(v) = &value {
            if !msgpack_is_json(v.as_slice()) {
                return Err(VCRError::MsgPackDecError);
            }
        }
        let o = if op == 0 {
            match value {
                Some(v) => PatchOp::Add { path: p0, value: v },
                None => return Err(VCRError::InvalidPatchData),
            }
        } else if op == 1 {
            PatchOp::Remove { path: p0 }
        } else if op == 2 {
            match value {
                Some(v) => PatchOp::Replace { path: p0, value: v },
                None => return Err(VCRError::InvalidPatchData),
            }
        } else if op == 3 {
            PatchOp::Move { path: p0, from: p1 }
        } else if op == 4 {
            PatchOp::Copy { path: p0, from: p1 }
        } else if op == 5 {
            match value {
                Some(v) => PatchOp::Test { path: p0, value: v },
                None => return Err(VCRError::InvalidPatchData),
            }
        } else {
            return Err(VCRError::InvalidOpCode);
        };
        let ghost ov = o@;
        ops.push(o);
        proof {
            assert(ops@.map_values(|o: PatchOp| o@) =~= before.push(ov));
            match spec_decode_patch(b@, vend as int, m) {
                Ok(PatchView::Normal(rest)) => {
                    assert(before + (seq![ov] + rest) =~= before.push(ov) + rest);
                },
                _ => {},
            }
        }
        p = vend;
    }
    proof {
        assert(ops@.map_values(|o: PatchOp| o@) + Seq::<PatchOpView>::empty() =~= ops@.map_values(|o: PatchOp| o@));
    }
    Ok(Patch::Normal(ops))
}


/// Reads the patch stored at `(start, length)`: the bytes are decompressed (with the dictionary,
/// if any) and decoded, giving the patch with its time.
pub open spec fn decode_one(e: (u32, u32, u32), reader: Seq<u8>, dict: Option<Seq<u8>>, m: Map<u16, Seq<char>>) -> Result<(u32, PatchView), VCRError> {
    let (t, s, l) = e;
    if s as int + l as int > u32::MAX as int || s as int + l as int > reader.len() {
        Err(VCRError::Malformed)
    } else {
        match zstd_stream_decompress(dict, reader.subrange(s as int, s as int + l as int)) {
            None => Err(VCRError::CompressionError),
            Some(bytes) => match spec_decode_patch(bytes, 0, m) {
                Err(e) => Err(e),
                Ok(pv) => Ok((t, pv)),
            },
        }
    }
}

/// Reads each listed patch in turn, stopping at the first that fails.
pub open spec fn decode_all(list: Seq<(u32, u32, u32)>, reader: Seq<u8>, dict: Option<Seq<u8>>, m: Map<u16, Seq<char>>) -> Result<Seq<(u32, PatchView)>, VCRError>
    decreases list.len(),
{
    if list.len() == 0 {
        Ok(Seq::empty())
    } else {
        match decode_all(list.drop_last(), reader, dict, m) {
            Err(e) => Err(e),
            Ok(prev) => match decode_one(list.last(), reader, dict, m) {
                Err(e) => Err(e),
                Ok(x) => Ok(prev.push(x)),
            },
        }
    }
}

/// The time of a read patch, by which patches are ordered.
pub open spec fn by_view_time() -> spec_fn((u32, PatchView)) -> int {
    |e: (u32, PatchView)| e.0 as int
}

pub open spec fn by_patch_time() -> spec_fn((u32, Patch)) -> int {
    |e: (u32, Patch)| e.0 as int
}

pub open spec fn timed_view() -> spec_fn((u32, Patch)) -> (u32, PatchView) {
    |e: (u32, Patch)| (e.0, e.1@)
}

/// The patches of an entity up to `until` (see `spec_select_patches`), read and then ordered by
/// time. An entity without patches, or one asked to skip to a checkpoint while storing a
/// checkpoint interval of 0, cannot be read.
pub open spec fn spec_entity_patches(
    ev: EntityView,
    reader: Seq<u8>,
    dict: Option<Seq<u8>>,
    until: u32,
    skip_to_checkpoint: bool,
    from_index: int,
) -> Result<Seq<(u32, PatchView)>, VCRError> {
    if ev.patches.len() == 0 || (skip_to_checkpoint && ev.checkpoint_every == 0) {
        Err(VCRError::Malformed)
    } else {
        match decode_all(spec_select_patches(ev.patches, ev.checkpoint_every, until, skip_to_checkpoint, from_index), reader, dict, ev.path_map) {
            Err(e) => Err(e),
            Ok(ps) => Ok(stable_sort(ps, by_view_time())),
        }
    }
}

proof fn lemma_decode_all_err(list: Seq<(u32, u32, u32)>, reader: Seq<u8>, dict: Option<Seq<u8>>, m: Map<u16, Seq<char>>, i: int)
    requires
        0 <= i < list.len(),
        decode_all(list.subrange(0, i + 1), reader, dict, m) is Err,
    ensures
        decode_all(list, reader, dict, m) == decode_all(list.subrange(0, i + 1), reader, dict, m),
    decreases list.len(),
{
    if list.len() == i + 1 {
        assert(list.subrange(0, i + 1) =~= list);
    } else {
        assert(list.drop_last().subrange(0, i + 1) =~= list.subrange(0, i + 1));
        lemma_decode_all_err(list.drop_last(), reader, dict, m, i);
    }
}

/// Orders read patches by time, keeping patches with equal times in their order.
pub fn sort_patches(v: Vec<(u32, Patch)>) -> (res: Vec<(u32, Patch)>)
    ensures
        res@ == stable_sort(v@, by_patch_time()),
{
    proof {
        assert(by_patch_time() =~= by_sort_key::<(u32, Patch)>());
    }
    stable_sort_vec(v)
}

impl SortKey for (u32, Patch) {
    open spec fn spec_sort_key(&self) -> int {
        self.0 as int
    }

    fn sort_key(&self) -> (k: i128) {
        self.0 as i128
    }
}

/// The patches of an entity up to `until`, read from the patch file and ordered by time.
pub fn entity_patches(
    data: &EntityData,
    reader: &[u8],
    dict: Option<&[u8]>,
    until: u32,
    skip_to_checkpoint: bool,
    from_index: usize,
) -> (res: VCRResult<Vec<(u32, Patch)>>)
    ensures
        match spec_entity_patches(entity_view(data), reader@, opt_slice(dict), until, skip_to_checkpoint, from_index as int) {
            Ok(ps) => res matches Ok(v) && v@.map_values(timed_view()) == ps,
            Err(e) => res matches Err(e2) && e2 == e,
        },
{
    let ghost ev = entity_view(data);
    let ghost m = ev.path_map;
    let ghost d = opt_slice(dict);
    if data.patches.len() == 0 || (skip_to_checkpoint && data.checkpoint_every == 0) {
        return Err(VCRError::Malformed);
    }
    let list = select_patches(&data.patches, data.checkpoint_every, until, skip_to_checkpoint, from_index);
    let mut out: Vec<(u32, Patch)> = Vec::new();
    let mut i: usize = 0;
    assert(list@.subrange(0, 0) =~= Seq::<(u32, u32, u32)>::empty());
    assert(out@.map_values(timed_view()) =~= Seq::<(u32, PatchView)>::empty());
    while i < list.len()
        invariant
            i <= list@.len(),
            ev == entity_view(data),
            m == path_table(&data.path_map),
            m == ev.path_map,
            d == opt_slice(dict),
            !(ev.patches.len() == 0 || (skip_to_checkpoint && ev.checkpoint_every == 0)),
            list@ == spec_select_patches(ev.patches, ev.checkpoint_every, until, skip_to_checkpoint, from_index as int),
            decode_all(list@.subrange(0, i as int), reader@, d, m) == Ok::<Seq<(u32, PatchView)>, VCRError>(out@.map_values(timed_view())),
        decreases list@.len() - i,
    {
        let ghost before = out@.map_values(timed_view());
        proof {
            assert(list@.subrange(0, i + 1).drop_last() =~= list@.subrange(0, i as int));
            assert(list@.subrange(0, i + 1).last() == list@[i as int]);
        }
        let (t, s, l) = list[i];
        if s as u64 + l as u64 > u32::MAX as u64 || s as u64 + l as u64 > reader.len() as u64 {
            proof { lemma_decode_all_err(list@, reader@, d, m, i as int); }
            return Err(VCRError::Malformed);
        }
        let part = slice_range(reader, s as usize, (s + l) as usize);
        let bytes = match stream_decompress(dict, part) {
            Ok(b) => b,
            Err(e) => {
                proof { lemma_decode_all_err(list@, reader@, d, m, i as int); }
                return Err(e);
            },
        };
        let p = match decode_patch(bytes.as_slice(), &data.path_map) {
            Ok(p) => p,
            Err(e) => {
                proof { lemma_decode_all_err(list@, reader@, d, m, i as int); }
                return Err(e);
            },
        };
        let ghost item = (t, p@);
        out.push((t, p));
        proof {
            assert(out@.map_values(timed_view()) =~= before.push(item));
        }
        i = i + 1;
    }
    assert(list@.subrange(0, list@.len() as int) =~= list@);
    let ghost unsorted = out@;
    let sorted = sort_patches(out);
    proof {
        lemma_stable_sort_map(unsorted, timed_view(), by_patch_time(), by_view_time());
    }
    Ok(sorted)
}


/// The versions that replaying patches with these times yields after `after`: for each patch
/// later than `after`, its index, its time, and the time of the next patch (none for the last).
pub open spec fn spec_version_spans(t: Seq<u32>, after: u32, n: int) -> Seq<(usize, u32, Option<u32>)>
    decreases n,
{
    if n <= 0 {
        Seq::empty()
    } else {
        let prev = spec_version_spans(t, after, n - 1);
        let i = n - 1;
        if t[i] > after {
            prev.push((i as usize, t[i], if i + 1 < t.len() { Some(t[i + 1]) } else { None }))
        } else {
            prev
        }
    }
}

pub open spec fn patch_times(patches: Seq<(u32, Patch)>) -> Seq<u32> {
    patches.map_values(|e: (u32, Patch)| e.0)
}

/// Which replayed states of an entity are versions after `after`, and from when to when
/// each is valid.
pub fn version_spans(patches: &Vec<(u32, Patch)>, after: u32) -> (res: Vec<(usize, u32, Option<u32>)>)
    requires
        patches@.len() > 0,
    ensures
        res@ == spec_version_spans(patch_times(patches@), after, patches@.len() as int),
{
    let ghost t = patch_times(patches@);
    let n = patches.len();
    let mut out: Vec<(usize, u32, Option<u32>)> = Vec::new();
    let mut i: usize = 0;
    while i < n
        invariant
            n == patches@.len(),
            t == patch_times(patches@),
            i <= n,
            out@ == spec_version_spans(t, after, i as int),
        decreases n - i,
    {
        let time = patches[i].0;
        assert(time == t[i as int]);
        if time > after {
            let next: Option<u32> = if i + 1 < n { Some(patches[i + 1].0) } else { None };
            out.push((i, time, next));
        }
        i = i + 1;
    }
    out
}

/// The time of the first patch at or after `at`, as a binary search over the patch times
/// finds it; `None` when the search ends past the last patch.
pub fn next_time(patches: &Vec<(u32, u32, u32)>, at: u32) -> (res: Option<u32>)
    ensures
        res matches Some(t) ==> exists|j: int| 0 <= j < patches@.len() && #[trigger] patches@[j].0 == t,
        keys_sorted(patches@) ==> {
            &&& (res is None <==> forall|j: int| 0 <= j < patches@.len() ==> #[trigger] patches@[j].0 < at)
            &&& (res matches Some(t) ==> t >= at && forall|j: int| 0 <= j < patches@.len() && #[trigger] patches@[j].0 >= at ==> patches@[j].0 >= t)
        },
{
    let r = search_by_key(patches.as_slice(), at as u64);
    let idx = match r {
        Ok(i) => i,
        Err(i) => i,
    };
    if idx < patches.len() {
        let t = patches[idx].0;
        proof {
            if keys_sorted(patches@) {
                assert forall|j: int| 0 <= j < patches@.len() && #[trigger] patches@[j].0 >= at implies patches@[j].0 >= t by {
                    if j < idx {
                        if r is Err {
                            assert(patches@[j].time_key() < at);
                        } else {
                            assert(patches@[j].time_key() <= patches@[idx as int].time_key());
                        }
                    } else {
                        assert(patches@[idx as int].time_key() <= patches@[j].time_key());
                    }
                }
                assert(patches@[idx as int].time_key() >= at);
            }
        }
        Some(t)
    } else {
        proof {
            if keys_sorted(patches@) {
                assert forall|j: int| 0 <= j < patches@.len() implies #[trigger] patches@[j].0 < at by {
                    assert(patches@[j].time_key() < at);
                }
            }
        }
        None
    }
}

/// How a read of an entity at a time proceeds: the index of the patch in force, and which
/// shortcuts apply. A cached state at that index is used if there is one (never for the
/// first patch); else the stored last version when the patch is the last one; else the
/// patches are replayed, from a cached state of the previous index when the entity stores
/// checkpoints.
pub struct ReadPlan {
    pub patch_idx: usize,
    pub check_cache: bool,
    pub last_version: bool,
    pub check_previous: bool,
}

/// Plans a read of an entity at `at`.
pub fn read_plan(patches: &Vec<(u32, u32, u32)>, checkpoint_every: u16, at: u32) -> (res: ReadPlan)
    ensures
        floor_index(patches@, at as int, res.patch_idx as int),
        res.check_cache == (res.patch_idx > 0),
        res.last_version == (res.patch_idx > 0 && res.patch_idx + 1 == patches@.len()),
        res.check_previous == (checkpoint_every != u16::MAX && res.patch_idx > 0),
{
    let patch_idx = floor_search(patches.as_slice(), at as u64);
    ReadPlan {
        patch_idx,
        check_cache: patch_idx > 0,
        last_version: patch_idx > 0 && patch_idx == patches.len() - 1,
        check_previous: checkpoint_every != u16::MAX && patch_idx > 0,
    }
}

/// The stored last version of an entity: the time and the decompressed bytes of its last
/// patch, which holds the whole entity as MessagePack.
pub open spec fn spec_last_version(ev: EntityView, reader: Seq<u8>, dict: Option<Seq<u8>>) -> Result<(u32, Seq<u8>), VCRError> {
    if ev.patches.len() == 0 {
        Err(VCRError::InvalidPatchData)
    } else {
        let (t, s, l) = ev.patches.last();
        if s as int + l as int > u32::MAX as int || s as int + l as int > reader.len() {
            Err(VCRError::Malformed)
        } else {
            match zstd_stream_decompress(dict, reader.subrange(s as int, s as int + l as int)) {
                None => Err(VCRError::CompressionError),
                Some(b) => Ok((t, b)),
            }
        }
    }
}

/// Reads the stored last version of an entity.
pub fn last_version_bytes(data: &EntityData, reader: &[u8], dict: Option<&[u8]>) -> (res: VCRResult<(u32, Vec<u8>)>)
    ensures
        match spec_last_version(entity_view(data), reader@, opt_slice(dict)) {
            Ok((t, b)) => res matches Ok((t2, v)) && t2 == t && v@ == b,
            Err(e) => res matches Err(e2) && e2 == e,
        },
{
    let n = data.patches.len();
    if n == 0 {
        return Err(VCRError::InvalidPatchData);
    }
    let (t, s, l) = data.patches[n - 1];
    if s as u64 + l as u64 > u32::MAX as u64 || s as u64 + l as u64 > reader.len() as u64 {
        return Err(VCRError::Malformed);
    }
    let part = slice_range(reader, s as usize, (s + l) as usize);
    let b = stream_decompress(dict, part)?;
    Ok((t, b))
}


/// The day the stream shows, as the patch-sequence store dates it: season and day cut to 32
/// bits, and the tournament, which early in season 10 (before day 100) is -1 when the sim
/// names none. During a tournament other than -1 the season is -1.
pub struct StreamDate {
    pub season: i32,
    pub day: i32,
    pub tournament: Option<i32>,
}

pub open spec fn spec_stream_date(season: i64, day: i64, tournament: Option<i64>) -> StreamDate {
    let t: Option<i32> = if season == 10 && day < 100 && tournament is None {
        Some(-1i32)
    } else {
        match tournament {
            Some(x) => Some(x as i32),
            None => None,
        }
    };
    StreamDate {
        season: if t matches Some(i) && i != -1 { -1i32 } else { season as i32 },
        day: day as i32,
        tournament: t,
    }
}

/// The stream's date during a tournament (any tournament other than -1, the Coffee Cup's 0
/// too) belongs to no season (-1); otherwise it is the sim's season. The day is the sim's day,
/// and the tournament the sim's (-1 early in season 10 when the sim names none).
pub proof fn lemma_stream_date(season: i64, day: i64, tournament: Option<i64>)
    ensures
        ({
            let d = spec_stream_date(season, day, tournament);
            &&& (d.tournament matches Some(i) && i != -1) ==> d.season == -1
            &&& !(d.tournament matches Some(i) && i != -1) ==> d.season == season as i32
            &&& d.day == day as i32
            &&& tournament matches Some(x) ==> d.tournament == Some(x as i32)
            &&& tournament is None && !(season == 10 && day < 100) ==> d.tournament is None
            &&& tournament is None && season == 10 && day < 100 ==> d.tournament == Some(-1i32)
        }),
{
}

pub fn stream_date(season: i64, day: i64, tournament: Option<i64>) -> (res: StreamDate)
    ensures
        res == spec_stream_date(season, day, tournament),
        (res.tournament matches Some(i) && i != -1) ==> res.season == -1,
        !(res.tournament matches Some(i) && i != -1) ==> res.season == season as i32,
        res.day == day as i32,
        tournament matches Some(x) ==> res.tournament == Some(x as i32),
{
    let t: Option<i32> = if season == 10 && day < 100 && tournament.is_none() {
        Some(-1)
    } else {
        match tournament {
            Some(x) => Some(x as i32),
            None => None,
        }
    };
    let mut date = StreamDate { season: season as i32, day: day as i32, tournament: t };
    match date.tournament {
        Some(i) => {
            if i != -1 {
                date.season = -1;
            }
        },
        None => {},
    }
    date
}

/// Whether the day's schedule is the one special game: the sim's phase (-1 when it has none)
/// is 14 and the season is 22.
pub fn stream_special_schedule(phase: Option<i64>, date: &StreamDate) -> (res: bool)
    ensures
        res == ((match phase { Some(p) => p, None => -1i64 }) == 14 && date.season == 22),
{
    let p: i64 = match phase {
        Some(p) => p,
        None => -1,
    };
    p == 14 && date.season == 22
}

/// The day after.
pub fn stream_next_day(date: &StreamDate) -> (res: StreamDate)
    requires
        date.day < i32::MAX,
    ensures
        res == (StreamDate { day: (date.day + 1) as i32, ..*date }),
{
    StreamDate { season: date.season, day: date.day + 1, tournament: date.tournament }
}

/// The times at which the stream reads the league structure for `at`: leagues, subleagues and
/// divisions no earlier than their first record, tiebreakers no earlier than theirs.
pub fn structure_times(at: u32) -> (res: (u32, u32))
    ensures
        res.0 == (if at < 1599169238 { 1599169238 } else { at }),
        res.1 == (if at < 1599760290 { 1599760290 } else { at }),
{
    (clamp(at, 1599169238, u32::MAX), clamp(at, 1599760290, u32::MAX))
}

/// Whether the stream copies each league, subleague, division and tiebreaker id into `_id`,
/// as the data looked before this time.
pub fn uses_legacy_ids(at: u32) -> (res: bool)
    ensures
        res == (at < 1598224980),
{
    at < 1598224980
}

/// Whether the stream reads the tournament: the date names one other than -1.
pub fn reads_tournament(date: &StreamDate) -> (res: bool)
    ensures
        res == (date.tournament matches Some(i) && i > -1),
{
    match date.tournament {
        Some(i) => i > -1,
        None => false,
    }
}

/// What the sim's `playoffs` field holds.
#[derive(Clone, Copy, Debug, PartialEq, Eq, Structural)]
pub enum PlayoffsField {
    Array,
    Text,
    Other,
}

/// Where the stream's postseason data comes from, and the key it is stored under: the
/// tournament's playoffs (at the sim's tournament round) under "postseason"; each listed
/// playoff (at its own round) under "postseasons"; the one named playoff (at the sim's playoff
/// round) under "postseason"; or nothing under "postseason".
#[derive(Clone, Copy, Debug, PartialEq, Eq, Structural)]
pub enum StreamPostseason {
    Tournament,
    Each,
    One,
    Empty,
}

pub fn stream_postseason(has_tournament: bool, field: PlayoffsField) -> (res: StreamPostseason)
    ensures
        res == (if has_tournament {
            StreamPostseason::Tournament
        } else if field == PlayoffsField::Array {
            StreamPostseason::Each
        } else if field == PlayoffsField::Text {
            StreamPostseason::One
        } else {
            StreamPostseason::Empty
        }),
{
    if has_tournament {
        StreamPostseason::Tournament
    } else {
        match field {
            PlayoffsField::Array => StreamPostseason::Each,
            PlayoffsField::Text => StreamPostseason::One,
            PlayoffsField::Other => StreamPostseason::Empty,
        }
    }
}

/// The key under which the postseason data is stored.
pub fn postseason_key(p: StreamPostseason) -> (res: &'static str)
    ensures
        res@ == (if p == StreamPostseason::Each { "postseasons"@ } else { "postseason"@ }),
{
    match p {
        StreamPostseason::Each => "postseasons",
        _ => "postseason",
    }
}

} // verus!
