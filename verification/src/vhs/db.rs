use vstd::prelude::*;
use crate::{VCRError, VCRResult};
use crate::search::{floor_search, floor_index};
use crate::compress::{decompress_bounded, zstd_block_content, within, opt_bytes, slice_range};
use super::DataHeader;

verus! {

/// The position of the header for `id`: the last one listed with that id, as a map built from
/// the list in order keeps it.
pub open spec fn header_index(headers: Seq<DataHeader>, id: Seq<u8>, j: int) -> Option<usize>
    decreases j,
{
    if j <= 0 || j > headers.len() {
        None
    } else if headers[j - 1].id@ == id {
        Some((j - 1) as usize)
    } else {
        header_index(headers, id, j - 1)
    }
}

fn same_id(a: &[u8; 16], b: &[u8; 16]) -> (res: bool)
    ensures
        res == (a@ == b@),
{
    let mut i: usize = 0;
    while i < 16
        invariant
            i <= 16,
            forall|j: int| 0 <= j < i ==> a@[j] == b@[j],
        decreases 16 - i,
    {
        if a[i] != b[i] {
            return false;
        }
        i = i + 1;
    }
    assert(a@ =~= b@);
    true
}

/// Finds the header for an entity.
pub fn find_header(headers: &Vec<DataHeader>, id: &[u8; 16]) -> (res: Option<usize>)
    ensures
        res == header_index(headers@, id@, headers@.len() as int),
        res matches Some(k) ==> k < headers@.len(),
{
    let mut j: usize = headers.len();
    while j > 0
        invariant
            j <= headers@.len(),
            header_index(headers@, id@, headers@.len() as int) == header_index(headers@, id@, j as int),
        decreases j,
    {
        if same_id(&headers[j - 1].id, id) {
            return Some(j - 1);
        }
        j = j - 1;
    }
    None
}

/// Some header holds this id.
pub open spec fn id_listed(headers: Seq<DataHeader>, id: Seq<u8>) -> bool {
    exists|m: int| 0 <= m < headers.len() && headers[m].id@ == id
}

/// The list holds this id.
pub open spec fn id_in(ids: Seq<[u8; 16]>, id: Seq<u8>) -> bool {
    exists|i: int| 0 <= i < ids.len() && ids[i]@ == id
}

/// Every id that the headers list, each once, in the order of first mention.
pub fn all_ids(headers: &Vec<DataHeader>) -> (res: Vec<[u8; 16]>)
    ensures
        forall|i: int, j: int| 0 <= i < j < res@.len() ==> #[trigger] res@[i]@ != #[trigger] res@[j]@,
        forall|i: int| 0 <= i < res@.len() ==> #[trigger] id_listed(headers@, res@[i]@),
        forall|k: int| 0 <= k < headers@.len() ==> #[trigger] id_in(res@, headers@[k].id@),
{
    let mut out: Vec<[u8; 16]> = Vec::new();
    let mut k: usize = 0;
    while k < headers.len()
        invariant
            k <= headers@.len(),
            forall|i: int, j: int| 0 <= i < j < out@.len() ==> #[trigger] out@[i]@ != #[trigger] out@[j]@,
            forall|i: int| 0 <= i < out@.len() ==> #[trigger] id_listed(headers@, out@[i]@),
            forall|m: int| 0 <= m < k ==> #[trigger] id_in(out@, headers@[m].id@),
        decreases headers@.len() - k,
    {
        let id = headers[k].id;
        let mut found = false;
        let mut j: usize = 0;
        while j < out.len()
            invariant
                j <= out@.len(),
                !found ==> forall|i: int| 0 <= i < j ==> #[trigger] out@[i]@ != id@,
                found ==> id_in(out@, id@),
            decreases out@.len() - j,
        {
            if !found && same_id(&out[j], &id) {
                found = true;
            }
            j = j + 1;
        }
        let ghost before = out@;
        if !found {
            out.push(id);
            proof {
                assert(out@[out@.len() - 1] == id);
                assert forall|i: int, j: int| 0 <= i < j < out@.len() implies #[trigger] out@[i]@ != #[trigger] out@[j]@ by {
                    if j < before.len() {
                        assert(out@[i] == before[i] && out@[j] == before[j]);
                    } else {
                        assert(out@[i] == before[i]);
                    }
                }
                assert forall|i: int| 0 <= i < out@.len() implies #[trigger] id_listed(headers@, out@[i]@) by {
                    if i < before.len() {
                        assert(out@[i] == before[i]);
                        assert(id_listed(headers@, before[i]@));
                    } else {
                        assert(headers@[k as int].id@ == out@[i]@);
                    }
                }
                assert forall|m: int| 0 <= m < k + 1 implies #[trigger] id_in(out@, headers@[m].id@) by {
                    if m < k {
                        assert(id_in(before, headers@[m].id@));
                        let i = choose|i: int| 0 <= i < before.len() && before[i]@ == headers@[m].id@;
                        assert(out@[i] == before[i]);
                    } else {
                        assert(out@[before.len() as int]@ == headers@[m].id@);
                    }
                }
            }
        } else {
            proof {
                assert forall|m: int| 0 <= m < k + 1 implies #[trigger] id_in(out@, headers@[m].id@) by {
                    if m == k {
                        assert(headers@[m].id == id);
                    }
                }
            }
        }
        k = k + 1;
    }
    out
}

/// Where to find an entity's state at a time: the time of the version in force, the bytes
/// from its checkpoint on, and, when the version is not itself a checkpoint, how many patches
/// the stored patch chain is applied with.
pub struct EntityLocation {
    pub time: u32,
    pub bytes: Vec<u8>,
    pub patches: Option<usize>,
}

/// The slice of the decompressed data to read a checkpoint from. The end is looked up at the
/// position one past the checkpoint's start (a byte position, used as an index), as the
/// format's reader does; a missing checkpoint reads from the start of the data.
pub open spec fn checkpoint_slice(positions: Seq<usize>, ci: int, len: int) -> Option<(int, int)> {
    if 0 <= ci < positions.len() {
        let start = positions[ci] as int;
        if start + 1 < positions.len() {
            let next = positions[start + 1] as int;
            if start <= next <= len { Some((start, next)) } else { None }
        } else if start <= len {
            Some((start, len))
        } else {
            None
        }
    } else {
        Some((0, len))
    }
}

/// Where version `index` of an entity is read from its decompressed data `d`: its time, the
/// checkpoint's bytes and how many patches after the checkpoint lead to it. A checkpoint
/// interval of 0, or a checkpoint outside the data, cannot be read.
pub open spec fn spec_locate_in(h: DataHeader, d: Seq<u8>, index: int) -> Result<Option<(u32, Seq<u8>, Option<usize>)>, VCRError> {
    let t = h.times@[index];
    if h.checkpoint_every == 0 {
        Err(VCRError::Malformed)
    } else {
        let cpe = h.checkpoint_every as int;
        match checkpoint_slice(h.checkpoint_positions@, index / cpe, d.len() as int) {
            None => Err(VCRError::Malformed),
            Some((s, e)) => Ok(Some((t, d.subrange(s, e), if index % cpe > 0 { Some((index % cpe - 1) as usize) } else { None }))),
        }
    }
}

/// What locating version `index` gives: `Malformed` when the entity's data lies outside the
/// tape; `CompressionError` when the decompressor fails (always so when the data holds no
/// content that fits its stored length); and otherwise the location read from the content.
pub open spec fn locate_result(h: DataHeader, inner: Seq<u8>, dict: Option<Seq<u8>>, index: int, res: VCRResult<Option<EntityLocation>>) -> bool {
    let end = h.offset as int + h.compressed_len as int;
    if end > u32::MAX as int || end > inner.len() {
        res == Err::<Option<EntityLocation>, VCRError>(VCRError::Malformed)
    } else {
        match within(zstd_block_content(dict, inner.subrange(h.offset as int, end)), h.decompressed_len as usize) {
            None => res == Err::<Option<EntityLocation>, VCRError>(VCRError::CompressionError),
            Some(d) => res == Err::<Option<EntityLocation>, VCRError>(VCRError::CompressionError) || match spec_locate_in(h, d, index) {
                Ok(l) => (res matches Ok(x) && location_view(x) == l),
                Err(e) => (res matches Err(e2) && e2 == e),
            },
        }
    }
}

pub open spec fn location_view(l: Option<EntityLocation>) -> Option<(u32, Seq<u8>, Option<usize>)> {
    match l {
        Some(x) => Some((x.time, x.bytes@, x.patches)),
        None => None,
    }
}

/// Finds where an entity's state at `at` is stored: the last version at or before `at` (the
/// first version when `at` is earlier, which then reads as absent), read from the entity's
/// decompressed data. A header without versions cannot be read.
pub fn locate_entity(h: &DataHeader, inner: &[u8], dict: &Option<Vec<u8>>, at: u32) -> (res: VCRResult<Option<EntityLocation>>)
    ensures
        h.times@.len() == 0 ==> res == Err::<Option<EntityLocation>, VCRError>(VCRError::Malformed),
        h.times@.len() > 0 ==> exists|index: int| {
            &&& #[trigger] floor_index(h.times@, at as int, index)
            &&& if h.times@[index] > at {
                res matches Ok(None)
            } else {
                locate_result(*h, inner@, opt_bytes(dict), index, res)
            }
        },
{
    if h.times.len() == 0 {
        return Err(VCRError::Malformed);
    }
    let index = floor_search(h.times.as_slice(), at as u64);
    let t = h.times[index];
    if t > at {
        return Ok(None);
    }
    let start = h.offset;
    let len = h.compressed_len;
    if start as u64 + len as u64 > u32::MAX as u64 || start as u64 + len as u64 > inner.len() as u64 {
        return Err(VCRError::Malformed);
    }
    let data = slice_range(inner, start as usize, (start + len) as usize);
    let d = decompress_bounded(dict, data, h.decompressed_len as usize)?;
    locate_in(h, d.as_slice(), index)
}

/// Reads version `index` of an entity from its decompressed data: its time, the bytes of its
/// checkpoint and, when it is not itself a checkpoint, how many patches lead to it from there.
/// `Malformed` for a checkpoint interval of 0 or a checkpoint outside the data.
pub fn locate_in(h: &DataHeader, d: &[u8], index: usize) -> (res: VCRResult<Option<EntityLocation>>)
    requires
        index < h.times@.len(),
    ensures
        match spec_locate_in(*h, d@, index as int) {
            Ok(l) => (res matches Ok(x) && location_view(x) == l),
            Err(e) => res == Err::<Option<EntityLocation>, VCRError>(e),
        },
        res matches Ok(l) ==> (h.checkpoint_every > 0 && (l matches Some(x) && x.time == h.times@[index as int]
            && (index % h.checkpoint_every == 0 ==> x.patches is None)
            && (index % h.checkpoint_every > 0 ==> x.patches == Some((index % h.checkpoint_every - 1) as usize)))),
{
    let t = h.times[index];
    if h.checkpoint_every == 0 {
        return Err(VCRError::Malformed);
    }
    let cpe = h.checkpoint_every;
    let ci = index / cpe;
    let positions = &h.checkpoint_positions;
    let n = d.len();
    let (s, e): (usize, usize) = if ci < positions.len() {
        let sp = positions[ci];
        if sp < usize::MAX && sp + 1 < positions.len() {
            let next = positions[sp + 1];
            if sp <= next && next <= n {
                (sp, next)
            } else {
                return Err(VCRError::Malformed);
            }
        } else if sp <= n {
            (sp, n)
        } else {
            return Err(VCRError::Malformed);
        }
    } else {
        (0, n)
    };
    let mut bytes: Vec<u8> = Vec::new();
    crate::bytes::push_bytes(&mut bytes, slice_range(d, s, e));
    let r = index % cpe;
    let patches: Option<usize> = if r > 0 { Some(r - 1) } else { None };
    Ok(Some(EntityLocation { time: t, bytes, patches }))
}

/// A version located in its data is stamped with its own time; a version at the start of a
/// checkpoint interval is the checkpoint itself and takes no patch, and the `r`-th version
/// after it (`r` > 0) takes the patch chain applied `r - 1` times.
pub proof fn lemma_locate_patch_count(h: DataHeader, d: Seq<u8>, i: int)
    requires
        0 <= i < h.times@.len(),
    ensures
        spec_locate_in(h, d, i) matches Ok(l) ==> (h.checkpoint_every > 0 && (l matches Some(a) && a.0 == h.times@[i]
            && (i % (h.checkpoint_every as int) == 0 ==> a.2 is None)
            && (i % (h.checkpoint_every as int) > 0 ==> a.2 == Some((i % (h.checkpoint_every as int) - 1) as usize)))),
{
}

/// Two versions of one checkpoint interval are read from the same checkpoint bytes, and the
/// later one takes as many more patches as it stands versions after the earlier: one more
/// than the earlier's count, or than none when the earlier is the checkpoint, per version.
pub proof fn lemma_locate_interval(h: DataHeader, d: Seq<u8>, i: int, j: int)
    requires
        0 <= i < j < h.times@.len(),
        h.checkpoint_every > 0,
        i / (h.checkpoint_every as int) == j / (h.checkpoint_every as int),
    ensures
        spec_locate_in(h, d, i) matches Ok(Some(a)) ==> (spec_locate_in(h, d, j) matches Ok(Some(b)) && a.1 == b.1
            && (b.2 matches Some(nb) && (a.2 is None ==> nb == j - i - 1)
            && (a.2 matches Some(na) ==> nb == na + (j - i)))),
{
    let cpe = h.checkpoint_every as int;
    assert(j % cpe == i % cpe + (j - i)) by (nonlinear_arith)
        requires
            cpe > 0,
            0 <= i < j,
            i / cpe == j / cpe,
    {
        assert(i == cpe * (i / cpe) + i % cpe);
        assert(j == cpe * (j / cpe) + j % cpe);
    }
}

} // verus!
