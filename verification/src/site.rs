//! Site resources: a basis file and a chain of binary deltas, each giving the next version.

use vstd::prelude::*;
use crate::{VCRError, VCRResult};
use crate::compress::{frame_bounded, zstd_frame_content, within, slice_range};

verus! {

/// A point in time: seconds since the Unix epoch and the nanoseconds past them.
#[derive(Clone, Copy, Debug, PartialEq, Eq, Structural)]
pub struct Timestamp {
    pub secs: i64,
    pub nanos: u32,
}

/// Where a delta lies in the resource file (offset and compressed length), its decompressed
/// length, the length of the version it produces, and that version's hash.
pub struct PatchData {
    pub offset: u32,
    pub compressed_patch_length: u32,
    pub uncompressed_patch_length: u32,
    pub original_length: u32,
    pub hash: String,
}

/// A resource: for each published path, when it was published and which delta gives it; the
/// basis the deltas start from; and the deltas.
pub struct EncodedResource {
    pub paths: Vec<(Timestamp, String, u16)>,
    pub basis: Vec<u8>,
    pub deltas: Vec<PatchData>,
}

/// What `bsdiff` makes of an old file and a patch; `None` when it reports an error.
pub uninterp spec fn bsdiff_patched(old: Seq<u8>, patch: Seq<u8>) -> Option<Seq<u8>>;

/// Calls `bsdiff::patch` with the patch bytes as its reader and an empty output buffer.
/// Claimed: the output is a function of the old file and the patch alone, and every error
/// becomes `BinaryPatchError`.
#[verifier::external_body]
fn apply_binary_patch(old: &[u8], patch: &[u8]) -> (res: VCRResult<Vec<u8>>)
    ensures
        match bsdiff_patched(old@, patch@) {
            Some(b) => res matches Ok(v) && v@ == b,
            None => res == Err::<Vec<u8>, VCRError>(VCRError::BinaryPatchError),
        },
{
    let mut reader = patch;
    let mut new: Vec<u8> = Vec::new();
    bsdiff::patch(old, &mut reader, &mut new).map_err(|_| VCRError::BinaryPatchError)?;
    Ok(new)
}

/// The version of a resource after applying its first `n` deltas to the basis. Each delta is
/// decompressed from its place in the resource file and applied as a binary patch; a delta
/// whose place lies outside the file cannot be read.
pub open spec fn spec_resource(basis: Seq<u8>, deltas: Seq<PatchData>, file: Seq<u8>, n: int) -> Result<Seq<u8>, VCRError>
    decreases n,
{
    if n <= 0 {
        Ok(basis)
    } else {
        match spec_resource(basis, deltas, file, n - 1) {
            Err(e) => Err(e),
            Ok(prev) => {
                let d = deltas[n - 1];
                let end = d.offset as int + d.compressed_patch_length as int;
                if end > u32::MAX as int || end > file.len() {
                    Err(VCRError::Malformed)
                } else {
                    match within(zstd_frame_content(file.subrange(d.offset as int, end)), d.uncompressed_patch_length as usize) {
                        None => Err(VCRError::CompressionError),
                        Some(p) => match bsdiff_patched(prev, p) {
                            None => Err(VCRError::BinaryPatchError),
                            Some(r) => Ok(r),
                        },
                    }
                }
            },
        }
    }
}

proof fn lemma_resource_err(basis: Seq<u8>, deltas: Seq<PatchData>, file: Seq<u8>, i: int, n: int)
    requires
        0 <= i < n,
        spec_resource(basis, deltas, file, i + 1) is Err,
    ensures
        spec_resource(basis, deltas, file, n) == spec_resource(basis, deltas, file, i + 1),
    decreases n - i,
{
    if n > i + 1 {
        lemma_resource_err(basis, deltas, file, i, n - 1);
    }
}

/// The version of a resource that delta `delta_idx` gives: the basis with deltas `0..=delta_idx`
/// applied in turn.
pub fn get_resource(header: &EncodedResource, delta_file: &[u8], delta_idx: u16) -> (res: VCRResult<Vec<u8>>)
    requires
        (delta_idx as int) < header.deltas@.len(),
        delta_idx < u16::MAX,
    ensures
        match spec_resource(header.basis@, header.deltas@, delta_file@, delta_idx + 1) {
            Ok(b) => res matches Ok(v) && v@ == b,
            Err(e) => res matches Err(e2) && e2 == e,
        },
{
    let mut res: Vec<u8> = Vec::new();
    crate::bytes::push_bytes(&mut res, header.basis.as_slice());
    assert(res@ =~= header.basis@);
    let last: usize = delta_idx as usize + 1;
    let mut idx: usize = 0;
    while idx < last
        invariant
            idx <= last,
            last == delta_idx + 1,
            last <= header.deltas@.len(),
            spec_resource(header.basis@, header.deltas@, delta_file@, idx as int) == Ok::<Seq<u8>, VCRError>(res@),
        decreases last - idx,
    {
        let metadata = &header.deltas[idx];
        let start = metadata.offset;
        let len = metadata.compressed_patch_length;
        if start as u64 + len as u64 > u32::MAX as u64 || start as u64 + len as u64 > delta_file.len() as u64 {
            proof { lemma_resource_err(header.basis@, header.deltas@, delta_file@, idx as int, last as int); }
            return Err(VCRError::Malformed);
        }
        let part = slice_range(delta_file, start as usize, (start + len) as usize);
        let patch_bytes = match frame_bounded(part, metadata.uncompressed_patch_length as usize) {
            Ok(b) => b,
            Err(e) => {
                proof { lemma_resource_err(header.basis@, header.deltas@, delta_file@, idx as int, last as int); }
                return Err(e);
            },
        };
        let patched = match apply_binary_patch(res.as_slice(), patch_bytes.as_slice()) {
            Ok(b) => b,
            Err(e) => {
                proof { lemma_resource_err(header.basis@, header.deltas@, delta_file@, idx as int, last as int); }
                return Err(e);
            },
        };
        res = patched;
        idx = idx + 1;
    }
    Ok(res)
}

/// A published version of a resource: when it was published, its path, its hash, and where
/// it can be downloaded.
pub struct SiteUpdate {
    pub timestamp: Timestamp,
    pub path: String,
    pub hash: String,
    pub download_url: String,
}

/// The decimal digits of a number.
pub open spec fn decimal(n: nat) -> Seq<char>
    decreases n,
{
    if n < 10 {
        seq![(48 + n) as char]
    } else {
        decimal(n / 10) + seq![(48 + n % 10) as char]
    }
}

fn digit_text(d: u16) -> (res: &'static str)
    requires
        d < 10,
    ensures
        res@ == seq![(48 + d) as char],
{
    proof {
        reveal_strlit("0");
        reveal_strlit("1");
        reveal_strlit("2");
        reveal_strlit("3");
        reveal_strlit("4");
        reveal_strlit("5");
        reveal_strlit("6");
        reveal_strlit("7");
        reveal_strlit("8");
        reveal_strlit("9");
    }
    let r = match d {
        0 => "0",
        1 => "1",
        2 => "2",
        3 => "3",
        4 => "4",
        5 => "5",
        6 => "6",
        7 => "7",
        8 => "8",
        _ => "9",
    };
    assert(r@ =~= seq![(48 + d) as char]);
    r
}

/// Writes a number in decimal.
pub fn decimal_text(n: u16) -> (res: String)
    ensures
        res@ == decimal(n as nat),
    decreases n,
{
    if n < 10 {
        String::from_str(digit_text(n))
    } else {
        let mut s = decimal_text(n / 10);
        s.append(digit_text(n % 10));
        s
    }
}

/// The download address of a delta: `{base_url}/{kind}/{idx}`.
pub open spec fn download_url(base_url: Seq<char>, kind: Seq<char>, idx: u16) -> Seq<char> {
    base_url + seq!['/'] + kind + seq!['/'] + decimal(idx as nat)
}

pub open spec fn update_fields(u: &SiteUpdate) -> (Timestamp, Seq<char>, Seq<char>, Seq<char>) {
    (u.timestamp, u.path@, u.hash@, u.download_url@)
}

/// The published versions of one resource, in the order of its paths.
pub fn expand_site_updates(kind: &str, resource: &EncodedResource, base_url: &str) -> (res: Vec<SiteUpdate>)
    requires
        forall|i: int| 0 <= i < resource.paths@.len() ==> (#[trigger] resource.paths@[i].2 as int) < resource.deltas@.len(),
    ensures
        res@.len() == resource.paths@.len(),
        forall|i: int| 0 <= i < res@.len() ==> #[trigger] update_fields(&res@[i]) == (
            resource.paths@[i].0,
            resource.paths@[i].1@,
            resource.deltas@[resource.paths@[i].2 as int].hash@,
            download_url(base_url@, kind@, resource.paths@[i].2),
        ),
{
    let mut out: Vec<SiteUpdate> = Vec::new();
    let mut i: usize = 0;
    proof {
        reveal_strlit("/");
    }
    while i < resource.paths.len()
        invariant
            i <= resource.paths@.len(),
            out@.len() == i,
            forall|i: int| 0 <= i < resource.paths@.len() ==> (#[trigger] resource.paths@[i].2 as int) < resource.deltas@.len(),
            "/"@ == seq!['/'],
            forall|j: int| 0 <= j < i ==> #[trigger] update_fields(&out@[j]) == (
                resource.paths@[j].0,
                resource.paths@[j].1@,
                resource.deltas@[resource.paths@[j].2 as int].hash@,
                download_url(base_url@, kind@, resource.paths@[j].2),
            ),
        decreases resource.paths@.len() - i,
    {
        let entry = &resource.paths[i];
        let idx = entry.2;
        let mut url = String::from_str(base_url);
        url.append("/");
        url.append(kind);
        url.append("/");
        let digits = decimal_text(idx);
        url.append(digits.as_str());
        let u = SiteUpdate {
            timestamp: entry.0,
            path: entry.1.clone(),
            hash: resource.deltas[idx as usize].hash.clone(),
            download_url: url,
        };
        assert(update_fields(&u).3 =~= download_url(base_url@, kind@, idx));
        out.push(u);
        i = i + 1;
    }
    out
}

} // verus!
