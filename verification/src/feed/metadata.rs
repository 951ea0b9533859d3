use vstd::prelude::*;
use crate::{VCRError, VCRResult};
use crate::bytes::{be16, from_be16, push_bytes, push_be16};

verus! {

/// The metadata of a simple event: the play and sub-play numbers and, possibly, child event ids.
pub struct SimpleEventMetadata {
    pub play: i64,
    pub sub_play: i64,
    pub children: Option<Vec<[u8; 16]>>,
}

/// Event ids laid end to end.
pub open spec fn children_bytes(c: Seq<[u8; 16]>) -> Seq<u8>
    decreases c.len(),
{
    if c.len() == 0 {
        Seq::empty()
    } else {
        children_bytes(c.drop_last()) + c.last()@
    }
}

proof fn lemma_children_bytes_len(c: Seq<[u8; 16]>)
    ensures
        children_bytes(c).len() == 16 * c.len(),
    decreases c.len(),
{
    if c.len() > 0 {
        lemma_children_bytes_len(c.drop_last());
    }
}

/// The play, the sub-play and the bytes of the children, if any.
pub open spec fn simple_view(m: &SimpleEventMetadata) -> (i64, i64, Option<Seq<u8>>) {
    (m.play, m.sub_play, match m.children {
        Some(c) => Some(children_bytes(c@)),
        None => None,
    })
}

/// The stored form of a simple event: the play as a big-endian `u16`, the sub-play as one
/// signed byte, then each child id.
pub open spec fn spec_encode_simple(m: &SimpleEventMetadata) -> Seq<u8> {
    be16(m.play as u16) + seq![(m.sub_play as i8) as u8] + match m.children {
        Some(c) => children_bytes(c@),
        None => Seq::empty(),
    }
}

/// How many whole child ids follow the three leading bytes.
pub open spec fn child_count(len: int) -> int {
    (len - 3) / 16
}

/// What reading a simple event gives: `None` when fewer than three bytes are stored; the
/// children are kept only when there are at least two, and bytes after the last whole id are ignored.
pub open spec fn spec_decode_simple(b: Seq<u8>) -> Option<(i64, i64, Option<Seq<u8>>)> {
    if b.len() < 3 {
        None
    } else {
        let n = child_count(b.len() as int);
        Some((from_be16(b, 0) as i64, (b[2] as i8) as i64,
            if n > 1 { Some(b.subrange(3, 3 + 16 * n)) } else { None }))
    }
}

/// Packs the metadata of a simple event.
pub fn encode_simple_event(metadata: &SimpleEventMetadata) -> (res: Vec<u8>)
    ensures
        res@ == spec_encode_simple(metadata),
{
    let mut res: Vec<u8> = Vec::new();
    push_be16(&mut res, metadata.play as u16);
    res.push((metadata.sub_play as i8) as u8);
    let ghost head = res@;
    match &metadata.children {
        Some(children) => {
            let mut i: usize = 0;
            while i < children.len()
                invariant
                    i <= children@.len(),
                    res@ == head + children_bytes(children@.subrange(0, i as int)),
                decreases children@.len() - i,
            {
                push_bytes(&mut res, children[i].as_slice());
                proof {
                    assert(children@.subrange(0, i + 1).drop_last() =~= children@.subrange(0, i as int));
                }
                i = i + 1;
            }
            proof {
                assert(children@.subrange(0, children@.len() as int) =~= children@);
            }
        },
        None => {},
    }
    assert(res@ =~= spec_encode_simple(metadata));
    res
}

fn read_id(bytes: &[u8], pos: usize) -> (res: [u8; 16])
    requires
        pos + 16 <= bytes@.len(),
    ensures
        res@ == bytes@.subrange(pos as int, pos + 16),
{
    let mut id: [u8; 16] = [0u8; 16];
    let n = bytes.len();
    let mut k: usize = 0;
    while k < 16
        invariant
            k <= 16,
            pos + 16 <= bytes@.len(),
            n == bytes@.len(),
            forall|j: int| 0 <= j < k ==> id@[j] == bytes@[pos + j],
        decreases 16 - k,
    {
        id[k] = bytes[pos + k];
        k = k + 1;
    }
    assert(id@ =~= bytes@.subrange(pos as int, pos + 16));
    id
}

/// Reads the metadata of a simple event.
pub fn decode_simple_event(bytes: &[u8]) -> (res: VCRResult<SimpleEventMetadata>)
    ensures
        match spec_decode_simple(bytes@) {
            None => res == Err::<SimpleEventMetadata, VCRError>(VCRError::UnexpectedEof),
            Some(v) => (res matches Ok(m) && simple_view(&m) == v
                && (m.children matches Some(c) ==> c@.len() == child_count(bytes@.len() as int))),
        },
{
    if bytes.len() < 3 {
        return Err(VCRError::UnexpectedEof);
    }
    let play: u16 = bytes[0] as u16 * 256 + bytes[1] as u16;
    let sub_play: i8 = bytes[2] as i8;
    let mut children: Vec<[u8; 16]> = Vec::new();
    let mut pos: usize = 3;
    let ghost n = child_count(bytes@.len() as int);
    while bytes.len() - pos >= 16
        invariant
            3 <= pos <= bytes@.len(),
            (pos - 3) % 16 == 0,
            children@.len() == (pos - 3) / 16,
            children_bytes(children@) == bytes@.subrange(3, pos as int),
        decreases bytes@.len() - pos,
    {
        let id = read_id(bytes, pos);
        let ghost before = children@;
        children.push(id);
        proof {
            assert(children@.drop_last() =~= before);
            assert(bytes@.subrange(3, pos + 16) =~= bytes@.subrange(3, pos as int) + bytes@.subrange(pos as int, pos + 16));
        }
        pos = pos + 16;
    }
    assert(children@.len() == n);
    let count = children.len();
    let m = SimpleEventMetadata {
        play: play as i64,
        sub_play: sub_play as i64,
        children: if count > 1 { Some(children) } else { None },
    };
    assert(play == from_be16(bytes@, 0));
    Ok(m)
}

/// Reading back a packed simple event gives the same play, sub-play and children, when the
/// numbers fit their stored widths and there are no children or at least two.
pub proof fn lemma_simple_event_roundtrip(m: &SimpleEventMetadata)
    requires
        0 <= m.play <= u16::MAX,
        i8::MIN <= m.sub_play <= i8::MAX,
        m.children matches Some(c) ==> c@.len() >= 2,
    ensures
        spec_decode_simple(spec_encode_simple(m)) == Some(simple_view(m)),
{
    let b = spec_encode_simple(m);
    let p = m.play as u16;
    let sp = m.sub_play;
    assert(((sp as i8) as u8) as i8 == sp as i8) by (bit_vector);
    match m.children {
        Some(c) => {
            lemma_children_bytes_len(c@);
            assert(b.subrange(3, 3 + 16 * child_count(b.len() as int)) =~= children_bytes(c@));
        },
        None => {},
    }
    assert(from_be16(b, 0) == p);
}

/// Whether an event type's metadata is packed as a simple event when written.
pub open spec fn spec_simple_on_encode(t: i16) -> bool {
    (1 <= t <= 10) || (12 <= t <= 25) || t == 27 || t == 28 || (30 <= t <= 53) || (62 <= t <= 79)
        || (84 <= t <= 99) || t == 165 || t == 169 || t == 170 || t == 173 || t == 174 || t == 177
        || t == 178 || t == 181 || t == 183 || t == 189 || t == 191 || t == 192 || t == 193 || t == 195
        || t == 198 || t == 208 || t == 213 || t == 216 || t == 226 || t == 228 || t == 230 || t == 231
        || t == 233 || t == 237 || t == 239 || t == 243 || t == 246 || t == 247 || t == 250 || t == 251
        || t == 252 || t == 254 || t == 255
}

/// Whether an event type's metadata is read as a simple event: the types packed as simple
/// events when written, and type 249.
pub open spec fn spec_simple_on_decode(t: i16) -> bool {
    spec_simple_on_encode(t) || t == 249
}

pub fn uses_simple_encoding(etype: i16) -> (res: bool)
    ensures
        res == spec_simple_on_encode(etype),
{
    let t = etype;
    (1 <= t && t <= 10) || (12 <= t && t <= 25) || t == 27 || t == 28 || (30 <= t && t <= 53) || (62 <= t && t <= 79)
        || (84 <= t && t <= 99) || t == 165 || t == 169 || t == 170 || t == 173 || t == 174 || t == 177
        || t == 178 || t == 181 || t == 183 || t == 189 || t == 191 || t == 192 || t == 193 || t == 195
        || t == 198 || t == 208 || t == 213 || t == 216 || t == 226 || t == 228 || t == 230 || t == 231
        || t == 233 || t == 237 || t == 239 || t == 243 || t == 246 || t == 247 || t == 250 || t == 251
        || t == 252 || t == 254 || t == 255
}

pub fn uses_simple_decoding(etype: i16) -> (res: bool)
    ensures
        res == spec_simple_on_decode(etype),
{
    uses_simple_encoding(etype) || etype == 249
}

} // verus!
