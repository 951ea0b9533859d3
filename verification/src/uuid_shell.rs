//! Compact tags that stand for well-known UUIDs: a byte for a team, two packed bytes for a
//! player or a game.

use vstd::prelude::*;

verus! {

/// A UUID known by its position in one of the lookup tables.
#[derive(Clone, Copy, Debug, PartialEq, Eq, Structural)]
pub enum UuidTag {
    Team(u8),
    Player(u16),
    Game(u16),
}

/// How a tag is written: a team as one byte; a player or game as two bytes packed with a
/// fifteen-bit position and one bit for the kind.
#[derive(Clone, Copy, Debug, PartialEq, Eq, Structural)]
pub enum TagEncoding {
    Byte(u8),
    Packed(u8, u8),
}

/// The two packed bytes: the position's fifteen bits from the lowest up, then the kind bit
/// (0 for a player, 1 for a game) as the highest bit of the second byte.
pub open spec fn packed_bytes(val: u16, game: bool) -> (u8, u8) {
    ((val % 256) as u8, ((val / 256) % 128 + if game { 128int } else { 0int }) as u8)
}

pub open spec fn spec_encode_tag(tag: UuidTag) -> TagEncoding {
    match tag {
        UuidTag::Team(v) => TagEncoding::Byte(v),
        UuidTag::Player(v) => { let (a, b) = packed_bytes(v, false); TagEncoding::Packed(a, b) },
        UuidTag::Game(v) => { let (a, b) = packed_bytes(v, true); TagEncoding::Packed(a, b) },
    }
}

/// Writes a tag. A player or game position must fit in fifteen bits.
pub fn encode_tag(tag: UuidTag) -> (res: TagEncoding)
    requires
        tag matches UuidTag::Player(v) ==> v < 0x8000,
        tag matches UuidTag::Game(v) ==> v < 0x8000,
    ensures
        res == spec_encode_tag(tag),
{
    match tag {
        UuidTag::Team(v) => TagEncoding::Byte(v),
        UuidTag::Player(v) => TagEncoding::Packed((v % 256) as u8, ((v / 256) % 128) as u8),
        UuidTag::Game(v) => TagEncoding::Packed((v % 256) as u8, ((v / 256) % 128 + 128) as u8),
    }
}

/// The tag that written bytes stand for: one byte is a team; two bytes are a player or a game,
/// as the highest bit says, at the position the other fifteen bits hold.
pub open spec fn spec_decode_tag(e: TagEncoding) -> UuidTag {
    match e {
        TagEncoding::Byte(v) => UuidTag::Team(v),
        TagEncoding::Packed(a, b) => {
            let val = (a as int + 256 * (b as int % 128)) as u16;
            if b >= 128 { UuidTag::Game(val) } else { UuidTag::Player(val) }
        },
    }
}

/// Reads a written tag.
pub fn decode_tag(e: TagEncoding) -> (res: UuidTag)
    ensures
        res == spec_decode_tag(e),
{
    match e {
        TagEncoding::Byte(v) => UuidTag::Team(v),
        TagEncoding::Packed(a, b) => {
            let val: u16 = a as u16 + 256 * (b as u16 % 128);
            if b >= 128 {
                UuidTag::Game(val)
            } else {
                UuidTag::Player(val)
            }
        },
    }
}

/// Writing a tag and reading it back gives the same tag.
pub proof fn lemma_tag_roundtrip(tag: UuidTag)
    requires
        tag matches UuidTag::Player(v) ==> v < 0x8000,
        tag matches UuidTag::Game(v) ==> v < 0x8000,
    ensures
        spec_decode_tag(spec_encode_tag(tag)) == tag,
{
}

/// Reading written bytes as a tag and writing it again gives the same bytes.
pub proof fn lemma_encoding_roundtrip(e: TagEncoding)
    ensures
        spec_decode_tag(e) matches UuidTag::Player(v) ==> v < 0x8000,
        spec_decode_tag(e) matches UuidTag::Game(v) ==> v < 0x8000,
        spec_encode_tag(spec_decode_tag(e)) == e,
{
}

} // verus!
