//! Storage formats and lookup logic for recorded Blaseball data: the event feed,
//! versioned entity tapes, JSON patch sequences and site resources.

use vstd::prelude::*;

pub mod err;
pub mod utils;
pub mod search;
pub mod bytes;
pub mod feed;
pub mod compress;
pub mod varint;
pub mod uuid_text;
pub mod json_sequences;
pub mod digest;
pub mod stream_data;
pub mod site;
pub mod vhs;
pub mod uuid_shell;
pub mod folder;
pub mod tape;
pub mod paging;

pub use err::VCRError;

verus! {

pub type VCRResult<T> = Result<T, VCRError>;

/// One version of an entity: its id, the second from which this version is valid, and its data.
pub struct ChroniclerEntity<T> {
    pub entity_id: [u8; 16],
    pub valid_from: u32,
    pub data: T,
}

pub type OptionalEntity<T> = Option<ChroniclerEntity<T>>;

impl<T> ChroniclerEntity<T> {
    /// Converts the data of this version into another representation, keeping its id and time.
    #[inline(always)]
    pub fn erase<U>(self) -> (res: ChroniclerEntity<U>)
        where T: Into<U>,
        ensures
            res.entity_id == self.entity_id,
            res.valid_from == self.valid_from,
            call_ensures(T::into, (self.data,), res.data),
    {
        ChroniclerEntity {
            entity_id: self.entity_id,
            valid_from: self.valid_from,
            data: self.data.into(),
        }
    }
}

/// A day of a season (or of a tournament), packed into four bytes.
#[derive(Clone, Copy, Debug, PartialEq, Eq, Structural)]
pub struct GameDate {
    pub day: i16,
    pub season: i8,
    pub tournament: i8,
}

/// The four bytes of a date: the day in little-endian order, then the season and the tournament.
pub open spec fn date_bytes(d: GameDate) -> Seq<u8> {
    seq![(d.day as u16 % 256) as u8, (d.day as u16 / 256) as u8, d.season as u8, d.tournament as u8]
}

/// The date that four bytes stand for.
pub open spec fn date_of_bytes(b: Seq<u8>) -> GameDate {
    GameDate {
        day: ((b[0] as u16 + 256 * (b[1] as u16)) as u16) as i16,
        season: b[2] as i8,
        tournament: b[3] as i8,
    }
}

impl GameDate {
    pub fn to_bytes(&self) -> (res: [u8; 4])
        ensures
            res@ == date_bytes(*self),
    {
        let d: u16 = self.day as u16;
        let lo: u8 = (d % 256) as u8;
        let hi: u8 = (d / 256) as u8;
        [lo, hi, self.season as u8, self.tournament as u8]
    }

    pub fn from_bytes(bytes: [u8; 4]) -> (res: GameDate)
        ensures
            res == date_of_bytes(bytes@),
    {
        let d: u16 = bytes[0] as u16 + 256 * (bytes[1] as u16);
        GameDate { day: d as i16, season: bytes[2] as i8, tournament: bytes[3] as i8 }
    }
}

/// Packing a date into bytes and reading it back gives the same date.
pub proof fn lemma_date_bytes_roundtrip(d: GameDate)
    ensures
        date_of_bytes(date_bytes(d)) == d,
{
    let day = d.day;
    let s = d.season;
    let t = d.tournament;
    assert((((((day as u16 % 256) as u8) as u16 + 256 * (((day as u16 / 256) as u8) as u16)) as u16) as i16) == day) by (bit_vector);
    assert(((s as u8) as i8) == s) by (bit_vector);
    assert(((t as u8) as i8) == t) by (bit_vector);
}

/// Reading four bytes as a date and packing it again gives the same bytes.
pub proof fn lemma_bytes_date_roundtrip(b: Seq<u8>)
    requires
        b.len() == 4,
    ensures
        date_bytes(date_of_bytes(b)) == b,
{
    let b0 = b[0];
    let b1 = b[1];
    let b2 = b[2];
    let b3 = b[3];
    assert((((((b0 as u16 + 256 * (b1 as u16)) as u16) as i16) as u16 % 256) as u8) == b0) by (bit_vector);
    assert((((((b0 as u16 + 256 * (b1 as u16)) as u16) as i16) as u16 / 256) as u8) == b1) by (bit_vector);
    assert(((b2 as i8) as u8) == b2) by (bit_vector);
    assert(((b3 as i8) as u8) == b3) by (bit_vector);
    assert(date_bytes(date_of_bytes(b)) =~= b);
}

} // verus!
