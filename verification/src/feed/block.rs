use vstd::prelude::*;
use core::ops::Range;
use crate::search::{keys_sorted, has_key, search_by_key, floor_search, floor_index};

verus! {

/// A decompressed block of events: the (time, byte position) of each event, ordered by time,
/// and the bytes that hold the archived events.
pub struct EventBlock {
    pub event_positions: Vec<(u64, u32)>,
    pub bytes: Vec<u8>,
}

/// Where an event of a block lies: its time and the position of its archive in the block's bytes.
#[derive(Clone, Copy, Debug, PartialEq, Eq, Structural)]
pub struct EventRef {
    pub timestamp: u64,
    pub position: u32,
}

pub open spec fn event_ref(p: (u64, u32)) -> EventRef {
    EventRef { timestamp: p.0, position: p.1 }
}

/// The references of a run of event positions, in order.
pub open spec fn event_refs(s: Seq<(u64, u32)>) -> Seq<EventRef> {
    s.map_values(|p: (u64, u32)| event_ref(p))
}

impl EventBlock {
    /// The event at a time, if the block holds one at exactly that time.
    pub fn event_at_time(&self, at: u64) -> (res: Option<EventRef>)
        ensures
            res matches Some(e) ==> e.timestamp == at && exists|i: int|
                0 <= i < self.event_positions@.len() && event_ref(#[trigger] self.event_positions@[i]) == e,
            keys_sorted(self.event_positions@) ==> (res is Some <==> has_key(self.event_positions@, at as int)),
    {
        let event_index = match search_by_key(self.event_positions.as_slice(), at) {
            Ok(i) => i,
            _ => return None,
        };
        let res = self.event_at_index(event_index);
        proof {
            assert(event_ref(self.event_positions@[event_index as int]) == res.unwrap());
        }
        res
    }

    /// The event at an index of the block.
    #[inline(always)]
    pub fn event_at_index(&self, event_index: usize) -> (res: Option<EventRef>)
        ensures
            event_index < self.event_positions@.len() ==> res == Some(event_ref(self.event_positions@[event_index as int])),
            event_index >= self.event_positions@.len() ==> res is None,
    {
        if event_index < self.event_positions.len() {
            let (timestamp, position) = self.event_positions[event_index];
            Some(EventRef { timestamp, position })
        } else {
            None
        }
    }

    /// The events from the one at (or last before) the start of the range up to, but not
    /// including, the one at (or last before) its end. `None` when the end lies before the start.
    pub fn events_at_time_range(&self, time_index: Range<u64>) -> (res: Option<Vec<EventRef>>)
        ensures
            exists|start: int, end: int| {
                &&& floor_index(self.event_positions@, time_index.start as int, start)
                &&& floor_index(self.event_positions@, time_index.end as int, end)
                &&& if start <= end {
                    (res matches Some(v) && v@ == event_refs(self.event_positions@.subrange(start, end)))
                } else {
                    res is None
                }
            },
    {
        let start = floor_search(self.event_positions.as_slice(), time_index.start);
        let end = floor_search(self.event_positions.as_slice(), time_index.end);
        let res = self.events_at_range(start..end);
        proof {
            assert(floor_index(self.event_positions@, time_index.start as int, start as int));
        }
        res
    }

    /// Every event of the block, in order.
    #[inline(always)]
    pub fn all_events(&self) -> (res: Vec<EventRef>)
        ensures
            res@ == event_refs(self.event_positions@),
    {
        let r = self.events_at_range(0..self.event_positions.len());
        proof {
            assert(self.event_positions@.subrange(0, self.event_positions@.len() as int) =~= self.event_positions@);
        }
        r.unwrap()
    }

    /// The events at a range of indices; `None` when the range does not lie within the block.
    #[inline(always)]
    pub fn events_at_range(&self, event_index: Range<usize>) -> (res: Option<Vec<EventRef>>)
        ensures
            event_index.start <= event_index.end <= self.event_positions@.len() ==> (res matches Some(v)
                && v@ == event_refs(self.event_positions@.subrange(event_index.start as int, event_index.end as int))),
            !(event_index.start <= event_index.end <= self.event_positions@.len()) ==> res is None,
    {
        if !(event_index.start <= event_index.end && event_index.end <= self.event_positions.len()) {
            return None;
        }
        let mut out: Vec<EventRef> = Vec::new();
        let mut i = event_index.start;
        while i < event_index.end
            invariant
                event_index.start <= i <= event_index.end <= self.event_positions@.len(),
                out@ == event_refs(self.event_positions@.subrange(event_index.start as int, i as int)),
            decreases event_index.end - i,
        {
            let (timestamp, position) = self.event_positions[i];
            out.push(EventRef { timestamp, position });
            proof {
                assert(self.event_positions@.subrange(event_index.start as int, i + 1)
                    =~= self.event_positions@.subrange(event_index.start as int, i as int).push(self.event_positions@[i as int]));
            }
            i = i + 1;
        }
        Some(out)
    }
}

} // verus!
