//! Delta-decompression state per `(message type, contract id)`.
//!
//! Ticks arrive FIT-encoded: the first row for a given `(message type,
//! contract)` stream is absolute, and every later row carries only the
//! changes against the previous absolute row. This module keeps the running
//! absolute row per stream and turns each decoded FIT row into the absolute
//! tick.
//!
//! A decoded FIT row ([`FitRow`]) is the list of integer fields the FIT
//! reader produced, with its DATE-marker and completeness flags. Field 0 is
//! the contract id; fields 1.. are the tick data (absolute values on the
//! first row of a stream, deltas afterwards).

use vstd::prelude::*;
use vstd::hash_map::HashMapWithView;

use crate::framing::ExInstant;

verus! {

broadcast use {vstd::std_specs::hash::group_hash_axioms, vstd::array::group_array_axioms};

/// Data fields of a quote tick.
pub const QUOTE_FIELDS: usize = 11;

/// Data fields of a stream trade tick.
pub const TRADE_FIELDS: usize = 8;

/// Data fields of an open-interest tick.
pub const OI_FIELDS: usize = 3;

/// Data fields of an OHLCVC bar.
pub const OHLCVC_FIELDS: usize = 9;

/// Widest tick shape (the quote).
pub const MAX_DATA_FIELDS: usize = 11;

/// One absolute tick row, sized to the widest shape; slots past the active
/// field count are zero.
pub type TickFields = [i32; MAX_DATA_FIELDS];

/// Milliseconds after a STOP signal during which unknown-contract warnings
/// are suppressed (stale ticks are expected during market-close teardown).
pub const STOP_SUPPRESS_MS: u64 = 5000;

/// One FIT row as the FIT reader decoded it.
#[derive(Debug, Clone, PartialEq, Eq)]
pub struct FitRow {
    /// Every field of the row in wire order; field 0 is the contract id.
    pub fields: Vec<i32>,
    /// The row is a DATE marker (no user-visible data).
    pub is_date: bool,
    /// The row ended with its terminator (a row cut off mid-buffer is not
    /// complete).
    pub row_complete: bool,
}

/// Map key of a `(message code, contract id)` stream.
pub open spec fn delta_key(code: u8, contract_id: i32) -> u64 {
    (code as int * 0x1_0000_0000 + if contract_id >= 0 {
        contract_id as int
    } else {
        contract_id as int + 0x1_0000_0000
    }) as u64
}

/// Field `i` of a row, zero past its end (the reader's zero-filled buffer).
pub open spec fn field_at(fields: Seq<i32>, i: int) -> i32 {
    if 0 <= i < fields.len() {
        fields[i]
    } else {
        0
    }
}

/// The absolute tick an absolute row decodes to: its data fields, truncated
/// to the expected width and zero-padded.
pub open spec fn absolute_tick(fields: Seq<i32>, expected: int) -> Seq<i32> {
    Seq::new(
        MAX_DATA_FIELDS as nat,
        |i: int|
            if i < expected {
                field_at(fields, i + 1)
            } else {
                0i32
            },
    )
}

/// The absolute tick a delta row decodes to: each data field added (with
/// 32-bit wrap-around) onto the previous absolute row.
pub open spec fn delta_tick(fields: Seq<i32>, prev: Seq<i32>, expected: int) -> Seq<i32> {
    Seq::new(
        MAX_DATA_FIELDS as nat,
        |i: int|
            if i < expected {
                prev[i].wrapping_add(field_at(fields, i + 1))
            } else {
                0i32
            },
    )
}

/// What applying `row` under message code `code` yields against the given
/// baselines and widths: the contract id, the stream's field count and the
/// absolute tick, or `None` for a DATE marker, an incomplete or empty row,
/// or an absolute row wider than `expected`.
pub open spec fn spec_tick_result(
    baselines: Map<u64, TickFields>,
    widths: Map<u64, usize>,
    code: u8,
    row: FitRow,
    expected: int,
) -> Option<(i32, usize, Seq<i32>)> {
    if row.is_date || !row.row_complete || row.fields@.len() == 0 {
        None
    } else {
        let cid = row.fields@[0];
        let key = delta_key(code, cid);
        let tick_n = row.fields@.len() - 1;
        let absolute = !baselines.contains_key(key);
        if absolute && tick_n > expected {
            None
        } else if absolute {
            Some((cid, tick_n as usize, absolute_tick(row.fields@, expected)))
        } else {
            Some((cid, widths[key], delta_tick(row.fields@, baselines[key]@, expected)))
        }
    }
}

/// Whether `after` is the delta state `decode_tick` leaves when it applies
/// `row` under message code `code` to `before`: on a decoded row the
/// stream's baseline becomes the absolute tick and its width is recorded;
/// on any other row both maps are unchanged.
pub open spec fn tick_applied(before: &DeltaState, after: &DeltaState, code: u8, row: FitRow, expected: int) -> bool {
    &&& after.well_formed()
    &&& after.last_stop_at() == before.last_stop_at()
    &&& after.spec_last_was_date() == row.is_date
    &&& match spec_tick_result(before.baselines(), before.widths(), code, row, expected) {
        Some((cid, width, tick)) => {
            let key = delta_key(code, cid);
            &&& after.baselines() == before.baselines().insert(key, after.baselines()[key])
            &&& after.baselines()[key]@ == tick
            &&& after.widths() == before.widths().insert(key, width)
        },
        None => after.baselines() == before.baselines() && after.widths() == before.widths(),
    }
}

/// Per-stream delta decompression state.
pub struct DeltaState {
    prev: HashMapWithView<u64, TickFields>,
    field_counts: HashMapWithView<u64, usize>,
    last_was_date: bool,
    last_stop: Option<std::time::Instant>,
}

impl DeltaState {
    /// Last absolute row of every stream seen this session.
    pub closed spec fn baselines(&self) -> Map<u64, TickFields> {
        self.prev@
    }

    /// Field count fixed by the first absolute row of every stream.
    pub closed spec fn widths(&self) -> Map<u64, usize> {
        self.field_counts@
    }

    /// Whether the last row handed to `decode_tick` was a DATE marker.
    pub closed spec fn spec_last_was_date(&self) -> bool {
        self.last_was_date
    }

    /// When the last STOP was recorded, if one was.
    pub closed spec fn last_stop_at(&self) -> Option<std::time::Instant> {
        self.last_stop
    }

    /// Whether a STOP has been recorded.
    pub open spec fn stop_recorded(&self) -> bool {
        self.last_stop_at() is Some
    }

    /// Whether the last row handed to `decode_tick` was a DATE marker, so a
    /// caller can tell a date skip from a rejected row.
    pub fn last_was_date(&self) -> (r: bool)
        ensures
            r == self.spec_last_was_date(),
    {
        self.last_was_date
    }

    /// Record that a STOP (market close) arrived at `at`.
    pub fn record_stop(&mut self, at: std::time::Instant)
        ensures
            final(self).baselines() == old(self).baselines(),
            final(self).widths() == old(self).widths(),
            final(self).spec_last_was_date() == old(self).spec_last_was_date(),
            final(self).last_stop_at() == Some(at),
            final(self).well_formed() == old(self).well_formed(),
    {
        self.last_stop = Some(at);
    }

    /// Every stream with a baseline has a width and vice versa.
    pub closed spec fn well_formed(&self) -> bool {
        self.prev@.dom() == self.field_counts@.dom()
    }

    /// Empty state: no stream has a baseline yet.
    pub fn new() -> (r: DeltaState)
        ensures
            r.well_formed(),
            r.baselines() == Map::<u64, TickFields>::empty(),
            r.widths() == Map::<u64, usize>::empty(),
            !r.spec_last_was_date(),
            r.last_stop_at() is None,
    {
        DeltaState {
            prev: HashMapWithView::new(),
            field_counts: HashMapWithView::new(),
            last_was_date: false,
            last_stop: None,
        }
    }

    /// Clear all accumulated delta state at a session boundary
    /// (START / STOP / RESTART / server reconnect). The STOP timestamp is
    /// kept: it must outlive the STOP that clears the state.
    pub fn clear(&mut self)
        ensures
            final(self).well_formed(),
            final(self).baselines() == Map::<u64, TickFields>::empty(),
            final(self).widths() == Map::<u64, usize>::empty(),
            !final(self).spec_last_was_date(),
            final(self).last_stop_at() == old(self).last_stop_at(),
    {
        self.prev.clear();
        self.last_was_date = false;
        self.field_counts.clear();
    }

    /// Whether a STOP arrived less than [`STOP_SUPPRESS_MS`] ago. Without a
    /// recorded STOP the answer is `false`; with one it is what
    /// [`stop_window_open`] makes of the milliseconds the clock reports since
    /// that STOP, which this contract cannot know.
    pub fn is_in_stop_suppression_window(&self) -> (r: bool)
        ensures
            !self.stop_recorded() ==> !r,
            r ==> self.stop_recorded(),
    {
        let elapsed = match &self.last_stop {
            Some(t) => Some(millis_since(t)),
            None => None,
        };
        stop_window_open(elapsed)
    }

    /// Apply one decoded FIT row for message code `msg_code`, writing the
    /// absolute tick into `out`.
    ///
    /// Returns `Some((contract_id, data_field_count))`, or `None` (with
    /// `out` and the state untouched) for a DATE marker, an incomplete row,
    /// an empty row, or an absolute row wider than `expected_fields`.
    /// `last_was_date` tells a DATE skip from a rejected row.
    pub fn decode_tick(&mut self, msg_code: u8, row: &FitRow, expected_fields: usize, out: &mut TickFields) -> (r: Option<(i32, usize)>)
        requires
            old(self).well_formed(),
            expected_fields <= MAX_DATA_FIELDS,
        ensures
            final(self).well_formed(),
            final(self).last_stop_at() == old(self).last_stop_at(),
            final(self).spec_last_was_date() == row.is_date,
            tick_applied(old(self), final(self), msg_code, *row, expected_fields as int),
            spec_tick_result(old(self).baselines(), old(self).widths(), msg_code, *row, expected_fields as int) matches Some((cid, width, tick)) ==> {
                &&& r == Some((cid, width))
                &&& final(out)@ == tick
                &&& final(self).baselines() == old(self).baselines().insert(delta_key(msg_code, cid), *final(out))
                &&& final(self).widths() == old(self).widths().insert(delta_key(msg_code, cid), width)
            },
            spec_tick_result(old(self).baselines(), old(self).widths(), msg_code, *row, expected_fields as int) is None ==> {
                &&& r is None
                &&& final(self).baselines() == old(self).baselines()
                &&& final(self).widths() == old(self).widths()
                &&& *final(out) == *old(out)
            },
    {
        self.last_was_date = false;
        if row.is_date {
            self.last_was_date = true;
            return None;
        }
        if !row.row_complete {
            return None;
        }
        let n = row.fields.len();
        if n == 0 {
            return None;
        }
        let contract_id = row.fields[0];
        let tick_n = n - 1;
        let key = stream_key(msg_code, contract_id);
        let baseline = self.prev.get(&key);
        let absolute = baseline.is_none();
        if absolute && tick_n > expected_fields {
            return None;
        }
        let mut tick: TickFields = [0i32; MAX_DATA_FIELDS];
        let mut i: usize = 0;
        while i < MAX_DATA_FIELDS
            invariant
                i <= MAX_DATA_FIELDS,
                expected_fields <= MAX_DATA_FIELDS,
                n == row.fields@.len(),
                absolute == baseline.is_none(),
                absolute == !self.prev@.contains_key(key),
                baseline matches Some(b) ==> *b == self.prev@[key],
                forall|j: int|
                    0 <= j < i ==> tick@[j] == if absolute {
                        absolute_tick(row.fields@, expected_fields as int)[j]
                    } else {
                        delta_tick(row.fields@, self.prev@[key]@, expected_fields as int)[j]
                    },
            decreases MAX_DATA_FIELDS - i,
        {
            let v: i32 = if i < expected_fields {
                let delta: i32 = if i + 1 < n {
                    row.fields[i + 1]
                } else {
                    0
                };
                match baseline {
                    Some(b) => b[i].wrapping_add(delta),
                    None => delta,
                }
            } else {
                0
            };
            tick[i] = v;
            i = i + 1;
        }
        assert(tick@ =~= if absolute {
            absolute_tick(row.fields@, expected_fields as int)
        } else {
            delta_tick(row.fields@, self.prev@[key]@, expected_fields as int)
        });
        let width = match self.field_counts.get(&key) {
            Some(w) if !absolute => *w,
            _ => tick_n,
        };
        *out = tick;
        if absolute {
            self.field_counts.insert(key, tick_n);
        }
        self.prev.insert(key, tick);
        assert(self.prev@.dom() =~= self.field_counts@.dom());
        assert(self.prev@ =~= old(self).prev@.insert(key, self.prev@[key]));
        assert(self.field_counts@ =~= old(self).field_counts@.insert(key, width));
        Some((contract_id, width))
    }

    /// Number of streams holding a baseline, and number holding a width.
    pub fn state_sizes(&self) -> (r: (usize, usize))
        ensures
            r.0 == self.baselines().len(),
            r.1 == self.widths().len(),
    {
        (self.prev.len(), self.field_counts.len())
    }
}

/// Map key of a `(message code, contract id)` stream.
pub fn stream_key(code: u8, contract_id: i32) -> (r: u64)
    ensures
        r == delta_key(code, contract_id),
{
    let low: u64 = if contract_id >= 0 {
        contract_id as u64
    } else {
        (contract_id as i64 + 0x1_0000_0000i64) as u64
    };
    (code as u64) * 0x1_0000_0000u64 + low
}

/// Whether the suppression window after a STOP is still open, given the
/// milliseconds elapsed since the STOP (`None` when no STOP was recorded).
pub fn stop_window_open(elapsed_ms: Option<u64>) -> (r: bool)
    ensures
        r == (elapsed_ms matches Some(ms) && ms < STOP_SUPPRESS_MS),
{
    match elapsed_ms {
        Some(ms) => ms < STOP_SUPPRESS_MS,
        None => false,
    }
}

/// Milliseconds since `t` (`Instant::elapsed`), saturated to `u64`.
#[verifier::external_body]
fn millis_since(t: &std::time::Instant) -> u64 {
    u64::try_from(t.elapsed().as_millis()).unwrap_or(u64::MAX)
}

/// Distinct streams never share a key, so one stream's rows never disturb
/// another stream's baseline.
pub proof fn stream_keys_are_distinct(c1: u8, id1: i32, c2: u8, id2: i32)
    ensures
        delta_key(c1, id1) == delta_key(c2, id2) ==> c1 == c2 && id1 == id2,
{
}

/// After a session boundary (`clear`), a row for any stream is absolute
/// again: it decodes to its own fields, not onto a stale baseline.
pub proof fn cleared_state_decodes_fresh(fields: Seq<i32>, expected: int, code: u8)
    requires
        fields.len() > 0,
    ensures
        !Map::<u64, TickFields>::empty().contains_key(delta_key(code, fields[0])),
        absolute_tick(fields, expected) == Seq::new(
            MAX_DATA_FIELDS as nat,
            |i: int|
                if i < expected {
                    field_at(fields, i + 1)
                } else {
                    0i32
                },
        ),
{
}

/// A delta row that changes nothing (all data fields zero) reproduces the
/// previous absolute row within the expected width.
pub proof fn zero_delta_keeps_baseline(prev: Seq<i32>, cid: i32, expected: int)
    requires
        prev.len() == MAX_DATA_FIELDS,
        0 <= expected <= MAX_DATA_FIELDS,
    ensures
        forall|i: int|
            0 <= i < expected ==> #[trigger] delta_tick(seq![cid], prev, expected)[i] == prev[i],
{
    assert forall|i: int| 0 <= i < expected implies #[trigger] delta_tick(seq![cid], prev, expected)[i]
        == prev[i] by {
        assert(field_at(seq![cid], i + 1) == 0);
        assert(prev[i].wrapping_add(0) == prev[i]);
    }
}

/// An empty row, a row cut off before its terminator, and an absolute row
/// (no baseline yet for its stream) wider than the layout are rejected:
/// nothing is decoded, the DATE flag is cleared, and the baselines and
/// widths stay as they were, so a stream without a baseline still has none
/// and its next complete row decodes as a clean absolute row.
pub proof fn rejected_rows_change_nothing(before: &DeltaState, after: &DeltaState, code: u8, row: FitRow, expected: int)
    requires
        tick_applied(before, after, code, row, expected),
        !row.is_date,
        row.fields@.len() == 0 || !row.row_complete || (row.fields@.len() - 1 > expected
            && !before.baselines().contains_key(delta_key(code, row.fields@[0]))),
    ensures
        spec_tick_result(before.baselines(), before.widths(), code, row, expected) is None,
        after.baselines() == before.baselines(),
        after.widths() == before.widths(),
        !after.spec_last_was_date(),
        after.last_stop_at() == before.last_stop_at(),
{
}

} // verus!
