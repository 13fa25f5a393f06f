//! Which bytes of a file a split reads, so that every record is read by exactly one split.

use vstd::prelude::*;
use vstd::string::*;

use crate::text::signed_decimal_text;

verus! {

use crate::text::signed_decimal;

/// Maximum bytes fetched in a single probe request when searching for a record boundary.
/// Newlines in CSV/text sources are normally within a few hundred bytes of a split point; 1MB
/// covers pathological rows while keeping every request small.
pub const PROBE_CHUNK_SIZE: u64 = 1048576;

/// The position of the first byte with the given value.
pub open spec fn first_byte(bytes: Seq<u8>, byte: u8) -> Option<int>
    decreases bytes.len(),
{
    if bytes.len() == 0 {
        None
    } else if bytes[0] == byte {
        Some(0)
    } else {
        match first_byte(bytes.skip(1), byte) {
            Some(at) => Some(at + 1),
            None => None,
        }
    }
}

/// The position of the first byte with the given value.
pub fn find_byte(bytes: &[u8], byte: u8) -> (at: Option<usize>)
    ensures
        match at {
            Some(i) => first_byte(bytes@, byte) == Some(i as int) && i < bytes@.len(),
            None => first_byte(bytes@, byte) is None,
        },
{
    assert(bytes@.skip(0) =~= bytes@);
    for i in 0..bytes.len()
        invariant
            first_byte(bytes@, byte) == (match first_byte(bytes@.skip(i as int), byte) {
                Some(at) => Some(at + i),
                None => None,
            }),
    {
        assert(bytes@.skip(i as int)[0] == bytes@[i as int]);
        assert(bytes@.skip(i as int).skip(1) =~= bytes@.skip(i + 1));
        if bytes[i] == byte {
            return Some(i);
        }
    }
    None
}

proof fn lemma_first_byte(bytes: Seq<u8>, byte: u8)
    ensures
        match first_byte(bytes, byte) {
            Some(at) => 0 <= at < bytes.len() && bytes[at] == byte && forall|i: int|
                0 <= i < at ==> bytes[i] != byte,
            None => forall|i: int| 0 <= i < bytes.len() ==> bytes[i] != byte,
        },
    decreases bytes.len(),
{
    if bytes.len() > 0 && bytes[0] != byte {
        let rest = bytes.skip(1);
        lemma_first_byte(rest, byte);
        match first_byte(rest, byte) {
            Some(at) => {
                assert forall|i: int| 0 <= i < at + 1 implies bytes[i] != byte by {
                    if i > 0 {
                        assert(rest[i - 1] == bytes[i]);
                    }
                }
            },
            None => {
                assert forall|i: int| 0 <= i < bytes.len() implies bytes[i] != byte by {
                    if i > 0 {
                        assert(rest[i - 1] == bytes[i]);
                    }
                }
            },
        }
    }
}

/// Two searches that stop at the same byte agree.
proof fn lemma_first_byte_is(bytes: Seq<u8>, byte: u8, at: int)
    requires
        0 <= at < bytes.len(),
        bytes[at] == byte,
        forall|i: int| 0 <= i < at ==> bytes[i] != byte,
    ensures
        first_byte(bytes, byte) == Some(at),
{
    lemma_first_byte(bytes, byte);
}

proof fn lemma_no_byte(bytes: Seq<u8>, byte: u8)
    requires
        forall|i: int| 0 <= i < bytes.len() ==> bytes[i] != byte,
    ensures
        first_byte(bytes, byte) is None,
{
    lemma_first_byte(bytes, byte);
}

/// How many bytes from the given start a newline is, or how many bytes there are up to the end
/// where there is none.
pub open spec fn newline_distance(data: Seq<u8>, start: int, end: int, newline: u8) -> int {
    if start >= end {
        0
    } else {
        match first_byte(data.subrange(start, end), newline) {
            Some(at) => at,
            None => end - start,
        }
    }
}

/// A search for the first newline between two positions of a file, with requests of at most
/// `PROBE_CHUNK_SIZE` bytes.
#[derive(Debug, Clone, Copy, PartialEq, Eq, Structural)]
pub struct Probe {
    pub start: u64,
    pub end: u64,
    pub newline: u8,
    /// How many bytes were searched by former requests.
    pub scanned: u64,
    /// How many bytes of the response to the last request were searched.
    pub consumed: u64,
    /// Where the last request ends.
    pub fetch_end: u64,
}

impl Probe {
    /// The position from which on nothing was searched.
    pub open spec fn reached(self) -> int {
        self.start + self.scanned + self.consumed
    }

    pub fn new(start: u64, end: u64, newline: u8) -> (probe: Probe)
        ensures
            probe == (Probe { start, end, newline, scanned: 0, consumed: 0, fetch_end: start }),
    {
        Probe { start, end, newline, scanned: 0, consumed: 0, fetch_end: start }
    }

    /// Whether the search goes on with a request once the last response has ended. It does not
    /// where the end is reached, nor where the response was short, which is taken for the end
    /// of the file.
    pub open spec fn requests(self) -> bool {
        self.reached() < self.end && self.reached() >= self.fetch_end
    }

    /// The next request, by where it begins and ends, once the last response has ended; or how
    /// many bytes were searched, where the search is over.
    pub fn next_request(&mut self) -> (request: Result<(u64, u64), u64>)
        requires
            old(self).reached() <= u64::MAX,
        ensures
            final(self).start == old(self).start,
            final(self).end == old(self).end,
            final(self).newline == old(self).newline,
            final(self).reached() == old(self).reached(),
            final(self).consumed == 0,
            match request {
                Ok((from, to)) => {
                    &&& old(self).requests()
                    &&& from == old(self).reached()
                    &&& to == (if old(self).end - from < PROBE_CHUNK_SIZE {
                        old(self).end as int
                    } else {
                        from + PROBE_CHUNK_SIZE
                    })
                    &&& final(self).fetch_end == to
                },
                Err(scanned) => {
                    &&& !old(self).requests()
                    &&& scanned == old(self).reached() - old(self).start
                    &&& final(self).fetch_end == old(self).fetch_end
                },
            },
    {
        self.scanned = self.scanned + self.consumed;
        self.consumed = 0;
        let from: u64 = self.start + self.scanned;
        if from >= self.end || from < self.fetch_end {
            return Err(self.scanned);
        }
        let to: u64 = if self.end - from < PROBE_CHUNK_SIZE {
            self.end
        } else {
            from + PROBE_CHUNK_SIZE
        };
        self.fetch_end = to;
        Ok((from, to))
    }

    /// Takes the next bytes of the response. Where a newline is among them, tells how far from
    /// the start it is.
    pub fn take_chunk(&mut self, chunk: &[u8]) -> (found: Option<u64>)
        requires
            old(self).reached() + chunk@.len() <= u64::MAX,
        ensures
            match first_byte(chunk@, old(self).newline) {
                Some(at) => found matches Some(distance) && distance == old(self).scanned + old(
                    self,
                ).consumed + at && *final(self) == *old(self),
                None => found is None && *final(self) == (Probe {
                    consumed: (old(self).consumed + chunk@.len()) as u64,
                    ..*old(self)
                }),
            },
    {
        match find_byte(chunk, self.newline) {
            Some(at) => Some(self.scanned + self.consumed + at as u64),
            None => {
                self.consumed = self.consumed + chunk.len() as u64;
                None
            },
        }
    }

    /// Whether the search has so far met the bytes of a file, and no newline among them.
    pub open spec fn follows(self, data: Seq<u8>) -> bool {
        &&& self.end <= data.len()
        &&& self.start <= self.reached()
        &&& self.start < self.end ==> self.reached() <= self.end
        &&& forall|i: int| self.start <= i < self.reached() ==> data[i] != self.newline
    }
}

/// A newline that a search finds in the bytes of a file is the first one.
pub proof fn law_probes_find_the_first_newline(data: Seq<u8>, probe: Probe, chunk: Seq<u8>)
    requires
        probe.follows(data),
        probe.reached() + chunk.len() <= probe.end,
        chunk == data.subrange(probe.reached(), probe.reached() + chunk.len()),
    ensures
        match first_byte(chunk, probe.newline) {
            Some(at) => probe.scanned + probe.consumed + at == newline_distance(
                data,
                probe.start as int,
                probe.end as int,
                probe.newline,
            ),
            None => (Probe { consumed: (probe.consumed + chunk.len()) as u64, ..probe }).follows(
                data,
            ),
        },
{
    lemma_first_byte(chunk, probe.newline);
    let reached = probe.reached();
    match first_byte(chunk, probe.newline) {
        Some(at) => {
            let part = data.subrange(probe.start as int, probe.end as int);
            let distance = probe.scanned + probe.consumed + at;
            assert(part[distance] == data[reached + at]);
            assert(chunk[at] == data[reached + at]);
            assert forall|i: int| 0 <= i < distance implies part[i] != probe.newline by {
                assert(part[i] == data[probe.start + i]);
                if probe.start + i >= reached {
                    assert(chunk[probe.start + i - reached] == data[probe.start + i]);
                }
            }
            lemma_first_byte_is(part, probe.newline, distance);
        },
        None => {
            assert forall|i: int| probe.start <= i < reached + chunk.len() implies data[i]
                != probe.newline by {
                if i >= reached {
                    assert(chunk[i - reached] == data[i]);
                }
            }
        },
    }
}

/// A search that ends at the end has met no newline: it tells how many bytes there are.
pub proof fn law_probes_end_at_the_end(data: Seq<u8>, probe: Probe)
    requires
        probe.follows(data),
        probe.reached() >= probe.end,
    ensures
        probe.start < probe.end ==> probe.reached() - probe.start == newline_distance(
            data,
            probe.start as int,
            probe.end as int,
            probe.newline,
        ),
{
    if probe.start < probe.end {
        let part = data.subrange(probe.start as int, probe.end as int);
        assert forall|i: int| 0 <= i < part.len() implies part[i] != probe.newline by {
            assert(part[i] == data[probe.start + i]);
        }
        lemma_no_byte(part, probe.newline);
    }
}

/// What a split reads.
#[derive(Debug, Clone, Copy, PartialEq, Eq)]
pub enum RangeCalculation {
    /// The bytes from the first position up to the second, or the whole file.
    Range(Option<(u64, u64)>),
    /// Nothing.
    TerminateEarly,
}

/// A split that cannot be read.
#[derive(Debug, Clone, Copy, PartialEq, Eq, Structural)]
pub enum RangeError {
    NegativeStart { start: i64 },
    NegativeEnd { end: i64 },
}

impl RangeError {
    pub open spec fn spec_message(self) -> Seq<char> {
        match self {
            RangeError::NegativeStart { start } => "Expect start range to fit in u64, got "@
                + signed_decimal(start as int),
            RangeError::NegativeEnd { end } => "Expect end range to fit in u64, got "@
                + signed_decimal(end as int),
        }
    }

    pub fn message(&self) -> (text: String)
        ensures
            text@ == self.spec_message(),
    {
        match self {
            RangeError::NegativeStart { start } => {
                let mut text = "Expect start range to fit in u64, got ".to_owned();
                text.append(signed_decimal_text(*start).as_str());
                text
            },
            RangeError::NegativeEnd { end } => {
                let mut text = "Expect end range to fit in u64, got ".to_owned();
                text.append(signed_decimal_text(*end).as_str());
                text
            },
        }
    }
}

/// The bounds of a split, where it has any.
pub fn range_bounds(range: Option<(i64, i64)>) -> (bounds: Result<Option<(u64, u64)>, RangeError>)
    ensures
        bounds == (match range {
            None => Ok::<_, RangeError>(None),
            Some((start, end)) => if start < 0 {
                Err(RangeError::NegativeStart { start })
            } else if end < 0 {
                Err(RangeError::NegativeEnd { end })
            } else {
                Ok(Some((start as u64, end as u64)))
            },
        }),
{
    match range {
        None => Ok(None),
        Some((start, end)) => {
            if start < 0 {
                Err(RangeError::NegativeStart { start })
            } else if end < 0 {
                Err(RangeError::NegativeEnd { end })
            } else {
                Ok(Some((start as u64, end as u64)))
            }
        },
    }
}

/// From where on a newline is searched for the start of a split: from the byte before it, so
/// that a split that begins right behind a newline keeps its start.
pub fn start_probe(start: u64) -> (from: Option<u64>)
    ensures
        from == (if start != 0 {
            Some((start - 1) as u64)
        } else {
            None::<u64>
        }),
{
    if start != 0 {
        Some(start - 1)
    } else {
        None
    }
}

/// What comes after the start of a split is known.
#[derive(Debug, Clone, Copy, PartialEq, Eq, Structural)]
pub enum EndProbe {
    /// The split reads nothing.
    Terminate,
    /// The newline at the end is searched from here on.
    From { position: u64 },
    /// The split ends with the file.
    AtFileEnd,
}

/// What comes after the start of a split is known.
pub fn end_probe(start: u64, start_delta: u64, end: u64, file_size: u64) -> (probe: EndProbe)
    requires
        start + start_delta <= u64::MAX,
        end > 0 || end == file_size,
    ensures
        probe == (if start + start_delta > end {
            EndProbe::Terminate
        } else if end != file_size {
            EndProbe::From { position: (end - 1) as u64 }
        } else {
            EndProbe::AtFileEnd
        }),
{
    if start + start_delta > end {
        EndProbe::Terminate
    } else if end != file_size {
        EndProbe::From { position: end - 1 }
    } else {
        EndProbe::AtFileEnd
    }
}

/// What a split reads, given how far its start and its end move.
pub open spec fn range_between(start: int, start_delta: int, end: int, end_delta: int) -> RangeCalculation {
    if start + start_delta > end || start + start_delta >= end + end_delta {
        RangeCalculation::TerminateEarly
    } else {
        RangeCalculation::Range(Some(((start + start_delta) as u64, (end + end_delta) as u64)))
    }
}

/// What a split reads, given how far its start and its end move.
pub fn bounded_range(start: u64, start_delta: u64, end: u64, end_delta: u64) -> (range:
    RangeCalculation)
    requires
        start + start_delta <= u64::MAX,
        end + end_delta <= u64::MAX,
    ensures
        range == range_between(start as int, start_delta as int, end as int, end_delta as int),
{
    let from: u64 = start + start_delta;
    let to: u64 = end + end_delta;
    if from > end || from >= to {
        RangeCalculation::TerminateEarly
    } else {
        RangeCalculation::Range(Some((from, to)))
    }
}

/// How far the start of a split of a file moves.
pub open spec fn start_shift(data: Seq<u8>, start: int, newline: u8) -> int {
    if start != 0 {
        newline_distance(data, start - 1, data.len() as int, newline)
    } else {
        0
    }
}

/// How far the end of a split of a file moves.
pub open spec fn end_shift(data: Seq<u8>, end: int, newline: u8) -> int {
    if end != data.len() {
        newline_distance(data, end - 1, data.len() as int, newline)
    } else {
        0
    }
}

/// What a split of a file reads.
pub open spec fn range_of(data: Seq<u8>, start: int, end: int, newline: u8) -> RangeCalculation {
    range_between(start, start_shift(data, start, newline), end, end_shift(data, end, newline))
}

/// A split ends where the next one begins: no byte between them is lost or read twice.
pub proof fn law_splits_meet(data: Seq<u8>, border: int, newline: u8)
    requires
        0 < border < data.len(),
    ensures
        border + end_shift(data, border, newline) == border + start_shift(data, border, newline),
{
}

/// A split that does not begin with the file begins right behind a newline, and all bytes
/// between its former start and that newline belong to the split before; or there is no newline
/// left, and it reads nothing.
pub proof fn law_ranges_begin_behind_newlines(data: Seq<u8>, start: int, end: int, newline: u8)
    requires
        0 < start <= end <= data.len(),
        data.len() < u64::MAX,
    ensures
        match range_of(data, start, end, newline) {
            RangeCalculation::Range(Some((from, _))) => start <= from <= data.len() && data[from
                - 1] == newline && forall|i: int|
                start - 1 <= i < from - 1 ==> data[i] != newline,
            RangeCalculation::Range(None) => false,
            RangeCalculation::TerminateEarly => true,
        },
{
    let tail = data.subrange(start - 1, data.len() as int);
    lemma_first_byte(tail, newline);
    match first_byte(tail, newline) {
        Some(at) => {
            assert(tail[at] == data[start - 1 + at]);
            assert forall|i: int| start - 1 <= i < start + at - 1 implies data[i] != newline by {
                assert(tail[i - (start - 1)] == data[i]);
            }
        },
        None => {},
    }
}

/// A split that begins with a record keeps its start: where the byte before it is a newline,
/// nothing moves.
pub proof fn law_record_starts_stay(data: Seq<u8>, start: int, newline: u8)
    requires
        0 < start <= data.len(),
        data[start - 1] == newline,
    ensures
        start_shift(data, start, newline) == 0,
{
    let tail = data.subrange(start - 1, data.len() as int);
    assert(tail[0] == data[start - 1]);
}

/// The first position of a byte holds it, and no one before it does; without one, there is no
/// such byte.
pub proof fn law_first_bytes(bytes: Seq<u8>, byte: u8)
    ensures
        match first_byte(bytes, byte) {
            Some(at) => 0 <= at < bytes.len() && bytes[at] == byte && forall|i: int|
                0 <= i < at ==> #[trigger] bytes[i] != byte,
            None => forall|i: int| 0 <= i < bytes.len() ==> #[trigger] bytes[i] != byte,
        },
{
    lemma_first_byte(bytes, byte);
}

/// A range ends with the record that holds the last byte of the split: behind the first newline
/// from that byte on. Where there is none it ends beyond the file, and at the end of the file
/// where the split does.
pub proof fn law_ranges_end_with_records(data: Seq<u8>, start: int, end: int, newline: u8)
    requires
        0 <= start <= end <= data.len(),
        end > 0,
        data.len() < u64::MAX,
    ensures
        match range_of(data, start, end, newline) {
            RangeCalculation::Range(Some((from, to))) => {
                &&& start <= from < to <= data.len() + 1
                &&& from <= end <= to
                &&& end == data.len() ==> to == data.len()
                &&& forall|i: int| end - 1 <= i < to - 1 ==> #[trigger] data[i] != newline
                &&& end < data.len() && to <= data.len() ==> data[to - 1] == newline
            },
            RangeCalculation::Range(None) => false,
            RangeCalculation::TerminateEarly => true,
        },
        range_of(data, 0, data.len() as int, newline) == RangeCalculation::Range(
            Some((0u64, data.len() as u64)),
        ) || data.len() == 0,
{
    let rest = data.subrange(end - 1, data.len() as int);
    lemma_first_byte(rest, newline);
    if start > 0 {
        lemma_first_byte(data.subrange(start - 1, data.len() as int), newline);
    }
    match range_of(data, start, end, newline) {
        RangeCalculation::Range(Some((from, to))) => {
            if end != data.len() {
                assert forall|i: int| end - 1 <= i < to - 1 implies #[trigger] data[i]
                    != newline by {
                    assert(rest[i - (end - 1)] == data[i]);
                }
                if to <= data.len() {
                    assert(first_byte(rest, newline) is Some);
                    let at = first_byte(rest, newline)->0;
                    assert(rest[at] == data[to - 1]);
                }
            }
        },
        _ => {},
    }
}

/// A split reads nothing exactly where no record begins in it: where the record that its first
/// byte falls into goes on to the end of the split, or where nothing is left of it.
pub proof fn law_empty_ranges(start: int, start_delta: int, end: int, end_delta: int)
    requires
        0 <= start,
        0 <= start_delta,
        0 <= end,
        0 <= end_delta,
        start + start_delta <= u64::MAX,
        end + end_delta <= u64::MAX,
    ensures
        range_between(start, start_delta, end, end_delta) is TerminateEarly <==> start + start_delta
            > end || start + start_delta == end + end_delta,
        !(range_between(start, start_delta, end, end_delta) is TerminateEarly) ==> range_between(
            start,
            start_delta,
            end,
            end_delta,
        ) == RangeCalculation::Range(
            Some(((start + start_delta) as u64, (end + end_delta) as u64)),
        ),
{
}

/// The bounds of a split are what is asked for, where neither is negative.
pub proof fn law_bounds_are_not_negative(
    start: i64,
    end: i64,
    bounds: Result<Option<(u64, u64)>, RangeError>,
)
    requires
        call_ensures(range_bounds, (Some((start, end)),), bounds),
    ensures
        bounds is Ok <==> start >= 0 && end >= 0,
        bounds matches Ok(found) ==> (found matches Some((from, to)) && from == start && to == end),
        start < 0 ==> bounds == Err::<Option<(u64, u64)>, _>(RangeError::NegativeStart { start }),
        start >= 0 && end < 0 ==> bounds == Err::<Option<(u64, u64)>, _>(
            RangeError::NegativeEnd { end },
        ),
{
}

/// A split that starts with the file needs no search for its start, and one that ends with the
/// file none for its end. The others are searched from the byte before the border on, so that a
/// newline right before it counts. A split whose first record starts behind its end reads
/// nothing.
pub proof fn law_borders_are_searched(
    start: u64,
    start_delta: u64,
    end: u64,
    file_size: u64,
    from: Option<u64>,
    probe: EndProbe,
)
    requires
        start + start_delta <= u64::MAX,
        end > 0 || end == file_size,
        call_ensures(start_probe, (start,), from),
        call_ensures(end_probe, (start, start_delta, end, file_size), probe),
    ensures
        from is None <==> start == 0,
        from matches Some(position) ==> position + 1 == start,
        probe is Terminate <==> start + start_delta > end,
        probe is AtFileEnd <==> start + start_delta <= end && end == file_size,
        probe matches EndProbe::From { position } ==> position + 1 == end,
{
}

/// The search goes on with a request only behind a response that was full, and only before the
/// end: what was searched has reached neither the end nor less than what was asked for.
pub proof fn law_short_responses_end_the_search(probe: Probe)
    ensures
        probe.reached() >= probe.end ==> !probe.requests(),
        probe.reached() < probe.fetch_end ==> !probe.requests(),
        probe.fetch_end <= probe.reached() < probe.end ==> probe.requests(),
        probe.reached() == probe.start + probe.scanned + probe.consumed,
{
}

/// A search that has not begun asks for something exactly where there is something to search.
pub proof fn law_searches_begin(start: u64, end: u64, newline: u8, probe: Probe)
    requires
        call_ensures(Probe::new, (start, end, newline), probe),
    ensures
        probe.requests() <==> start < end,
        probe.newline == newline,
{
}

} // verus!
