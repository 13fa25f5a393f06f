use sail::data_source::range::{
    bounded_range, end_probe, range_bounds, start_probe, EndProbe, Probe, RangeCalculation,
    RangeError, PROBE_CHUNK_SIZE,
};

/// The first newline in a part of a file, with responses in pieces.
fn find_first_newline(data: &[u8], start: u64, end: u64, newline: u8) -> u64 {
    let mut probe = Probe::new(start, end, newline);
    loop {
        match probe.next_request() {
            Err(scanned) => return scanned,
            Ok((from, to)) => {
                assert!(to - from <= PROBE_CHUNK_SIZE);
                let response = &data[from as usize..to as usize];
                for chunk in response.chunks(300_000) {
                    if let Some(distance) = probe.take_chunk(chunk) {
                        return distance;
                    }
                }
            }
        }
    }
}

fn calculate_range(data: &[u8], range: Option<(i64, i64)>) -> RangeCalculation {
    let size = data.len() as u64;
    let (start, end) = match range_bounds(range).unwrap() {
        None => return RangeCalculation::Range(None),
        Some(bounds) => bounds,
    };
    let start_delta = match start_probe(start) {
        Some(from) => find_first_newline(data, from, size, b'\n'),
        None => 0,
    };
    let end_delta = match end_probe(start, start_delta, end, size) {
        EndProbe::Terminate => return RangeCalculation::TerminateEarly,
        EndProbe::From { position } => find_first_newline(data, position, size, b'\n'),
        EndProbe::AtFileEnd => 0,
    };
    bounded_range(start, start_delta, end, end_delta)
}

/// What a split reads, written down without requests.
fn expected_range(data: &[u8], start: usize, end: usize) -> RangeCalculation {
    let distance = |from: usize| {
        if from >= data.len() {
            return 0;
        }
        data[from..]
            .iter()
            .position(|&byte| byte == b'\n')
            .unwrap_or(data.len() - from)
    };
    let from = if start == 0 { 0 } else { start + distance(start - 1) };
    if from > end {
        return RangeCalculation::TerminateEarly;
    }
    let to = if end == data.len() { end } else { end + distance(end - 1) };
    if from >= to {
        RangeCalculation::TerminateEarly
    } else {
        RangeCalculation::Range(Some((from as u64, to as u64)))
    }
}

fn check_equivalence(data: &[u8], ranges: &[(i64, i64)]) {
    for (start, end) in ranges {
        assert_eq!(
            calculate_range(data, Some((*start, *end))),
            expected_range(data, *start as usize, *end as usize),
            "range {start}..{end}"
        );
    }
    // Whole-file reads take no range and issue no probe.
    assert_eq!(calculate_range(data, None), RangeCalculation::Range(None));
}

#[test]
fn bounded_probes_match_upstream_on_short_lines() {
    let data = b"aaa\nbb\nc\ndddd\n".to_vec();
    let size = data.len() as i64;
    // Split points at every byte offset, plus degenerate ranges.
    let mut ranges = vec![(0, 1), (4, 4)];
    for start in 0..size {
        for end in [start, start + 1, size] {
            // Empty ranges at the start are never emitted.
            if end > 0 {
                ranges.push((start, end));
            }
        }
    }
    check_equivalence(&data, &ranges);
}

#[test]
fn bounded_probes_match_upstream_across_long_lines() {
    // A 3MB line forces multi-chunk probing (chunk = 1MB); no trailing newline.
    let mut data = b"head\n".to_vec();
    data.extend(vec![b'x'; 3 * 1024 * 1024]);
    data.extend(b"\ntail");
    let size = data.len() as i64;
    let chunk = PROBE_CHUNK_SIZE as i64;
    let ranges = vec![
        (0, size),
        (1, size),
        (5, size),
        (5, 5 + chunk),
        (5, 5 + 2 * chunk),
        (chunk, 2 * chunk),
        (2 * chunk, size),
        (size - 4, size),
        (size, size),
        (10, 5),
    ];
    check_equivalence(&data, &ranges);
}

#[test]
fn splits_cover_a_file_once() {
    let data = b"one\ntwo\n\nthree\nfour";
    for size in 1..data.len() {
        let mut read: Vec<u8> = vec![];
        let mut start = 0;
        while start < data.len() {
            let end = (start + size).min(data.len());
            match calculate_range(data, Some((start as i64, end as i64))) {
                RangeCalculation::Range(Some((from, to))) => {
                    let to = (to as usize).min(data.len());
                    read.extend(&data[from as usize..to]);
                }
                RangeCalculation::TerminateEarly => {}
                other => panic!("unexpected range: {other:?}"),
            }
            start = end;
        }
        assert_eq!(read, data, "splits of {size} bytes");
    }
}

#[test]
fn short_responses_end_the_search() {
    let mut probe = Probe::new(0, 10, b'\n');
    assert_eq!(probe.next_request(), Ok((0, 10)));
    assert_eq!(probe.take_chunk(b"abc"), None);
    assert_eq!(probe.next_request(), Err(3));
}

#[test]
fn negative_bounds_are_refused() {
    let error = range_bounds(Some((-1, 5))).unwrap_err();
    assert_eq!(error, RangeError::NegativeStart { start: -1 });
    assert_eq!(error.message(), "Expect start range to fit in u64, got -1");
    let error = range_bounds(Some((1, -5))).unwrap_err();
    assert_eq!(error.message(), "Expect end range to fit in u64, got -5");
}
