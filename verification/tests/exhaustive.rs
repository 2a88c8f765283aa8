use httpencode::{find_unquoted_crlf, CheckedValue, HttpWriteable, Sink};

const ALPHABET: [u8; 7] = [b'a', b'\r', b'\n', b' ', b'\t', b'"', b'\\'];

fn inputs(max_len: usize) -> Vec<Vec<u8>> {
    let mut all = vec![vec![]];
    let mut last = vec![vec![]];
    for _ in 0..max_len {
        let mut next = Vec::new();
        for input in &last {
            for b in ALPHABET {
                let mut longer = input.clone();
                longer.push(b);
                next.push(longer);
            }
        }
        all.extend(next.iter().cloned());
        last = next;
    }
    all
}

fn unquoted_line_breaks(input: &[u8]) -> Vec<usize> {
    let mut found = Vec::new();
    let mut quoted = false;
    let mut i = 0;
    while i < input.len() {
        match input[i] {
            b'\\' => i += 2,
            b'"' => {
                quoted = !quoted;
                i += 1;
            }
            b'\r' if !quoted && input.get(i + 1) == Some(&b'\n') => {
                found.push(i);
                i += 2;
            }
            _ => i += 1,
        }
    }
    found
}

fn folded(input: &[u8]) -> Vec<u8> {
    let breaks = unquoted_line_breaks(input);
    let mut out = Vec::new();
    for (i, b) in input.iter().enumerate() {
        out.push(*b);
        if i >= 1 && breaks.contains(&(i - 1)) {
            let blank = matches!(input.get(i + 1), Some(b' ') | Some(b'\t'));
            if !blank {
                out.push(b'\t');
            }
        }
    }
    out
}

fn holds_folds_only(input: &[u8]) -> bool {
    (0..input.len()).all(|i| {
        !(input[i] == b'\r' && input.get(i + 1) == Some(&b'\n'))
            || matches!(input.get(i + 2), Some(b' ') | Some(b'\t'))
    })
}

fn encode(input: &[u8]) -> Vec<u8> {
    let mut sink = Sink::new(vec![]);
    input.write_to(&mut sink).unwrap();
    sink.into_inner()
}

#[test]
fn scanner_finds_what_a_plain_scan_finds() {
    for input in inputs(6) {
        let mut it = find_unquoted_crlf(&input);
        let mut found = Vec::new();
        while let Some(pos) = it.next() {
            found.push(pos);
        }
        assert_eq!(found, unquoted_line_breaks(&input), "{:?}", input);
    }
}

#[test]
fn encoder_writes_what_a_plain_scan_writes() {
    for input in inputs(6) {
        assert_eq!(encode(&input), folded(&input), "{:?}", input);
    }
}

#[test]
fn encoder_leaves_what_it_wrote() {
    for input in inputs(6) {
        let once = encode(&input);
        assert_eq!(encode(&once), once, "{:?}", input);
    }
}

#[test]
fn encoder_leaves_values_of_folds_only() {
    for input in inputs(6) {
        if holds_folds_only(&input) {
            assert_eq!(encode(&input), input);
        }
    }
}

#[test]
fn encoder_writes_folds_only_without_quotes_and_backslashes() {
    for input in inputs(6) {
        if !input.contains(&b'"') && !input.contains(&b'\\') {
            assert!(holds_folds_only(&encode(&input)), "{:?}", input);
        }
    }
}

#[test]
fn check_finds_what_a_plain_scan_finds() {
    for input in inputs(6) {
        let expected = holds_folds_only(&input);
        assert_eq!(CheckedValue::check_valid_const(&input), expected, "{:?}", input);
        assert_eq!(CheckedValue::try_new(&input).is_ok(), expected, "{:?}", input);
    }
}

#[test]
fn every_limit_gives_a_start_of_what_is_written() {
    for input in inputs(4) {
        let whole = encode(&input);
        for limit in 0..=whole.len() + 1 {
            let mut sink = Sink::with_limit(vec![], limit);
            let res = input.as_slice().write_to(&mut sink);
            assert_eq!(res.is_ok(), whole.len() <= limit, "{:?}", input);
            let written = sink.into_inner();
            assert_eq!(&whole[..written.len()], &written[..], "{:?}", input);
            if res.is_ok() {
                assert_eq!(written, whole);
            } else {
                assert!(written.len() < whole.len());
            }
        }
    }
}
