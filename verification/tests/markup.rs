use collaborate::source::tokenize;
use collaborate::token::TokenKind;

const PIECES: [&str; 40] = [
    "<", ">", "/", "a", "!", "-", "[", "]", "?", "=", "\"", " ", "&", ";", "<!DOCTYPE", "<![CDATA[",
    "]]>", "<!--", "-->", "<?xml", "?>", "x:", "xmlns", "'", "<a", "</a>", "<a>", "&amp;", "&#",
    "&#x", "version=\"1.0\"", "encoding=\"utf-8\"", "xml:", "xmlns:x=\"u\"", "\n", "DOCTYPE", ":",
    "0", "\u{e9}", "standalone=\"yes\"",
];

/// Whether only the last of `tokens` ends the document or is malformed markup.
fn ends_once(tokens: &[collaborate::token::Token]) -> bool {
    let last = |kind: &TokenKind| {
        matches!(kind, TokenKind::DocumentEnd | TokenKind::Malformed { .. })
    };
    match tokens.split_last() {
        Some((end, before)) => last(&end.kind) && before.iter().all(|t| !last(&t.kind)),
        None => false,
    }
}

/// Reads `rounds` texts of fewer than `most` pieces each, picked by a fixed
/// sequence of numbers that begins with `seed`.
fn read_many(seed: u64, rounds: usize, most: u64) {
    let mut state = seed;
    let mut step = move || {
        state = state.wrapping_mul(6364136223846793005).wrapping_add(1442695040888963407);
        state >> 33
    };
    for _ in 0..rounds {
        let n = step() % most;
        let mut text = String::new();
        for _ in 0..n {
            text.push_str(PIECES[(step() % 40) as usize]);
        }
        assert!(ends_once(&tokenize(text.as_bytes())), "{:?}", text);
    }
}

#[test]
fn short_markup_of_any_kind_ends_once() {
    read_many(1, 20000, 6);
}

#[test]
fn long_markup_of_any_kind_ends_once() {
    read_many(2, 5000, 40);
}

#[test]
fn bytes_of_any_kind_end_once() {
    let mut state: u64 = 99;
    let mut step = move || {
        state = state.wrapping_mul(6364136223846793005).wrapping_add(1442695040888963407);
        state >> 33
    };
    for _ in 0..20000 {
        let mut bytes = Vec::new();
        for _ in 0..step() % 12 {
            let pick = step() % 8;
            let any = (step() % 256) as u8;
            bytes.push(match pick {
                0 => b'<',
                1 => b'>',
                2 => b'a',
                3 => b'/',
                4 => b'&',
                _ => any,
            });
        }
        assert!(ends_once(&tokenize(&bytes)), "{:?}", bytes);
    }
}
