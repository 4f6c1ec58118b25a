//! Numbers as they are written in a document: unsigned integers, decimal
//! numbers, and lists of either separated by white space. All of it works on
//! the bytes of the text.

use crate::error::{FloatErrorKind, IntErrorKind};
use vstd::prelude::*;

verus! {

/// Whether `b` is one of the ten digits.
pub open spec fn is_digit(b: u8) -> bool {
    48 <= b <= 57
}

/// Whether `b` is white space: a space, a tab, a line feed or a carriage return.
pub open spec fn is_space(b: u8) -> bool {
    b == 32 || b == 9 || b == 10 || b == 13
}

/// The number that `digits` write in decimal, where all of them are digits.
pub open spec fn digits_value(digits: Seq<u8>) -> nat
    decreases digits.len(),
{
    if digits.len() == 0 {
        0
    } else {
        digits_value(digits.drop_last()) * 10 + (digits.last() - 48) as nat
    }
}

/// Reads `digits` from left to right and stops at the first byte that is not a
/// digit, or at the first digit with which the number passes `limit`.
pub open spec fn scan_number(digits: Seq<u8>, limit: nat) -> Result<nat, IntErrorKind>
    decreases digits.len(),
{
    if digits.len() == 0 {
        Ok(0)
    } else {
        match scan_number(digits.drop_last(), limit) {
            Err(e) => Err(e),
            Ok(v) => if !is_digit(digits.last()) {
                Err(IntErrorKind::InvalidDigit)
            } else if v * 10 + (digits.last() - 48) > limit {
                Err(IntErrorKind::PosOverflow)
            } else {
                Ok((v * 10 + (digits.last() - 48)) as nat)
            },
        }
    }
}

/// The unsigned integer that `text` writes: digits, with at most one `+` in
/// front of them.
pub open spec fn parse_unsigned(text: Seq<u8>) -> Result<usize, IntErrorKind> {
    if text.len() == 0 {
        Err(IntErrorKind::Empty)
    } else if text.len() == 1 && (text[0] == 43 || text[0] == 45) {
        Err(IntErrorKind::InvalidDigit)
    } else {
        let digits = if text[0] == 43 {
            text.skip(1)
        } else {
            text
        };
        match scan_number(digits, usize::MAX as nat) {
            Err(e) => Err(e),
            Ok(v) => Ok(v as usize),
        }
    }
}

/// Where all bytes are digits and the number fits, scanning gives the number
/// that the digits write.
pub proof fn lemma_scan_number_value(digits: Seq<u8>, limit: nat)
    requires
        forall|i: int| 0 <= i < digits.len() ==> is_digit(digits[i]),
        digits_value(digits) <= limit,
    ensures
        scan_number(digits, limit) == Ok::<nat, IntErrorKind>(digits_value(digits)),
    decreases digits.len(),
{
    if digits.len() > 0 {
        let front = digits.drop_last();
        assert(forall|i: int| 0 <= i < front.len() ==> front[i] == digits[i]);
        lemma_scan_number_value(front, limit);
    }
}

/// The unsigned integer that the bytes `text[start..end]` write.
pub fn parse_unsigned_in(text: &[u8], start: usize, end: usize) -> (r: Result<usize, IntErrorKind>)
    requires
        start <= end <= text@.len(),
    ensures
        r == parse_unsigned(text@.subrange(start as int, end as int)),
{
    let ghost whole = text@.subrange(start as int, end as int);
    if start == end {
        return Err(IntErrorKind::Empty);
    }
    let first = text[start];
    assert(whole[0] == first);
    if end - start == 1 && (first == 43 || first == 45) {
        return Err(IntErrorKind::InvalidDigit);
    }
    let from: usize = if first == 43 {
        start + 1
    } else {
        start
    };
    let ghost digits = text@.subrange(from as int, end as int);
    assert(digits =~= if whole[0] == 43 {
        whole.skip(1)
    } else {
        whole
    });
    let mut value: usize = 0;
    let mut i: usize = from;
    assert(digits.take(0) =~= Seq::<u8>::empty());
    while i < end
        invariant
            from <= i <= end <= text@.len(),
            digits == text@.subrange(from as int, end as int),
            whole == text@.subrange(start as int, end as int),
            parse_unsigned(whole) == match scan_number(digits, usize::MAX as nat) {
                Err(e) => Err::<usize, IntErrorKind>(e),
                Ok(v) => Ok(v as usize),
            },
            scan_number(digits.take(i - from), usize::MAX as nat) == Ok::<nat, IntErrorKind>(
                value as nat,
            ),
        decreases end - i,
    {
        let b = text[i];
        let ghost next = digits.take(i - from + 1);
        assert(next.drop_last() =~= digits.take(i - from));
        assert(next.last() == b);
        proof {
            lemma_scan_error_stays(digits, i - from + 1, usize::MAX as nat);
        }
        if b < 48 || b > 57 {
            return Err(IntErrorKind::InvalidDigit);
        }
        let d: usize = (b - 48) as usize;
        let scaled = match value.checked_mul(10) {
            Some(s) => s,
            None => {
                return Err(IntErrorKind::PosOverflow);
            },
        };
        value = match scaled.checked_add(d) {
            Some(s) => s,
            None => {
                return Err(IntErrorKind::PosOverflow);
            },
        };
        i += 1;
    }
    assert(digits.take(end - from) =~= digits);
    Ok(value)
}

/// Once scanning has failed on a prefix, it fails in the same way on the whole.
pub proof fn lemma_scan_error_stays(digits: Seq<u8>, n: int, limit: nat)
    requires
        0 <= n <= digits.len(),
    ensures
        scan_number(digits.take(n), limit) is Err ==> scan_number(digits, limit) == scan_number(
            digits.take(n),
            limit,
        ),
    decreases digits.len() - n,
{
    if n < digits.len() {
        lemma_scan_error_stays(digits, n + 1, limit);
        assert(digits.take(n + 1).drop_last() =~= digits.take(n));
    } else {
        assert(digits.take(n) =~= digits);
    }
}

/// The first place at or after `from` that holds no white space.
pub open spec fn skip_spaces(text: Seq<u8>, from: int) -> int
    decreases text.len() - from,
{
    if 0 <= from < text.len() && is_space(text[from]) {
        skip_spaces(text, from + 1)
    } else {
        from
    }
}

/// The first place at or after `from` that holds white space, or the end.
pub open spec fn word_end(text: Seq<u8>, from: int) -> int
    decreases text.len() - from,
{
    if 0 <= from < text.len() && !is_space(text[from]) {
        word_end(text, from + 1)
    } else {
        from
    }
}

/// After the white space that begins at `from` comes the end of the text or a
/// byte that is no white space.
pub proof fn lemma_skip_spaces(text: Seq<u8>, from: int)
    requires
        0 <= from <= text.len(),
    ensures
        from <= skip_spaces(text, from) <= text.len(),
        skip_spaces(text, from) < text.len() ==> !is_space(text[skip_spaces(text, from)]),
    decreases text.len() - from,
{
    if from < text.len() && is_space(text[from]) {
        lemma_skip_spaces(text, from + 1);
    }
}

/// A word that begins at `from` ends within the text, and after `from` where
/// `from` holds no white space.
pub proof fn lemma_word_end(text: Seq<u8>, from: int)
    requires
        0 <= from <= text.len(),
    ensures
        from <= word_end(text, from) <= text.len(),
        from < text.len() && !is_space(text[from]) ==> from < word_end(text, from),
    decreases text.len() - from,
{
    if from < text.len() && !is_space(text[from]) {
        lemma_word_end(text, from + 1);
    }
}

/// The words of `text` from `from` on, each as the places where it begins and
/// ends: a word is a run of bytes without white space that is as long as it
/// can be.
pub open spec fn words(text: Seq<u8>, from: int) -> Seq<(int, int)>
    decreases text.len() - from,
{
    let start = skip_spaces(text, from);
    if 0 <= from <= start < text.len() && start < word_end(text, start) <= text.len() {
        seq![(start, word_end(text, start))] + words(text, word_end(text, start))
    } else {
        Seq::empty()
    }
}

/// The unsigned integers that the words of `text` write, in order, or what is
/// wrong with the first word that writes none.
pub open spec fn parse_unsigned_list(text: Seq<u8>, from: int) -> Result<Seq<usize>, IntErrorKind>
    decreases text.len() - from,
{
    let start = skip_spaces(text, from);
    let end = word_end(text, start);
    if 0 <= from <= start < end <= text.len() {
        match parse_unsigned(text.subrange(start, end)) {
            Err(e) => Err(e),
            Ok(v) => match parse_unsigned_list(text, end) {
                Err(e) => Err(e),
                Ok(rest) => Ok(seq![v] + rest),
            },
        }
    } else {
        Ok(Seq::empty())
    }
}

/// With `done` read already and the rest of the text still to read.
pub open spec fn continue_unsigned_list(done: Seq<usize>, text: Seq<u8>, from: int) -> Result<
    Seq<usize>,
    IntErrorKind,
> {
    match parse_unsigned_list(text, from) {
        Err(e) => Err(e),
        Ok(rest) => Ok(done + rest),
    }
}

/// The first place at or after `from` that holds no white space.
pub fn find_word(text: &[u8], from: usize) -> (r: usize)
    requires
        from <= text@.len(),
    ensures
        r == skip_spaces(text@, from as int),
        from <= r <= text@.len(),
{
    let mut i = from;
    while i < text.len() && (text[i] == 32 || text[i] == 9 || text[i] == 10 || text[i] == 13)
        invariant
            from <= i <= text@.len(),
            skip_spaces(text@, from as int) == skip_spaces(text@, i as int),
        decreases text@.len() - i,
    {
        i += 1;
    }
    i
}

/// The first place at or after `from` that holds white space, or the end.
pub fn find_word_end(text: &[u8], from: usize) -> (r: usize)
    requires
        from <= text@.len(),
    ensures
        r == word_end(text@, from as int),
        from <= r <= text@.len(),
{
    let mut i = from;
    while i < text.len() && !(text[i] == 32 || text[i] == 9 || text[i] == 10 || text[i] == 13)
        invariant
            from <= i <= text@.len(),
            word_end(text@, from as int) == word_end(text@, i as int),
        decreases text@.len() - i,
    {
        i += 1;
    }
    i
}

/// The unsigned integers that the words of `text` write.
pub fn parse_unsigned_words(text: &[u8]) -> (r: Result<Vec<usize>, IntErrorKind>)
    ensures
        match parse_unsigned_list(text@, 0) {
            Ok(list) => r is Ok && r->Ok_0@ == list,
            Err(e) => r == Err::<Vec<usize>, IntErrorKind>(e),
        },
{
    let mut out: Vec<usize> = Vec::new();
    let mut i: usize = 0;
    assert(out@ + parse_unsigned_list(text@, 0)->Ok_0 =~= parse_unsigned_list(text@, 0)->Ok_0);
    loop
        invariant
            i <= text@.len(),
            parse_unsigned_list(text@, 0) == continue_unsigned_list(out@, text@, i as int),
        decreases text@.len() - i,
    {
        let start = find_word(text, i);
        if start >= text.len() {
            assert(out@ + Seq::<usize>::empty() =~= out@);
            return Ok(out);
        }
        let end = find_word_end(text, start);
        proof {
            lemma_skip_spaces(text@, i as int);
            lemma_word_end(text@, start as int);
        }
        let ghost before = out@;
        match parse_unsigned_in(text, start, end) {
            Err(e) => {
                return Err(e);
            },
            Ok(v) => {
                out.push(v);
            },
        }
        proof {
            let rest = parse_unsigned_list(text@, end as int);
            if rest is Ok {
                assert(before + (seq![out@.last()] + rest->Ok_0) =~= out@ + rest->Ok_0);
            }
        }
        i = end;
    }
}

/// The place after the digits that begin at `from`.
pub open spec fn digits_end(text: Seq<u8>, from: int) -> int
    decreases text.len() - from,
{
    if 0 <= from < text.len() && is_digit(text[from]) {
        digits_end(text, from + 1)
    } else {
        from
    }
}

/// The digits that begin at `from` end within the text.
pub proof fn lemma_digits_end(text: Seq<u8>, from: int)
    requires
        0 <= from <= text.len(),
    ensures
        from <= digits_end(text, from) <= text.len(),
    decreases text.len() - from,
{
    if from < text.len() && is_digit(text[from]) {
        lemma_digits_end(text, from + 1);
    }
}

/// Whether `b` is a plus or a minus sign.
pub open spec fn is_sign(b: u8) -> bool {
    b == 43 || b == 45
}

/// `b` as a small letter, where it is a capital letter.
pub open spec fn lower(b: u8) -> u8 {
    if 65 <= b <= 90 {
        (b + 32) as u8
    } else {
        b
    }
}

/// Whether `text` is `word`, small and capital letters taken as the same.
pub open spec fn is_word(text: Seq<u8>, word: Seq<u8>) -> bool {
    text.len() == word.len() && forall|i: int| 0 <= i < text.len() ==> lower(text[i]) == word[i]
}

/// Whether `text`, which follows the sign, names a number that has no digits:
/// `inf`, `infinity` or `nan`.
pub open spec fn is_special(text: Seq<u8>) -> bool {
    is_word(text, seq![105u8, 110, 102]) || is_word(
        text,
        seq![105u8, 110, 102, 105, 110, 105, 116, 121],
    ) || is_word(text, seq![110u8, 97, 110])
}

/// Whether `text`, which follows the sign, is digits with at most one point
/// among them and at least one digit, and after them, if anything, an `e`, an
/// optional sign and at least one digit.
pub open spec fn is_plain_number(text: Seq<u8>) -> bool {
    let whole = digits_end(text, 0);
    let point = whole < text.len() && text[whole] == 46;
    let mantissa = if point {
        digits_end(text, whole + 1)
    } else {
        whole
    };
    let digits = if point {
        mantissa - 1
    } else {
        mantissa
    };
    &&& digits > 0
    &&& mantissa == text.len() || {
        let signed = mantissa + 1 < text.len() && is_sign(text[mantissa + 1]);
        let from = if signed {
            mantissa + 2
        } else {
            mantissa + 1
        };
        &&& lower(text[mantissa]) == 101
        &&& from < digits_end(text, from)
        &&& digits_end(text, from) == text.len()
    }
}

/// Whether `text` writes a decimal number, and if not, why.
pub open spec fn check_decimal(text: Seq<u8>) -> Result<(), FloatErrorKind> {
    if text.len() == 0 {
        Err(FloatErrorKind::Empty)
    } else {
        let body = if is_sign(text[0]) {
            text.skip(1)
        } else {
            text
        };
        if is_special(body) || is_plain_number(body) {
            Ok(())
        } else {
            Err(FloatErrorKind::Invalid)
        }
    }
}

/// The place after the digits that begin at `from`, which is counted from
/// `base`.
fn find_digits_end(text: &[u8], base: usize, end: usize, from: usize) -> (r: usize)
    requires
        base <= from <= end <= text@.len(),
    ensures
        r - base == digits_end(text@.subrange(base as int, end as int), from - base),
        from <= r <= end,
{
    let ghost part = text@.subrange(base as int, end as int);
    let mut i = from;
    while i < end && 48 <= text[i] && text[i] <= 57
        invariant
            base <= from <= i <= end <= text@.len(),
            part == text@.subrange(base as int, end as int),
            digits_end(part, from - base) == digits_end(part, i - base),
        decreases end - i,
    {
        i += 1;
    }
    i
}

fn lower_byte(b: u8) -> (r: u8)
    ensures
        r == lower(b),
{
    if 65 <= b && b <= 90 {
        b + 32
    } else {
        b
    }
}

/// Whether `text[start..end]` is `word`, small and capital letters taken as the
/// same.
fn matches_word(text: &[u8], start: usize, end: usize, word: &[u8]) -> (r: bool)
    requires
        start <= end <= text@.len(),
    ensures
        r == is_word(text@.subrange(start as int, end as int), word@),
{
    let ghost part = text@.subrange(start as int, end as int);
    if end - start != word.len() {
        return false;
    }
    let mut i: usize = 0;
    while i < word.len()
        invariant
            start <= end <= text@.len(),
            end - start == word@.len(),
            i <= word@.len(),
            part == text@.subrange(start as int, end as int),
            forall|k: int| 0 <= k < i ==> lower(part[k]) == word@[k],
        decreases word@.len() - i,
    {
        if lower_byte(text[start + i]) != word[i] {
            assert(lower(part[i as int]) != word@[i as int]);
            return false;
        }
        i += 1;
    }
    true
}

/// Whether the bytes `text[start..end]` write a decimal number.
pub fn check_decimal_in(text: &[u8], start: usize, end: usize) -> (r: Result<(), FloatErrorKind>)
    requires
        start <= end <= text@.len(),
    ensures
        r == check_decimal(text@.subrange(start as int, end as int)),
{
    let ghost whole = text@.subrange(start as int, end as int);
    if start == end {
        return Err(FloatErrorKind::Empty);
    }
    let first = text[start];
    assert(whole[0] == first);
    let base: usize = if first == 43 || first == 45 {
        start + 1
    } else {
        start
    };
    let ghost body = text@.subrange(base as int, end as int);
    assert(body =~= if is_sign(whole[0]) {
        whole.skip(1)
    } else {
        whole
    });
    let inf: [u8; 3] = [105, 110, 102];
    let infinity: [u8; 8] = [105, 110, 102, 105, 110, 105, 116, 121];
    let nan: [u8; 3] = [110, 97, 110];
    assert(inf@ =~= seq![105u8, 110, 102]);
    assert(infinity@ =~= seq![105u8, 110, 102, 105, 110, 105, 116, 121]);
    assert(nan@ =~= seq![110u8, 97, 110]);
    if matches_word(text, base, end, inf.as_slice()) || matches_word(
        text,
        base,
        end,
        infinity.as_slice(),
    ) || matches_word(text, base, end, nan.as_slice()) {
        return Ok(());
    }
    assert(!is_special(body));
    let whole_end = find_digits_end(text, base, end, base);
    let point = whole_end < end && text[whole_end] == 46;
    let mantissa = if point {
        find_digits_end(text, base, end, whole_end + 1)
    } else {
        whole_end
    };
    let digits = if point {
        mantissa - base - 1
    } else {
        mantissa - base
    };
    if digits == 0 {
        return Err(FloatErrorKind::Invalid);
    }
    if mantissa == end {
        return Ok(());
    }
    if lower_byte(text[mantissa]) != 101 {
        return Err(FloatErrorKind::Invalid);
    }
    let signed = mantissa + 1 < end && (text[mantissa + 1] == 43 || text[mantissa + 1] == 45);
    let from = if signed {
        mantissa + 2
    } else {
        mantissa + 1
    };
    let last = find_digits_end(text, base, end, from);
    if from < last && last == end {
        Ok(())
    } else {
        Err(FloatErrorKind::Invalid)
    }
}

/// The words of `text`, each of which must write a decimal number, or what is
/// wrong with the first that writes none.
pub open spec fn parse_decimal_list(text: Seq<u8>, from: int) -> Result<
    Seq<(int, int)>,
    FloatErrorKind,
>
    decreases text.len() - from,
{
    let start = skip_spaces(text, from);
    let end = word_end(text, start);
    if 0 <= from <= start < end <= text.len() {
        match check_decimal(text.subrange(start, end)) {
            Err(e) => Err(e),
            Ok(_) => match parse_decimal_list(text, end) {
                Err(e) => Err(e),
                Ok(rest) => Ok(seq![(start, end)] + rest),
            },
        }
    } else {
        Ok(Seq::empty())
    }
}

/// A list of decimal numbers that is accepted is taken apart at its white
/// space: the places of the numbers are those of the words of the text.
pub proof fn lemma_decimal_list_words(text: Seq<u8>, from: int)
    requires
        0 <= from <= text.len(),
    ensures
        parse_decimal_list(text, from) matches Ok(spans) ==> spans == words(text, from),
    decreases text.len() - from,
{
    let start = skip_spaces(text, from);
    let end = word_end(text, start);
    lemma_skip_spaces(text, from);
    if start < text.len() {
        lemma_word_end(text, start);
        lemma_decimal_list_words(text, end);
    }
}

/// A list of unsigned integers that is accepted holds one integer for each
/// word of the text.
pub proof fn lemma_unsigned_list_words(text: Seq<u8>, from: int)
    requires
        0 <= from <= text.len(),
    ensures
        parse_unsigned_list(text, from) matches Ok(list) ==> list.len() == words(text, from).len()
            && forall|i: int|
            0 <= i < list.len() ==> parse_unsigned(
                text.subrange(words(text, from)[i].0, words(text, from)[i].1),
            ) == Ok::<usize, IntErrorKind>(#[trigger] list[i]),
    decreases text.len() - from,
{
    let start = skip_spaces(text, from);
    let end = word_end(text, start);
    lemma_skip_spaces(text, from);
    if start < text.len() {
        lemma_word_end(text, start);
        lemma_unsigned_list_words(text, end);
        if parse_unsigned_list(text, from) is Ok {
            let list = parse_unsigned_list(text, from)->Ok_0;
            let rest = parse_unsigned_list(text, end)->Ok_0;
            let all = words(text, from);
            let later = words(text, end);
            assert forall|i: int| 0 <= i < list.len() implies parse_unsigned(
                text.subrange(all[i].0, all[i].1),
            ) == Ok::<usize, IntErrorKind>(#[trigger] list[i]) by {
                if i > 0 {
                    assert(list[i] == rest[i - 1]);
                    assert(all[i] == later[i - 1]);
                }
            }
        }
    }
}

/// With `done` read already and the rest of the text still to read.
pub open spec fn continue_decimal_list(done: Seq<(int, int)>, text: Seq<u8>, from: int) -> Result<
    Seq<(int, int)>,
    FloatErrorKind,
> {
    match parse_decimal_list(text, from) {
        Err(e) => Err(e),
        Ok(rest) => Ok(done + rest),
    }
}

/// The places of a list of words as mathematical integers.
pub open spec fn spans_view(spans: Seq<(usize, usize)>) -> Seq<(int, int)> {
    Seq::new(spans.len(), |i: int| (spans[i].0 as int, spans[i].1 as int))
}

/// The places of the words of `text`, each of which must write a decimal
/// number.
pub fn parse_decimal_words(text: &[u8]) -> (r: Result<Vec<(usize, usize)>, FloatErrorKind>)
    ensures
        match parse_decimal_list(text@, 0) {
            Ok(list) => r is Ok && spans_view(r->Ok_0@) == list,
            Err(e) => r == Err::<Vec<(usize, usize)>, FloatErrorKind>(e),
        },
{
    let mut out: Vec<(usize, usize)> = Vec::new();
    let mut i: usize = 0;
    assert(spans_view(out@) + parse_decimal_list(text@, 0)->Ok_0 =~= parse_decimal_list(
        text@,
        0,
    )->Ok_0);
    loop
        invariant
            i <= text@.len(),
            parse_decimal_list(text@, 0) == continue_decimal_list(
                spans_view(out@),
                text@,
                i as int,
            ),
        decreases text@.len() - i,
    {
        let start = find_word(text, i);
        if start >= text.len() {
            assert(spans_view(out@) + Seq::<(int, int)>::empty() =~= spans_view(out@));
            return Ok(out);
        }
        let end = find_word_end(text, start);
        proof {
            lemma_skip_spaces(text@, i as int);
            lemma_word_end(text@, start as int);
        }
        let ghost before = spans_view(out@);
        match check_decimal_in(text, start, end) {
            Err(e) => {
                return Err(e);
            },
            Ok(_) => {
                out.push((start, end));
            },
        }
        proof {
            let rest = parse_decimal_list(text@, end as int);
            assert(spans_view(out@) =~= before.push((start as int, end as int)));
            if rest is Ok {
                assert(before + (seq![(start as int, end as int)] + rest->Ok_0) =~= spans_view(
                    out@,
                ) + rest->Ok_0);
            }
        }
        i = end;
    }
}

} // verus!
