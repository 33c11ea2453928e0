//! The best score so far, and the text that keeps it between two runs:
//! a single decimal number, with blanks allowed around it.

use vstd::prelude::*;

verus! {

/// Whether `byte` is a blank: a space, a tab, a line feed or a carriage
/// return.
pub open spec fn is_blank(byte: u8) -> bool {
    byte == 0x20 || byte == 0x09 || byte == 0x0a || byte == 0x0d
}

/// Whether `byte` is one of the digits `0` to `9`.
pub open spec fn is_digit(byte: u8) -> bool {
    0x30 <= byte <= 0x39
}

/// The number that a run of digits spells, the most significant first.
pub open spec fn decimal(digits: Seq<u8>) -> nat
    decreases digits.len(),
{
    if digits.len() == 0 {
        0
    } else {
        10 * decimal(digits.drop_last()) + (digits.last() - 0x30) as nat
    }
}

/// The digits of `n`, the most significant first and without leading
/// zeros.
pub open spec fn digits_of(n: nat) -> Seq<u8>
    decreases n,
{
    if n < 10 {
        seq![(0x30 + n) as u8]
    } else {
        digits_of(n / 10).push((0x30 + n % 10) as u8)
    }
}

/// Whether `text` from `start` up to `end` is a run of digits with
/// nothing but blanks before and after it.
pub open spec fn frames_number(text: Seq<u8>, start: int, end: int) -> bool {
    &&& 0 <= start < end <= text.len()
    &&& forall|i: int| 0 <= i < start ==> is_blank(#[trigger] text[i])
    &&& forall|i: int| start <= i < end ==> is_digit(#[trigger] text[i])
    &&& forall|i: int| end <= i < text.len() ==> is_blank(#[trigger] text[i])
}

/// Whether `text` spells the number `n`: one run of digits that add up
/// to `n`, with nothing but blanks around it.
pub open spec fn spells(text: Seq<u8>, n: nat) -> bool {
    exists|start: int, end: int|
        #[trigger] frames_number(text, start, end) && decimal(text.subrange(start, end)) == n
}

/// The text that keeps `n`: its digits and a line feed.
pub open spec fn text_of(n: nat) -> Seq<u8> {
    digits_of(n).push(0x0a)
}

/// A text holds at most one run of digits framed by blanks.
pub proof fn lemma_one_frame(text: Seq<u8>, start: int, end: int, start2: int, end2: int)
    requires
        frames_number(text, start, end),
        frames_number(text, start2, end2),
    ensures
        start == start2,
        end == end2,
{
    if start < start2 {
        assert(is_digit(text[start]) && is_blank(text[start]));
    } else if start2 < start {
        assert(is_digit(text[start2]) && is_blank(text[start2]));
    }
    if end < end2 {
        assert(is_digit(text[end]) && is_blank(text[end]));
    } else if end2 < end {
        assert(is_digit(text[end2]) && is_blank(text[end2]));
    }
}

/// A text spells at most one number.
pub proof fn lemma_spells_one_number(text: Seq<u8>, n: nat, m: nat)
    requires
        spells(text, n),
        spells(text, m),
    ensures
        n == m,
{
    let (start, end) = choose|start: int, end: int|
        #[trigger] frames_number(text, start, end) && decimal(text.subrange(start, end)) == n;
    let (start2, end2) = choose|start: int, end: int|
        #[trigger] frames_number(text, start, end) && decimal(text.subrange(start, end)) == m;
    lemma_one_frame(text, start, end, start2, end2);
}

/// More digits never spell a smaller number.
pub proof fn lemma_decimal_grows(digits: Seq<u8>, shorter: int)
    requires
        0 <= shorter <= digits.len(),
        forall|i: int| 0 <= i < digits.len() ==> is_digit(#[trigger] digits[i]),
    ensures
        decimal(digits.subrange(0, shorter)) <= decimal(digits),
    decreases digits.len(),
{
    if shorter < digits.len() {
        let front = digits.drop_last();
        lemma_decimal_grows(front, shorter);
        assert(front.subrange(0, shorter) =~= digits.subrange(0, shorter));
    } else {
        assert(digits.subrange(0, shorter) =~= digits);
    }
}

/// The digits of a number are digits, and spell it.
pub proof fn lemma_digits_of(n: nat)
    ensures
        digits_of(n).len() >= 1,
        forall|i: int| 0 <= i < digits_of(n).len() ==> is_digit(#[trigger] digits_of(n)[i]),
        decimal(digits_of(n)) == n,
    decreases n,
{
    let digits = digits_of(n);
    if n < 10 {
        assert(digits.drop_last() =~= Seq::<u8>::empty());
        assert(decimal(digits.drop_last()) == 0);
        assert(digits.last() == 0x30 + n);
    } else {
        lemma_digits_of(n / 10);
        assert(digits.drop_last() =~= digits_of(n / 10));
        assert(digits.last() == 0x30 + n % 10);
    }
}

/// The text that keeps a number spells that number.
pub proof fn lemma_text_of_spells(n: nat)
    ensures
        spells(text_of(n), n),
{
    let text = text_of(n);
    let end = digits_of(n).len() as int;
    lemma_digits_of(n);
    assert(text.subrange(0, end) =~= digits_of(n));
    assert(frames_number(text, 0, end));
}

/// Reads the number that `text` spells. There is none to read where
/// `text` is not a single run of digits with blanks around it, or where
/// the number is more than a `u32` holds.
pub fn parse_score(text: &[u8]) -> (parsed: Option<u32>)
    ensures
        match parsed {
            Some(n) => spells(text@, n as nat),
            None => forall|n: nat| spells(text@, n) ==> n > u32::MAX,
        },
{
    let len = text.len();
    let mut start: usize = 0;
    while start < len && blank(text[start])
        invariant
            len == text@.len(),
            start <= len,
            forall|i: int| 0 <= i < start ==> is_blank(#[trigger] text@[i]),
        decreases len - start,
    {
        start += 1;
    }

    let mut end: usize = start;
    let mut value: u32 = 0;
    while end < len && digit(text[end])
        invariant
            len == text@.len(),
            start <= end <= len,
            forall|i: int| 0 <= i < start ==> is_blank(#[trigger] text@[i]),
            start < len ==> !is_blank(text@[start as int]),
            forall|i: int| start <= i < end ==> is_digit(#[trigger] text@[i]),
            value == decimal(text@.subrange(start as int, end as int)),
        decreases len - end,
    {
        let ghost run = text@.subrange(start as int, end + 1);
        proof {
            assert(run.drop_last() =~= text@.subrange(start as int, end as int));
        }
        let next = match value.checked_mul(10) {
            Some(tens) => tens.checked_add((text[end] - 0x30) as u32),
            None => None,
        };
        match next {
            Some(more) => {
                value = more;
            },
            None => {
                proof {
                    assert(decimal(run) > u32::MAX);
                    assert forall|n: nat| spells(text@, n) implies n > u32::MAX by {
                        let (s, e) = choose|s: int, e: int|
                            #[trigger] frames_number(text@, s, e) && decimal(text@.subrange(s, e))
                                == n;
                        lemma_frame_starts(text@, start as int, s, e);
                        if e <= end {
                            assert(is_digit(text@[e]) && is_blank(text@[e]));
                        }
                        let whole = text@.subrange(s, e);
                        lemma_decimal_grows(whole, end + 1 - start);
                        assert(whole.subrange(0, end + 1 - start) =~= run);
                    }
                }
                return None;
            },
        }
        end += 1;
    }

    let mut after: usize = end;
    while after < len && blank(text[after])
        invariant
            len == text@.len(),
            end <= after <= len,
            forall|i: int| end <= i < after ==> is_blank(#[trigger] text@[i]),
        decreases len - after,
    {
        after += 1;
    }

    if start < end && after == len {
        proof {
            assert(frames_number(text@, start as int, end as int));
        }
        Some(value)
    } else {
        proof {
            assert forall|n: nat| spells(text@, n) implies n > u32::MAX by {
                let (s, e) = choose|s: int, e: int|
                    #[trigger] frames_number(text@, s, e) && decimal(text@.subrange(s, e)) == n;
                lemma_frame_starts(text@, start as int, s, e);
                if e < end {
                    assert(is_digit(text@[e]) && is_blank(text@[e]));
                } else if e > end {
                    assert(is_digit(text@[end as int]));
                } else {
                    assert(is_blank(text@[after as int]));
                }
            }
        }
        None
    }
}

/// Writes the text that keeps `n`: its digits and a line feed.
pub fn format_score(n: u32) -> (text: Vec<u8>)
    ensures
        text@ == text_of(n as nat),
{
    let mut text: Vec<u8> = Vec::new();
    push_digits(n, &mut text);
    text.push(0x0a);
    text
}

/// The best score so far, given what the file that keeps it held, if
/// there was one. Without a file it is zero. From a file that spells no
/// score nothing is read.
pub fn stored_high_score(contents: Option<&[u8]>) -> (high: Option<u32>)
    ensures
        contents is None ==> high == Some(0u32),
        contents matches Some(text) ==> match high {
            Some(n) => spells(text@, n as nat),
            None => forall|n: nat| spells(text@, n) ==> n > u32::MAX,
        },
{
    match contents {
        None => Some(0),
        Some(text) => parse_score(text),
    }
}

/// The best score once a game ended with `score`: the larger of the two.
pub fn best_score(high: u32, score: u32) -> (best: u32)
    ensures
        best == if score > high {
            score
        } else {
            high
        },
{
    if score > high {
        score
    } else {
        high
    }
}

/// Reading back what was written gives the number written: whatever
/// `parse_score` may answer to the text of `n`, it is `n`.
pub proof fn lemma_parse_of_format(n: u32, parsed: Option<u32>)
    requires
        match parsed {
            Some(m) => spells(text_of(n as nat), m as nat),
            None => forall|m: nat| spells(text_of(n as nat), m) ==> m > u32::MAX,
        },
    ensures
        parsed == Some(n),
{
    lemma_text_of_spells(n as nat);
    if let Some(m) = parsed {
        lemma_spells_one_number(text_of(n as nat), n as nat, m as nat);
    }
}

fn blank(byte: u8) -> (b: bool)
    ensures
        b == is_blank(byte),
{
    byte == 0x20 || byte == 0x09 || byte == 0x0a || byte == 0x0d
}

fn digit(byte: u8) -> (b: bool)
    ensures
        b == is_digit(byte),
{
    0x30 <= byte && byte <= 0x39
}

/// Appends the digits of `n` to `text`.
fn push_digits(n: u32, text: &mut Vec<u8>)
    ensures
        final(text)@ == old(text)@ + digits_of(n as nat),
    decreases n,
{
    if n >= 10 {
        push_digits(n / 10, text);
    }
    text.push(0x30 + (n % 10) as u8);
    assert(text@ =~= old(text)@ + digits_of(n as nat));
}

/// A run of digits framed by blanks starts at the first byte that is no
/// blank.
proof fn lemma_frame_starts(text: Seq<u8>, first: int, start: int, end: int)
    requires
        frames_number(text, start, end),
        0 <= first <= text.len(),
        forall|i: int| 0 <= i < first ==> is_blank(#[trigger] text[i]),
        first < text.len() ==> !is_blank(text[first]),
    ensures
        start == first,
{
    if start < first {
        assert(is_digit(text[start]) && is_blank(text[start]));
    } else if first < start {
        assert(is_blank(text[first]));
    }
}

} // verus!
