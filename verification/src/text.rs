//! Byte-level text utilities: substring search, extraction of an HTML body,
//! and decimal/hexadecimal digit conversions.
//!
//! Everything here works on UTF-8 bytes; the needles searched for are ASCII,
//! so byte-level matching is exact in multi-byte text.

use vstd::prelude::*;
use vstd::slice::slice_subrange;
use vstd::string::StringExecFns;

verus! {

/// The first position at or after `i` where `pat` occurs in `text`, if any.
pub open spec fn find_from(text: Seq<u8>, pat: Seq<u8>, i: int) -> Option<int>
    decreases text.len() + 1 - i,
{
    if i < 0 || i + pat.len() > text.len() {
        Option::None
    } else if text.subrange(i, i + pat.len()) == pat {
        Option::Some(i)
    } else {
        find_from(text, pat, i + 1)
    }
}

/// Whether `pat` occurs in `text` starting exactly at `i`, decided by
/// comparing bytes.
pub fn match_at(text: &[u8], pat: &[u8], i: usize) -> (r: bool)
    requires
        i + pat@.len() <= text@.len(),
    ensures
        r == (text@.subrange(i as int, i + pat@.len()) == pat@),
{
    let text_len = text.len();
    let mut k: usize = 0;
    while k < pat.len()
        invariant
            0 <= k <= pat@.len(),
            i + pat@.len() <= text@.len(),
            text@.len() == text_len,
            forall|m: int| 0 <= m < k ==> text@[i + m] == pat@[m],
        decreases pat@.len() - k,
    {
        if text[i + k] != pat[k] {
            assert(text@.subrange(i as int, i + pat@.len())[k as int] != pat@[k as int]);
            return false;
        }
        k = k + 1;
    }
    proof {
        assert(text@.subrange(i as int, i + pat@.len()) =~= pat@);
    }
    true
}

/// The first occurrence of `pat` in `text` at or after `from`, by linear
/// scan.
pub fn find_sub(text: &[u8], pat: &[u8], from: usize) -> (r: Option<usize>)
    ensures
        match find_from(text@, pat@, from as int) {
            Option::Some(j) => r matches Some(u) && u == j,
            Option::None => r is None,
        },
{
    if pat.len() == 0 {
        if from <= text.len() {
            proof {
                assert(text@.subrange(from as int, from as int) =~= pat@);
            }
            return Some(from);
        } else {
            proof {
                lemma_find_from_none(text@, pat@, from as int);
            }
            return None;
        }
    }
    if pat.len() > text.len() || from > text.len() - pat.len() {
        proof {
            lemma_find_from_none(text@, pat@, from as int);
        }
        return None;
    }
    let mut i: usize = from;
    while i <= text.len() - pat.len()
        invariant
            1 <= pat@.len() <= text@.len(),
            from <= i,
            i + pat@.len() <= text@.len() + 1,
            find_from(text@, pat@, from as int) == find_from(text@, pat@, i as int),
        decreases text@.len() - i,
    {
        if match_at(text, pat, i) {
            return Some(i);
        }
        i = i + 1;
    }
    proof {
        lemma_find_from_none(text@, pat@, i as int);
    }
    None
}

/// Past the last feasible start, nothing is found.
proof fn lemma_find_from_none(text: Seq<u8>, pat: Seq<u8>, i: int)
    requires
        i + pat.len() > text.len() || i < 0,
    ensures
        find_from(text, pat, i) is None,
{
}

/// The pattern `<body`.
pub open spec fn body_open_pat() -> Seq<u8> {
    seq![60u8, 98u8, 111u8, 100u8, 121u8]
}

/// The pattern `>`.
pub open spec fn tag_end_pat() -> Seq<u8> {
    seq![62u8]
}

/// The pattern `</body>`.
pub open spec fn body_close_pat() -> Seq<u8> {
    seq![60u8, 47u8, 98u8, 111u8, 100u8, 121u8, 62u8]
}

/// The contents of the first `<body ...>` element of an HTML document: the
/// bytes between the `>` that closes the opening tag and the following
/// `</body>`. `None` when any of the three delimiters is missing.
pub open spec fn body_of(html: Seq<u8>) -> Option<Seq<u8>> {
    match find_from(html, body_open_pat(), 0) {
        Option::None => Option::None,
        Option::Some(i1) => match find_from(html, tag_end_pat(), i1 + 5) {
            Option::None => Option::None,
            Option::Some(i2) => match find_from(html, body_close_pat(), i2 + 1) {
                Option::None => Option::None,
                Option::Some(i3) => Option::Some(html.subrange(i2 + 1, i3)),
            },
        },
    }
}

/// A found occurrence starts within the text.
proof fn lemma_find_from_in_range(text: Seq<u8>, pat: Seq<u8>, i: int)
    ensures
        find_from(text, pat, i) matches Option::Some(j) ==> i <= j && 0 <= j && j + pat.len()
            <= text.len(),
    decreases text.len() + 1 - i,
{
    if !(i < 0 || i + pat.len() > text.len()) {
        if text.subrange(i, i + pat.len()) != pat {
            lemma_find_from_in_range(text, pat, i + 1);
        }
    }
}

/// Extract the body of an HTML document: everything between the end of the
/// first `<body ...>` opening tag and the `</body>` that follows it.
/// Returns `None` when the document has no such element.
pub fn extract_body(html: &[u8]) -> (r: Option<&[u8]>)
    ensures
        match body_of(html@) {
            Option::Some(b) => r matches Some(s) && s@ == b,
            Option::None => r is None,
        },
{
    let html_len = html.len();
    let open_pat: Vec<u8> = vec![60u8, 98u8, 111u8, 100u8, 121u8];
    let end_pat: Vec<u8> = vec![62u8];
    let close_pat: Vec<u8> = vec![60u8, 47u8, 98u8, 111u8, 100u8, 121u8, 62u8];
    proof {
        assert(open_pat@ =~= body_open_pat());
        assert(end_pat@ =~= tag_end_pat());
        assert(close_pat@ =~= body_close_pat());
    }
    let i1 = match find_sub(html, open_pat.as_slice(), 0) {
        Some(i) => i,
        None => {
            return None;
        },
    };
    proof {
        lemma_find_from_in_range(html@, body_open_pat(), 0);
        assert(i1 + 5 <= html_len);
    }
    let i2 = match find_sub(html, end_pat.as_slice(), i1 + 5) {
        Some(i) => i,
        None => {
            return None;
        },
    };
    proof {
        lemma_find_from_in_range(html@, tag_end_pat(), i1 + 5);
        assert(i2 + 1 <= html_len);
    }
    let i3 = match find_sub(html, close_pat.as_slice(), i2 + 1) {
        Some(i) => i,
        None => {
            return None;
        },
    };
    proof {
        lemma_find_from_in_range(html@, body_close_pat(), i2 + 1);
    }
    Some(slice_subrange(html, i2 + 1, i3))
}

/// The character of a single decimal digit.
pub open spec fn digit_char(d: int) -> char {
    if d == 0 {
        '0'
    } else if d == 1 {
        '1'
    } else if d == 2 {
        '2'
    } else if d == 3 {
        '3'
    } else if d == 4 {
        '4'
    } else if d == 5 {
        '5'
    } else if d == 6 {
        '6'
    } else if d == 7 {
        '7'
    } else if d == 8 {
        '8'
    } else {
        '9'
    }
}

/// The decimal digits of a non-negative integer, most significant first.
pub open spec fn dec_digits(n: int) -> Seq<char>
    decreases n,
{
    if n <= 9 {
        seq![digit_char(n)]
    } else {
        dec_digits(n / 10) + seq![digit_char(n % 10)]
    }
}

/// One decimal digit as a string.
fn digit_str(d: u64) -> (r: &'static str)
    requires
        d <= 9,
    ensures
        r@ == seq![digit_char(d as int)],
{
    proof {
        reveal_strlit("0");
        reveal_strlit("1");
        reveal_strlit("2");
        reveal_strlit("3");
        reveal_strlit("4");
        reveal_strlit("5");
        reveal_strlit("6");
        reveal_strlit("7");
        reveal_strlit("8");
        reveal_strlit("9");
    }
    let r = if d == 0 {
        "0"
    } else if d == 1 {
        "1"
    } else if d == 2 {
        "2"
    } else if d == 3 {
        "3"
    } else if d == 4 {
        "4"
    } else if d == 5 {
        "5"
    } else if d == 6 {
        "6"
    } else if d == 7 {
        "7"
    } else if d == 8 {
        "8"
    } else {
        "9"
    };
    proof {
        assert(r@ =~= seq![digit_char(d as int)]);
    }
    r
}

/// Format a non-negative integer in decimal.
pub fn u64_to_string(n: u64) -> (r: String)
    ensures
        r@ == dec_digits(n as int),
    decreases n,
{
    if n <= 9 {
        digit_str(n).to_owned()
    } else {
        let mut s = u64_to_string(n / 10);
        s.append(digit_str(n % 10));
        proof {
            assert(s@ =~= dec_digits(n as int));
        }
        s
    }
}

/// The value of a hexadecimal digit byte, or -1 for any other byte.
pub open spec fn hex_val(b: u8) -> int {
    if 48 <= b <= 57 {
        b - 48
    } else if 97 <= b <= 102 {
        b - 87
    } else if 65 <= b <= 70 {
        b - 55
    } else {
        -1
    }
}

/// Whether every byte of the sequence is a hexadecimal digit.
pub open spec fn all_hex(s: Seq<u8>) -> bool {
    forall|j: int| 0 <= j < s.len() ==> hex_val(#[trigger] s[j]) >= 0
}

/// The value of the first `i` bytes read as big-endian hexadecimal digits.
pub open spec fn hex_value(s: Seq<u8>, i: int) -> int
    decreases i,
{
    if i <= 0 {
        0
    } else {
        hex_value(s, i - 1) * 16 + hex_val(s[i - 1])
    }
}

/// With valid digits the running value never decreases.
proof fn lemma_hex_value_monotone(s: Seq<u8>, i: int, j: int)
    requires
        0 <= i <= j <= s.len(),
        all_hex(s),
    ensures
        hex_value(s, i) <= hex_value(s, j),
    decreases j - i,
{
    if i < j {
        lemma_hex_value_monotone(s, i, j - 1);
        lemma_hex_value_nonneg(s, j - 1);
        assert(hex_val(s[j - 1]) >= 0);
        assert(hex_value(s, j - 1) * 16 >= hex_value(s, j - 1));
    }
}

/// With valid digits the running value is non-negative.
proof fn lemma_hex_value_nonneg(s: Seq<u8>, i: int)
    requires
        0 <= i <= s.len(),
        all_hex(s),
    ensures
        hex_value(s, i) >= 0,
    decreases i,
{
    if i > 0 {
        lemma_hex_value_nonneg(s, i - 1);
        assert(hex_val(s[i - 1]) >= 0);
        assert(hex_value(s, i - 1) * 16 >= 0);
    }
}

/// The number a digit sequence denotes in hexadecimal, when it is
/// non-empty, all digits, and fits in 32 bits.
pub open spec fn hex_parses(s: Seq<u8>) -> Option<u32> {
    if s.len() >= 1 && all_hex(s) && hex_value(s, s.len() as int) <= u32::MAX {
        Option::Some(hex_value(s, s.len() as int) as u32)
    } else {
        Option::None
    }
}

/// Parse a big-endian hexadecimal number. Returns `None` when the input is
/// empty, holds a non-digit byte, or overflows 32 bits.
pub fn u32_from_hex(s: &[u8]) -> (r: Option<u32>)
    ensures
        match hex_parses(s@) {
            Option::Some(v) => r matches Some(u) && u == v,
            Option::None => r is None,
        },
{
    if s.len() == 0 {
        return None;
    }
    let mut acc: u32 = 0;
    let mut i: usize = 0;
    while i < s.len()
        invariant
            0 <= i <= s@.len(),
            all_hex(s@.subrange(0, i as int)),
            acc == hex_value(s@, i as int),
        decreases s@.len() - i,
    {
        let b = s[i];
        let d: u32 = if 48 <= b && b <= 57 {
            (b - 48) as u32
        } else if 97 <= b && b <= 102 {
            (b - 87) as u32
        } else if 65 <= b && b <= 70 {
            (b - 55) as u32
        } else {
            proof {
                assert(hex_val(s@[i as int]) == -1);
            }
            return None;
        };
        if acc > 0x0FFF_FFFF {
            // The next digit would push the value past 32 bits, and further
            // digits can only grow it.
            proof {
                let n = s@.len() as int;
                if all_hex(s@) {
                    assert(hex_value(s@, i + 1) == acc * 16 + hex_val(s@[i as int]));
                    assert(acc * 16 >= 0x1000_0000 * 16) by (nonlinear_arith)
                        requires
                            acc >= 0x1000_0000,
                    ;
                    assert(hex_val(s@[i as int]) >= 0);
                    lemma_hex_value_monotone(s@, i + 1, n);
                }
            }
            return None;
        }
        acc = acc * 16 + d;
        proof {
            assert(all_hex(s@.subrange(0, i + 1)));
        }
        i = i + 1;
    }
    proof {
        assert(s@.subrange(0, s@.len() as int) =~= s@);
    }
    Some(acc)
}

/// The first position at or after `i` holding byte `b`, if any.
pub open spec fn find_byte_from(text: Seq<u8>, b: u8, i: int) -> Option<int>
    decreases text.len() + 1 - i,
{
    if i < 0 || i >= text.len() {
        Option::None
    } else if text[i] == b {
        Option::Some(i)
    } else {
        find_byte_from(text, b, i + 1)
    }
}

/// A found byte lies within the text, at or after the start position.
pub proof fn lemma_find_byte_in_range(text: Seq<u8>, b: u8, i: int)
    ensures
        find_byte_from(text, b, i) matches Option::Some(j) ==> i <= j < text.len(),
    decreases text.len() + 1 - i,
{
    if 0 <= i < text.len() {
        if text[i] != b {
            lemma_find_byte_in_range(text, b, i + 1);
        }
    }
}

/// The first occurrence of a byte at or after `from`, by linear scan.
pub fn find_byte(text: &[u8], b: u8, from: usize) -> (r: Option<usize>)
    ensures
        match find_byte_from(text@, b, from as int) {
            Option::Some(j) => r matches Some(u) && u == j,
            Option::None => r is None,
        },
{
    let mut i: usize = from;
    while i < text.len()
        invariant
            from <= i,
            find_byte_from(text@, b, from as int) == find_byte_from(text@, b, i as int),
        decreases text@.len() - i,
    {
        if text[i] == b {
            return Some(i);
        }
        i = i + 1;
    }
    None
}

/// The value of a decimal digit byte, or -1 for any other byte.
pub open spec fn dec_val(b: u8) -> int {
    if 48 <= b <= 57 {
        b - 48
    } else {
        -1
    }
}

/// Whether every byte of the sequence is a decimal digit.
pub open spec fn all_dec(s: Seq<u8>) -> bool {
    forall|j: int| 0 <= j < s.len() ==> dec_val(#[trigger] s[j]) >= 0
}

/// The value of the first `i` bytes read as decimal digits.
pub open spec fn dec_value(s: Seq<u8>, i: int) -> int
    decreases i,
{
    if i <= 0 {
        0
    } else {
        dec_value(s, i - 1) * 10 + dec_val(s[i - 1])
    }
}

/// The number a digit sequence denotes, when it is non-empty, all digits,
/// and fits in 32 bits.
pub open spec fn dec_parses(s: Seq<u8>) -> Option<u32> {
    if s.len() >= 1 && all_dec(s) && dec_value(s, s.len() as int) <= u32::MAX {
        Option::Some(dec_value(s, s.len() as int) as u32)
    } else {
        Option::None
    }
}

/// With valid digits the running decimal value is non-negative.
proof fn lemma_dec_value_nonneg(s: Seq<u8>, i: int)
    requires
        0 <= i <= s.len(),
        all_dec(s),
    ensures
        dec_value(s, i) >= 0,
    decreases i,
{
    if i > 0 {
        lemma_dec_value_nonneg(s, i - 1);
        assert(dec_val(s[i - 1]) >= 0);
        assert(dec_value(s, i - 1) * 10 >= 0);
    }
}

/// With valid digits the running decimal value never decreases.
proof fn lemma_dec_value_monotone(s: Seq<u8>, i: int, j: int)
    requires
        0 <= i <= j <= s.len(),
        all_dec(s),
    ensures
        dec_value(s, i) <= dec_value(s, j),
    decreases j - i,
{
    if i < j {
        lemma_dec_value_monotone(s, i, j - 1);
        lemma_dec_value_nonneg(s, j - 1);
        assert(dec_val(s[j - 1]) >= 0);
        assert(dec_value(s, j - 1) * 10 >= dec_value(s, j - 1));
    }
}

/// Parse a decimal number. Returns `None` when the input is empty, holds a
/// non-digit byte, or overflows 32 bits.
pub fn u32_from_dec(s: &[u8]) -> (r: Option<u32>)
    ensures
        match dec_parses(s@) {
            Option::Some(v) => r matches Some(u) && u == v,
            Option::None => r is None,
        },
{
    if s.len() == 0 {
        return None;
    }
    let mut acc: u32 = 0;
    let mut i: usize = 0;
    while i < s.len()
        invariant
            0 <= i <= s@.len(),
            all_dec(s@.subrange(0, i as int)),
            acc == dec_value(s@, i as int),
        decreases s@.len() - i,
    {
        let b = s[i];
        if b < 48 || 57 < b {
            proof {
                assert(dec_val(s@[i as int]) == -1);
            }
            return None;
        }
        let d: u32 = (b - 48) as u32;
        if acc > 429496729 || (acc == 429496729 && d > 5) {
            // The next digit pushes the value past 32 bits, and further
            // digits can only grow it.
            proof {
                let n = s@.len() as int;
                if all_dec(s@) {
                    assert(dec_value(s@, i + 1) == acc * 10 + dec_val(s@[i as int]));
                    if acc > 429496729 {
                        assert(acc * 10 >= 429496730 * 10) by (nonlinear_arith)
                            requires
                                acc >= 429496730,
                        ;
                    }
                    assert(dec_val(s@[i as int]) == d);
                    lemma_dec_value_monotone(s@, i + 1, n);
                }
            }
            return None;
        }
        acc = acc * 10 + d;
        proof {
            assert(all_dec(s@.subrange(0, i + 1)));
        }
        i = i + 1;
    }
    proof {
        assert(s@.subrange(0, s@.len() as int) =~= s@);
    }
    Some(acc)
}


/// The lowercase character of a hexadecimal digit.
pub open spec fn hex_digit_char(d: int) -> char {
    if d == 0 {
        '0'
    } else if d == 1 {
        '1'
    } else if d == 2 {
        '2'
    } else if d == 3 {
        '3'
    } else if d == 4 {
        '4'
    } else if d == 5 {
        '5'
    } else if d == 6 {
        '6'
    } else if d == 7 {
        '7'
    } else if d == 8 {
        '8'
    } else if d == 9 {
        '9'
    } else if d == 10 {
        'a'
    } else if d == 11 {
        'b'
    } else if d == 12 {
        'c'
    } else if d == 13 {
        'd'
    } else if d == 14 {
        'e'
    } else {
        'f'
    }
}

/// A byte as two lowercase hexadecimal digits.
pub open spec fn hex_byte_digits(b: int) -> Seq<char> {
    seq![hex_digit_char(b / 16), hex_digit_char(b % 16)]
}

/// One lowercase hexadecimal digit as a string.
fn hex_digit_str(d: u8) -> (r: &'static str)
    requires
        d <= 15,
    ensures
        r@ == seq![hex_digit_char(d as int)],
{
    proof {
        reveal_strlit("a");
        reveal_strlit("b");
        reveal_strlit("c");
        reveal_strlit("d");
        reveal_strlit("e");
        reveal_strlit("f");
    }
    let r = if d <= 9 {
        digit_str(d as u64)
    } else if d == 10 {
        "a"
    } else if d == 11 {
        "b"
    } else if d == 12 {
        "c"
    } else if d == 13 {
        "d"
    } else if d == 14 {
        "e"
    } else {
        "f"
    };
    proof {
        assert(r@ =~= seq![hex_digit_char(d as int)]);
    }
    r
}

/// Append a byte as two lowercase hexadecimal digits.
pub fn push_hex_byte(s: &mut String, b: u8)
    ensures
        final(s)@ == old(s)@ + hex_byte_digits(b as int),
{
    s.append(hex_digit_str(b / 16));
    s.append(hex_digit_str(b % 16));
    proof {
        assert(s@ =~= old(s)@ + hex_byte_digits(b as int));
    }
}


/// Whether a byte is ASCII whitespace.
pub open spec fn is_ascii_ws(b: u8) -> bool {
    b == 9 || b == 10 || b == 11 || b == 12 || b == 13 || b == 32
}

/// The sequence with its leading ASCII whitespace removed.
pub open spec fn trim_start_ws(s: Seq<u8>) -> Seq<u8>
    decreases s.len(),
{
    if s.len() > 0 && is_ascii_ws(s[0]) {
        trim_start_ws(s.drop_first())
    } else {
        s
    }
}

/// The sequence with its trailing ASCII whitespace removed.
pub open spec fn trim_end_ws(s: Seq<u8>) -> Seq<u8>
    decreases s.len(),
{
    if s.len() > 0 && is_ascii_ws(s.last()) {
        trim_end_ws(s.drop_last())
    } else {
        s
    }
}

/// The sequence with ASCII whitespace removed from both ends.
pub open spec fn trim_ws(s: Seq<u8>) -> Seq<u8> {
    trim_end_ws(trim_start_ws(s))
}

/// The sequence with every leading occurrence of one byte removed.
pub open spec fn strip_leading(s: Seq<u8>, b: u8) -> Seq<u8>
    decreases s.len(),
{
    if s.len() > 0 && s[0] == b {
        strip_leading(s.drop_first(), b)
    } else {
        s
    }
}

/// Whether a byte is ASCII whitespace, decided in code.
fn is_ascii_ws_byte(b: u8) -> (r: bool)
    ensures
        r == is_ascii_ws(b),
{
    b == 9 || b == 10 || b == 11 || b == 12 || b == 13 || b == 32
}

/// The bounds of a slice's content after trimming ASCII whitespace from
/// both ends.
pub fn trim_ws_bounds(s: &[u8]) -> (r: (usize, usize))
    ensures
        0 <= r.0 <= r.1 <= s@.len(),
        s@.subrange(r.0 as int, r.1 as int) == trim_ws(s@),
{
    let n = s.len();
    proof {
        assert(s@.subrange(0, n as int) =~= s@);
    }
    let mut lo: usize = 0;
    while lo < n && is_ascii_ws_byte(s[lo])
        invariant
            0 <= lo <= n,
            n == s@.len(),
            trim_start_ws(s@) == trim_start_ws(s@.subrange(lo as int, n as int)),
        decreases n - lo,
    {
        proof {
            let cur = s@.subrange(lo as int, n as int);
            assert(cur[0] == s@[lo as int]);
            assert(cur.drop_first() =~= s@.subrange(lo + 1, n as int));
        }
        lo = lo + 1;
    }
    proof {
        let cur = s@.subrange(lo as int, n as int);
        assert(trim_start_ws(cur) == cur);
        assert(trim_start_ws(s@) == s@.subrange(lo as int, n as int));
    }
    let mut hi: usize = n;
    while hi > lo && is_ascii_ws_byte(s[hi - 1])
        invariant
            lo <= hi <= n,
            n == s@.len(),
            trim_start_ws(s@) == s@.subrange(lo as int, n as int),
            trim_end_ws(s@.subrange(lo as int, n as int)) == trim_end_ws(
                s@.subrange(lo as int, hi as int),
            ),
        decreases hi,
    {
        proof {
            let cur = s@.subrange(lo as int, hi as int);
            assert(cur.last() == s@[hi - 1]);
            assert(cur.drop_last() =~= s@.subrange(lo as int, hi - 1));
        }
        hi = hi - 1;
    }
    proof {
        let cur = s@.subrange(lo as int, hi as int);
        assert(trim_end_ws(cur) == cur);
    }
    (lo, hi)
}

/// The first index at or after `from` whose byte differs from `b`, capped
/// at the slice's length; the tail from there is the slice stripped of its
/// leading `b` bytes.
pub fn strip_leading_pos(s: &[u8], b: u8, from: usize) -> (r: usize)
    requires
        from <= s@.len(),
    ensures
        from <= r <= s@.len(),
        s@.subrange(r as int, s@.len() as int) == strip_leading(
            s@.subrange(from as int, s@.len() as int),
            b,
        ),
{
    let n = s.len();
    let mut i: usize = from;
    while i < n && s[i] == b
        invariant
            from <= i <= n,
            n == s@.len(),
            strip_leading(s@.subrange(from as int, n as int), b) == strip_leading(
                s@.subrange(i as int, n as int),
                b,
            ),
        decreases n - i,
    {
        proof {
            let cur = s@.subrange(i as int, n as int);
            assert(cur[0] == s@[i as int]);
            assert(cur.drop_first() =~= s@.subrange(i + 1, n as int));
        }
        i = i + 1;
    }
    proof {
        let cur = s@.subrange(i as int, n as int);
        assert(strip_leading(cur, b) == cur);
    }
    i
}

} // verus!
