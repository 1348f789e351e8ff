//! Lexical layer of the region decoder: whitespace, JSON strings with
//! their escapes, unsigned integers, and skipping of ignored values.
//!
//! Every construct is specified by a spec-level grammar function over a
//! character sequence and an entry position; the executable scanner of the
//! same construct returns exactly what the grammar function denotes.

use vstd::prelude::*;

verus! {

/// Relies on String::push: appends the given character to the end of the
/// string.
#[verifier::external_body]
pub(crate) fn push_char(s: &mut String, c: char)
    ensures
        final(s)@ == old(s)@.push(c),
{
    s.push(c);
}

/// Relies on char::from_u32: returns `Some` exactly on Unicode scalar
/// values (below the surrogate range, or above it and at most 0x10FFFF),
/// and then the character with that code.
#[verifier::external_body]
pub(crate) fn char_from_u32(n: u32) -> (r: Option<char>)
    ensures
        r == (if n < 0xD800 || (0xE000 <= n && n <= 0x10FFFF) {
            Some(n as char)
        } else {
            Option::<char>::None
        }),
{
    char::from_u32(n)
}

/// JSON insignificant whitespace.
pub open spec fn is_ws(c: char) -> bool {
    c == ' ' || c == '\t' || c == '\n' || c == '\r'
}

/// The first position at or after `i` holding a non-whitespace character.
pub open spec fn skip_ws(s: Seq<char>, i: int) -> int
    decreases s.len() - i,
{
    if 0 <= i < s.len() && is_ws(s[i]) {
        skip_ws(s, i + 1)
    } else {
        i
    }
}

/// Exec counterpart of [`skip_ws`].
pub fn ws_end(s: &Vec<char>, i: usize) -> (r: usize)
    requires
        i <= s@.len(),
    ensures
        r == skip_ws(s@, i as int),
        i <= r <= s@.len(),
    decreases s@.len() - i,
{
    if i < s.len() {
        let c = s[i];
        if c == ' ' || c == '\t' || c == '\n' || c == '\r' {
            return ws_end(s, i + 1);
        }
    }
    i
}

/// The numeric value of one hexadecimal digit.
pub open spec fn hex_val(c: char) -> Option<u32> {
    if '0' <= c && c <= '9' {
        Some((c as u32 - 48) as u32)
    } else if 'a' <= c && c <= 'f' {
        Some((c as u32 - 87) as u32)
    } else if 'A' <= c && c <= 'F' {
        Some((c as u32 - 55) as u32)
    } else {
        None
    }
}

/// Exec counterpart of [`hex_val`].
fn hex_val_x(c: char) -> (r: Option<u32>)
    ensures
        r == hex_val(c),
        r matches Some(v) ==> v < 16,
{
    if '0' <= c && c <= '9' {
        Some(c as u32 - 48)
    } else if 'a' <= c && c <= 'f' {
        Some(c as u32 - 87)
    } else if 'A' <= c && c <= 'F' {
        Some(c as u32 - 55)
    } else {
        None
    }
}

/// Four hexadecimal digits starting at `i`, as a code unit.
pub open spec fn hex4(s: Seq<char>, i: int) -> Option<(u32, int)> {
    if i < 0 || i + 4 > s.len() {
        None
    } else {
        match (hex_val(s[i]), hex_val(s[i + 1]), hex_val(s[i + 2]), hex_val(s[i + 3])) {
            (Some(a), Some(b), Some(c), Some(d)) => Some(
                ((a * 4096 + b * 256 + c * 16 + d) as u32, i + 4),
            ),
            _ => None,
        }
    }
}

/// Exec counterpart of [`hex4`].
fn hex4_x(s: &Vec<char>, i: usize) -> (r: Option<(u32, usize)>)
    requires
        i <= s@.len(),
    ensures
        match r {
            Some(p) => hex4(s@, i as int) matches Some(q) && p.0 == q.0 && p.1 == q.1 && p.0
                < 0x10000 && i < p.1 <= s@.len(),
            None => hex4(s@, i as int) is None,
        },
{
    if s.len() - i < 4 {
        return None;
    }
    let (a, b, c, d) = (hex_val_x(s[i]), hex_val_x(s[i + 1]), hex_val_x(s[i + 2]), hex_val_x(
        s[i + 3],
    ));
    match (a, b, c, d) {
        (Some(a), Some(b), Some(c), Some(d)) => Some((a * 4096 + b * 256 + c * 16 + d, i + 4)),
        _ => None,
    }
}

/// The scalar value encoded by a surrogate pair.
pub open spec fn combine_surrogates(hi: u32, lo: u32) -> int {
    0x10000 + (hi - 0xD800) * 0x400 + (lo - 0xDC00)
}

/// One `\u` escape starting at its first hex digit: either a scalar code
/// unit, or a high surrogate followed by a second `\u` low surrogate.
pub open spec fn esc_unicode(s: Seq<char>, i: int) -> Option<(char, int)> {
    match hex4(s, i) {
        Some((n, j)) => {
            if n < 0xD800 || n > 0xDFFF {
                Some((n as char, j))
            } else if n >= 0xDC00 {
                None
            } else if j + 2 <= s.len() && s[j] == '\\' && s[j + 1] == 'u' {
                match hex4(s, j + 2) {
                    Some((lo, j2)) => {
                        if 0xDC00 <= lo <= 0xDFFF {
                            Some((combine_surrogates(n, lo) as char, j2))
                        } else {
                            None
                        }
                    },
                    None => None,
                }
            } else {
                None
            }
        },
        None => None,
    }
}

/// The character denoted by one escape sequence, `i` at the character
/// after the backslash.
pub open spec fn esc_char(s: Seq<char>, i: int) -> Option<(char, int)> {
    if i < 0 || i >= s.len() {
        None
    } else if s[i] == '"' {
        Some(('"', i + 1))
    } else if s[i] == '\\' {
        Some(('\\', i + 1))
    } else if s[i] == '/' {
        Some(('/', i + 1))
    } else if s[i] == 'b' {
        Some(('\u{8}', i + 1))
    } else if s[i] == 'f' {
        Some(('\u{c}', i + 1))
    } else if s[i] == 'n' {
        Some(('\n', i + 1))
    } else if s[i] == 'r' {
        Some(('\r', i + 1))
    } else if s[i] == 't' {
        Some(('\t', i + 1))
    } else if s[i] == 'u' {
        esc_unicode(s, i + 1)
    } else {
        None
    }
}

/// Exec counterpart of [`esc_char`].
fn unescape(s: &Vec<char>, i: usize) -> (r: Option<(char, usize)>)
    requires
        i <= s@.len(),
    ensures
        match r {
            Some(p) => esc_char(s@, i as int) matches Some(q) && p.0 == q.0 && p.1 == q.1 && i
                < p.1 <= s@.len(),
            None => esc_char(s@, i as int) is None,
        },
{
    if i >= s.len() {
        return None;
    }
    let c = s[i];
    if c == '"' {
        Some(('"', i + 1))
    } else if c == '\\' {
        Some(('\\', i + 1))
    } else if c == '/' {
        Some(('/', i + 1))
    } else if c == 'b' {
        Some(('\u{8}', i + 1))
    } else if c == 'f' {
        Some(('\u{c}', i + 1))
    } else if c == 'n' {
        Some(('\n', i + 1))
    } else if c == 'r' {
        Some(('\r', i + 1))
    } else if c == 't' {
        Some(('\t', i + 1))
    } else if c == 'u' {
        match hex4_x(s, i + 1) {
            Some((n, j)) => {
                if n < 0xD800 || n > 0xDFFF {
                    match char_from_u32(n) {
                        Some(ch) => Some((ch, j)),
                        None => {
                            // n is at most 0xFFFF and not a surrogate, so it
                            // is a scalar value and the conversion succeeds
                            proof {
                                assert(false);
                            }
                            None
                        },
                    }
                } else if n >= 0xDC00 {
                    None
                } else if s.len() - j >= 2 && s[j] == '\\' && s[j + 1] == 'u' {
                    match hex4_x(s, j + 2) {
                        Some((lo, j2)) => {
                            if 0xDC00 <= lo && lo <= 0xDFFF {
                                let code = 0x10000 + (n - 0xD800) * 0x400 + (lo - 0xDC00);
                                match char_from_u32(code) {
                                    Some(ch) => Some((ch, j2)),
                                    None => {
                                        // a surrogate pair always combines
                                        // into a scalar value
                                        proof {
                                            assert(false);
                                        }
                                        None
                                    },
                                }
                            } else {
                                None
                            }
                        },
                        None => None,
                    }
                } else {
                    None
                }
            },
            None => None,
        }
    } else {
        None
    }
}

/// The body of a JSON string, `i` just after the opening quote: the
/// decoded characters and the position after the closing quote.
/// Unescaped control characters make the string invalid.
pub open spec fn str_body(s: Seq<char>, i: int) -> Option<(Seq<char>, int)>
    decreases s.len() - i,
{
    if i < 0 || i >= s.len() {
        None
    } else if s[i] == '"' {
        Some((Seq::empty(), i + 1))
    } else if s[i] == '\\' {
        match esc_char(s, i + 1) {
            Some((c, j)) => {
                if j <= i || j > s.len() {
                    None
                } else {
                    match str_body(s, j) {
                        Some((t, end)) => Some((seq![c] + t, end)),
                        None => None,
                    }
                }
            },
            None => None,
        }
    } else if (s[i] as u32) < 32 {
        None
    } else {
        match str_body(s, i + 1) {
            Some((t, end)) => Some((seq![s[i]] + t, end)),
            None => None,
        }
    }
}

/// Exec counterpart of [`str_body`]: decodes into a `String`.
pub fn scan_string_body(s: &Vec<char>, i: usize) -> (r: Option<(String, usize)>)
    requires
        i <= s@.len(),
    ensures
        match r {
            Some(p) => str_body(s@, i as int) matches Some(q) && p.0@ == q.0 && p.1 == q.1 && i
                < p.1 <= s@.len(),
            None => str_body(s@, i as int) is None,
        },
    decreases s@.len() - i,
{
    if i >= s.len() {
        return None;
    }
    let c = s[i];
    if c == '"' {
        let out = String::new();
        Some((out, i + 1))
    } else if c == '\\' {
        match unescape(s, i + 1) {
            Some((ec, j)) => {
                match scan_string_body(s, j) {
                    Some((rest, end)) => {
                        let mut out = String::new();
                        push_char(&mut out, ec);
                        out.append(rest.as_str());
                        proof {
                            assert(out@ =~= seq![ec] + rest@);
                        }
                        Some((out, end))
                    },
                    None => None,
                }
            },
            None => None,
        }
    } else if (c as u32) < 32 {
        None
    } else {
        match scan_string_body(s, i + 1) {
            Some((rest, end)) => {
                let mut out = String::new();
                push_char(&mut out, c);
                out.append(rest.as_str());
                proof {
                    assert(out@ =~= seq![c] + rest@);
                }
                Some((out, end))
            },
            None => None,
        }
    }
}

/// A whole JSON string starting at its opening quote.
pub open spec fn p_string(s: Seq<char>, i: int) -> Option<(Seq<char>, int)> {
    if 0 <= i < s.len() && s[i] == '"' {
        str_body(s, i + 1)
    } else {
        None
    }
}

/// Exec counterpart of [`p_string`].
pub fn scan_string(s: &Vec<char>, i: usize) -> (r: Option<(String, usize)>)
    requires
        i <= s@.len(),
    ensures
        match r {
            Some(p) => p_string(s@, i as int) matches Some(q) && p.0@ == q.0 && p.1 == q.1 && i
                < p.1 <= s@.len(),
            None => p_string(s@, i as int) is None,
        },
{
    if i < s.len() && s[i] == '"' {
        scan_string_body(s, i + 1)
    } else {
        None
    }
}

/// The end of the run of decimal digits starting at `i`.
pub open spec fn digits_end(s: Seq<char>, i: int) -> int
    decreases s.len() - i,
{
    if 0 <= i < s.len() && '0' <= s[i] && s[i] <= '9' {
        digits_end(s, i + 1)
    } else {
        i
    }
}

/// The digit run is bounded and holds only digits.
pub proof fn lemma_digits_end(s: Seq<char>, i: int)
    requires
        0 <= i <= s.len(),
    ensures
        i <= digits_end(s, i) <= s.len(),
        forall|j: int| i <= j < digits_end(s, i) ==> '0' <= #[trigger] s[j] && s[j] <= '9',
    decreases s.len() - i,
{
    if i < s.len() && '0' <= s[i] && s[i] <= '9' {
        lemma_digits_end(s, i + 1);
    }
}

/// Exec counterpart of [`digits_end`].
fn digits_end_x(s: &Vec<char>, i: usize) -> (r: usize)
    requires
        i <= s@.len(),
    ensures
        r == digits_end(s@, i as int),
        i <= r <= s@.len(),
    decreases s@.len() - i,
{
    if i < s.len() {
        let c = s[i];
        if '0' <= c && c <= '9' {
            return digits_end_x(s, i + 1);
        }
    }
    i
}

/// The value of the digits of `s` in `[i, e)`, most significant first.
pub open spec fn digits_val(s: Seq<char>, i: int, e: int) -> int
    decreases e - i,
{
    if i < e {
        digits_val(s, i, e - 1) * 10 + (s[e - 1] as int - 48)
    } else {
        0
    }
}

proof fn lemma_digits_val_bounds(s: Seq<char>, i: int, e: int)
    requires
        0 <= i <= e <= s.len(),
        forall|j: int| i <= j < e ==> '0' <= #[trigger] s[j] && s[j] <= '9',
    ensures
        digits_val(s, i, e) >= 0,
        forall|k: int| i <= k <= e ==> #[trigger] digits_val(s, i, k) <= digits_val(s, i, e),
    decreases e - i,
{
    if i < e {
        lemma_digits_val_bounds(s, i, e - 1);
        assert forall|k: int| i <= k <= e implies #[trigger] digits_val(s, i, k) <= digits_val(
            s,
            i,
            e,
        ) by {
            if k <= e - 1 {
                assert(digits_val(s, i, k) <= digits_val(s, i, e - 1));
                assert(digits_val(s, i, e - 1) * 10 >= digits_val(s, i, e - 1));
                assert(s[e - 1] as int - 48 >= 0);
            }
        }
    }
}

/// A JSON unsigned integer: at least one digit, no redundant leading zero,
/// and a value that fits in a `u64`.
pub open spec fn p_uint(s: Seq<char>, i: int) -> Option<(u64, int)> {
    let e = digits_end(s, i);
    if e == i {
        None
    } else if s[i] == '0' && e > i + 1 {
        None
    } else if digits_val(s, i, e) > u64::MAX {
        None
    } else {
        Some((digits_val(s, i, e) as u64, e))
    }
}

/// Exec counterpart of [`p_uint`].
pub fn scan_uint(s: &Vec<char>, i: usize) -> (r: Option<(u64, usize)>)
    requires
        i <= s@.len(),
    ensures
        match r {
            Some(p) => p_uint(s@, i as int) matches Some(q) && p.0 == q.0 && p.1 == q.1 && i
                < p.1 <= s@.len(),
            None => p_uint(s@, i as int) is None,
        },
{
    let e = digits_end_x(s, i);
    proof {
        lemma_digits_end(s@, i as int);
    }
    if e == i {
        return None;
    }
    if s[i] == '0' && e > i + 1 {
        return None;
    }
    let mut acc: u64 = 0;
    let mut k: usize = i;
    while k < e
        invariant
            i <= k <= e <= s@.len(),
            e == digits_end(s@, i as int),
            forall|j: int| i <= j < e ==> '0' <= #[trigger] s@[j] && s@[j] <= '9',
            acc == digits_val(s@, i as int, k as int),
        decreases e - k,
    {
        let d: u64 = (s[k] as u64) - 48;
        let step = match acc.checked_mul(10) {
            Some(m) => m.checked_add(d),
            None => None,
        };
        match step {
            Some(next) => {
                acc = next;
                k += 1;
            },
            None => {
                proof {
                    lemma_digits_val_bounds(s@, i as int, e as int);
                    assert(digits_val(s@, i as int, k as int + 1) == acc * 10 + d);
                    assert(digits_val(s@, i as int, e as int) > u64::MAX);
                }
                return None;
            },
        }
    }
    Some((acc, e))
}

/// Skips one scalar value of an ignored field: a string or a digit run.
pub open spec fn skip_scalar(s: Seq<char>, i: int) -> Option<int> {
    if 0 <= i < s.len() {
        if s[i] == '"' {
            match str_body(s, i + 1) {
                Some((t, e)) => Some(e),
                None => None,
            }
        } else if '0' <= s[i] && s[i] <= '9' {
            Some(digits_end(s, i))
        } else {
            None
        }
    } else {
        None
    }
}

/// Skips the items of an ignored array, `i` at the first item: scalars
/// separated by commas, up to and including the closing bracket.
pub open spec fn skip_items(s: Seq<char>, i: int) -> Option<int>
    decreases s.len() - i,
{
    match skip_scalar(s, i) {
        Some(j) => {
            let j2 = skip_ws(s, j);
            if j2 < 0 || j2 >= s.len() {
                None
            } else if s[j2] == ']' {
                Some(j2 + 1)
            } else if s[j2] == ',' {
                let j3 = skip_ws(s, j2 + 1);
                if j3 <= i || j3 > s.len() {
                    None
                } else {
                    skip_items(s, j3)
                }
            } else {
                None
            }
        },
        None => None,
    }
}

/// Skips one ignored value: a scalar, or an array of scalars.
pub open spec fn skip_value(s: Seq<char>, i: int) -> Option<int> {
    if 0 <= i < s.len() && s[i] == '[' {
        let j = skip_ws(s, i + 1);
        if j < s.len() && s[j] == ']' {
            Some(j + 1)
        } else {
            skip_items(s, j)
        }
    } else {
        skip_scalar(s, i)
    }
}

/// Exec counterpart of [`skip_scalar`].
fn skim_scalar(s: &Vec<char>, i: usize) -> (r: Option<usize>)
    requires
        i <= s@.len(),
    ensures
        match r {
            Some(j) => skip_scalar(s@, i as int) matches Some(q) && j == q && i < j <= s@.len(),
            None => skip_scalar(s@, i as int) is None,
        },
{
    if i >= s.len() {
        return None;
    }
    let c = s[i];
    if c == '"' {
        match scan_string_body(s, i + 1) {
            Some((t, e)) => Some(e),
            None => None,
        }
    } else if '0' <= c && c <= '9' {
        let e = digits_end_x(s, i);
        proof {
            lemma_digits_end(s@, i as int + 1);
        }
        Some(e)
    } else {
        None
    }
}

/// Exec counterpart of [`skip_items`].
fn skim_items(s: &Vec<char>, i: usize) -> (r: Option<usize>)
    requires
        i <= s@.len(),
    ensures
        match r {
            Some(j) => skip_items(s@, i as int) matches Some(q) && j == q && i < j <= s@.len(),
            None => skip_items(s@, i as int) is None,
        },
    decreases s@.len() - i,
{
    match skim_scalar(s, i) {
        Some(j) => {
            let j2 = ws_end(s, j);
            if j2 >= s.len() {
                None
            } else if s[j2] == ']' {
                Some(j2 + 1)
            } else if s[j2] == ',' {
                let j3 = ws_end(s, j2 + 1);
                skim_items(s, j3)
            } else {
                None
            }
        },
        None => None,
    }
}

/// Exec counterpart of [`skip_value`].
pub fn skim_value(s: &Vec<char>, i: usize) -> (r: Option<usize>)
    requires
        i <= s@.len(),
    ensures
        match r {
            Some(j) => skip_value(s@, i as int) matches Some(q) && j == q && i < j <= s@.len(),
            None => skip_value(s@, i as int) is None,
        },
{
    if i < s.len() && s[i] == '[' {
        let j = ws_end(s, i + 1);
        if j < s.len() && s[j] == ']' {
            Some(j + 1)
        } else {
            skim_items(s, j)
        }
    } else {
        skim_scalar(s, i)
    }
}

} // verus!
