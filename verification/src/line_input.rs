//! Parsing of typed call requests: a line `<floor> <call>` with two decimal
//! numbers separated by whitespace.
use vstd::prelude::*;
use vstd::string::StrSliceExecFns;
use crate::net_test::Call;

verus! {

/// Whether `c` has the Unicode `White_Space` property.
pub open spec fn is_white_space(c: char) -> bool {
    ||| ('\u{9}' <= c && c <= '\u{d}')
    ||| c == ' '
    ||| c == '\u{85}'
    ||| c == '\u{a0}'
    ||| c == '\u{1680}'
    ||| ('\u{2000}' <= c && c <= '\u{200a}')
    ||| c == '\u{2028}'
    ||| c == '\u{2029}'
    ||| c == '\u{202f}'
    ||| c == '\u{205f}'
    ||| c == '\u{3000}'
}

/// Whether `c` has the Unicode `White_Space` property.
pub fn white_space(c: char) -> (r: bool)
    ensures
        r == is_white_space(c),
{
    ('\u{9}' <= c && c <= '\u{d}') || c == ' ' || c == '\u{85}' || c == '\u{a0}' || c == '\u{1680}'
        || ('\u{2000}' <= c && c <= '\u{200a}') || c == '\u{2028}' || c == '\u{2029}' || c == '\u{202f}'
        || c == '\u{205f}' || c == '\u{3000}'
}

/// The length of the run of non-whitespace characters at the start of `s`.
pub open spec fn run_len(s: Seq<char>) -> nat
    decreases s.len(),
{
    if s.len() == 0 || is_white_space(s[0]) {
        0
    } else {
        1 + run_len(s.drop_first())
    }
}

/// The whitespace-separated words of `s`.
pub open spec fn words(s: Seq<char>) -> Seq<Seq<char>>
    decreases s.len(),
{
    if s.len() == 0 {
        seq![]
    } else if is_white_space(s[0]) {
        words(s.drop_first())
    } else {
        let n = run_len(s);
        if 0 < n <= s.len() {
            seq![s.take(n as int)] + words(s.skip(n as int))
        } else {
            seq![]
        }
    }
}

/// The value of a string of decimal digits.
pub open spec fn digits_value(d: Seq<char>) -> int
    decreases d.len(),
{
    if d.len() == 0 {
        0
    } else {
        digits_value(d.drop_last()) * 10 + (d.last() as int - 48)
    }
}

/// Whether every character of `d` is a decimal digit.
pub open spec fn all_digits(d: Seq<char>) -> bool {
    forall|k: int| 0 <= k < d.len() ==> '0' <= #[trigger] d[k] && d[k] <= '9'
}

/// The number that `t` denotes as an unsigned byte, as Rust parses it: an
/// optional `+`, then at least one decimal digit, with a value up to 255.
pub open spec fn parse_byte(t: Seq<char>) -> Option<u8> {
    let d = if t.len() > 0 && t[0] == '+' { t.drop_first() } else { t };
    if d.len() > 0 && all_digits(d) && digits_value(d) <= 255 {
        Some(digits_value(d) as u8)
    } else {
        None
    }
}

/// Why a line is not a call request.
#[derive(Clone, Copy, Debug, PartialEq, Eq, Structural)]
pub enum LineError {
    /// The line does not have exactly two words.
    WrongFormat,
    /// The first word is not a floor number.
    InvalidFloor,
    /// The second word is not a button type number.
    InvalidCall,
}

/// What the line `s` requests.
pub open spec fn line_request(s: Seq<char>) -> Result<Call, LineError> {
    let w = words(s);
    if w.len() != 2 {
        Err(LineError::WrongFormat)
    } else if parse_byte(w[0]) is None {
        Err(LineError::InvalidFloor)
    } else if parse_byte(w[1]) is None {
        Err(LineError::InvalidCall)
    } else {
        Ok(Call { floor: parse_byte(w[0])->0, call: parse_byte(w[1])->0 })
    }
}

/// A run of non-whitespace characters from `i` up to a whitespace or the end
/// has the length that `run_len` gives.
proof fn lemma_run_len(s: Seq<char>, i: int, j: int)
    requires
        0 <= i <= j <= s.len(),
        forall|k: int| i <= k < j ==> !is_white_space(#[trigger] s[k]),
        j == s.len() || is_white_space(s[j]),
    ensures
        run_len(s.skip(i)) == j - i,
    decreases j - i,
{
    if i == j {
    } else {
        lemma_run_len(s, i + 1, j);
        assert(s.skip(i).drop_first() =~= s.skip(i + 1));
    }
}

/// The value of digits with one more digit at the end.
proof fn lemma_digits_step(d: Seq<char>, k: int)
    requires
        0 <= k < d.len(),
    ensures
        digits_value(d.take(k + 1)) == digits_value(d.take(k)) * 10 + (d[k] as int - 48),
{
    assert(d.take(k + 1).drop_last() =~= d.take(k));
}

/// Adding digits never makes the value smaller.
proof fn lemma_digits_grow(d: Seq<char>, k: int)
    requires
        0 <= k <= d.len(),
        all_digits(d),
    ensures
        digits_value(d.take(k)) <= digits_value(d),
        digits_value(d.take(k)) >= 0,
    decreases d.len() - k,
{
    if k == d.len() {
        assert(d.take(k) =~= d);
        lemma_digits_nonneg(d);
    } else {
        lemma_digits_step(d, k);
        lemma_digits_nonneg(d.take(k));
        assert('0' <= d[k]);
        lemma_digits_grow(d, k + 1);
        assert(d.take(k) =~= d.take(k));
    }
}

/// Digits have a value of at least zero.
proof fn lemma_digits_nonneg(d: Seq<char>)
    requires
        all_digits(d),
    ensures
        digits_value(d) >= 0,
    decreases d.len(),
{
    if d.len() > 0 {
        assert(all_digits(d.drop_last()));
        lemma_digits_nonneg(d.drop_last());
        assert('0' <= d[d.len() - 1]);
    }
}

/// Parses a word as an unsigned byte.
fn parse_word_byte(t: &Vec<char>) -> (r: Option<u8>)
    ensures
        r == parse_byte(t@),
{
    let n = t.len();
    let start: usize = if n > 0 && t[0] == '+' { 1 } else { 0 };
    let ghost d = if t@.len() > 0 && t@[0] == '+' { t@.drop_first() } else { t@ };
    if start >= n {
        assert(d.len() == 0);
        return None;
    }
    let mut value: u32 = 0;
    let mut i = start;
    while i < n
        invariant
            start <= i <= n,
            n == t@.len(),
            start == (if t@.len() > 0 && t@[0] == '+' { 1int } else { 0int }),
            d == t@.skip(start as int),
            all_digits(d.take(i - start)),
            value == digits_value(d.take(i - start)),
            value <= 255,
        decreases n - i,
    {
        let c = t[i];
        if !('0' <= c && c <= '9') {
            assert(d[i - start] == c);
            return None;
        }
        proof {
            lemma_digits_step(d, i - start);
            assert(d[i - start] == c);
            assert(all_digits(d.take(i - start + 1))) by {
                assert forall|k: int| 0 <= k < i - start + 1 implies '0' <= #[trigger] d.take(i - start + 1)[k]
                    && d.take(i - start + 1)[k] <= '9' by {
                    if k < i - start {
                        assert(d.take(i - start + 1)[k] == d.take(i - start)[k]);
                    }
                }
            }
        }
        let digit = (c as u32) - 48;
        let next = value * 10 + digit;
        if next > 255 {
            proof {
                assert(next == digits_value(d.take(i - start + 1)));
                if all_digits(d) {
                    lemma_digits_grow(d, i - start + 1);
                    assert(digits_value(d) > 255);
                }
                let d2 = if t@.len() > 0 && t@[0] == '+' { t@.drop_first() } else { t@ };
                assert(d2 == d);
                assert(parse_byte(t@) is None);
            }
            return None;
        }
        value = next;
        i = i + 1;
    }
    assert(d.take(n - start) =~= d);
    Some(value as u8)
}

/// Parses a line `<floor> <call>`: two words, each a decimal byte as Rust
/// parses `u8`, separated and surrounded by any whitespace.
pub fn parse_call_line(line: &str) -> (r: Result<Call, LineError>)
    ensures
        r == line_request(line@),
{
    let n = line.unicode_len();
    let mut chars: Vec<char> = Vec::new();
    for k in 0..n
        invariant
            n == line@.len(),
            chars@ == line@.take(k as int),
    {
        chars.push(line.get_char(k));
        assert(chars@ =~= line@.take(k + 1));
    }
    assert(chars@ =~= line@);
    let ghost s = line@;
    let mut toks: Vec<Vec<char>> = Vec::new();
    let mut i: usize = 0;
    while i < n
        invariant
            i <= n,
            n == s.len(),
            chars@ == s,
            toks@.map_values(|t: Vec<char>| t@) + words(s.skip(i as int)) == words(s),
        decreases n - i,
    {
        if white_space(chars[i]) {
            assert(s.skip(i as int).drop_first() =~= s.skip(i + 1));
            i = i + 1;
        } else {
            let mut j = i;
            let mut tok: Vec<char> = Vec::new();
            while j < n && !white_space(chars[j])
                invariant
                    i <= j <= n,
                    n == s.len(),
                    chars@ == s,
                    tok@ == s.subrange(i as int, j as int),
                    forall|k: int| i <= k < j ==> !is_white_space(#[trigger] s[k]),
                decreases n - j,
            {
                tok.push(chars[j]);
                assert(tok@ =~= s.subrange(i as int, j + 1));
                j = j + 1;
            }
            proof {
                lemma_run_len(s, i as int, j as int);
                let rest = s.skip(i as int);
                assert(!is_white_space(rest[0]));
                assert(rest.take(j - i) =~= s.subrange(i as int, j as int));
                assert(rest.skip(j - i) =~= s.skip(j as int));
                assert(words(rest) == seq![s.subrange(i as int, j as int)] + words(s.skip(j as int)));
            }
            let ghost before = toks@.map_values(|t: Vec<char>| t@);
            toks.push(tok);
            assert(toks@.map_values(|t: Vec<char>| t@) =~= before.push(s.subrange(i as int, j as int)));
            assert(before.push(s.subrange(i as int, j as int)) + words(s.skip(j as int))
                =~= before + (seq![s.subrange(i as int, j as int)] + words(s.skip(j as int))));
            i = j;
        }
    }
    assert(s.skip(n as int) =~= Seq::<char>::empty());
    assert(toks@.map_values(|t: Vec<char>| t@) =~= words(s));
    if toks.len() != 2 {
        return Err(LineError::WrongFormat);
    }
    let floor = match parse_word_byte(&toks[0]) {
        Some(v) => v,
        None => {
            return Err(LineError::InvalidFloor);
        },
    };
    let call = match parse_word_byte(&toks[1]) {
        Some(v) => v,
        None => {
            return Err(LineError::InvalidCall);
        },
    };
    Ok(Call { floor, call })
}

} // verus!
