//! Externally loaded configuration and command-line values, as plain
//! structures, and the parser for the dimension argument.
use vstd::prelude::*;

use crate::pixel::Pixel;

verus! {

use vstd::string::StrSliceExecFns;

/// CLI arguments.
pub struct Args {
    /// Image file path.
    pub fname: String,
    /// Optional new image dimensions.
    pub dims: Option<(u32, u32)>,
}

/// Brush configuration.
pub struct Brush {
    /// Name of the brush.
    pub name: String,
    /// Path to the brush image file.
    pub file: String,
    /// Quick ID (used to select the brush).
    pub quickid: char,
}

/// Main application config.
pub struct Config {
    /// Maximum number of operations in the undo buffer.
    pub max_undo: usize,
    /// Maximum number of operations in the redo buffer.
    pub max_redo: usize,
    /// Whether a fresh commit clears the redo buffer.
    pub clear_redo_on_commit: bool,
    /// List of available brushes.
    pub brushes: Vec<Brush>,
    /// Default paint colour.
    pub default_color: Pixel,
}

/// Why a dimension argument was rejected.
#[derive(Clone, Copy, Debug, PartialEq, Eq, Structural)]
pub enum DimsError {
    /// No separator between the width and the height.
    MissingSeparator,
    /// The width is not an unsigned decimal number in range.
    BadWidth,
    /// The height is not an unsigned decimal number in range.
    BadHeight,
}

/// Whether a character is a decimal digit.
pub open spec fn is_digit_char(c: char) -> bool {
    48 <= (c as u32) <= 57
}

/// The value of one decimal digit character.
pub open spec fn char_digit(c: char) -> int {
    (c as u32) - 48
}

/// Whether every character of the sequence is a decimal digit.
pub open spec fn all_digits(s: Seq<char>) -> bool {
    forall|i: int| 0 <= i < s.len() ==> is_digit_char(#[trigger] s[i])
}

/// The value of a sequence of decimal digit characters.
pub open spec fn digits_val(s: Seq<char>) -> int
    decreases s.len(),
{
    if s.len() == 0 {
        0
    } else {
        digits_val(s.drop_last()) * 10 + char_digit(s.last())
    }
}

/// The value of a digit sequence is never negative.
proof fn lemma_digits_val_nonneg(s: Seq<char>)
    requires
        all_digits(s),
    ensures
        digits_val(s) >= 0,
    decreases s.len(),
{
    if s.len() > 0 {
        assert(all_digits(s.drop_last())) by {
            assert(forall|i: int|
                0 <= i < s.len() - 1 ==> #[trigger] s.drop_last()[i] == s[i]);
        }
        lemma_digits_val_nonneg(s.drop_last());
    }
}

/// A digit sequence is worth at least any of its prefixes.
proof fn lemma_digits_prefix_le(s: Seq<char>, k: int)
    requires
        all_digits(s),
        0 <= k <= s.len(),
    ensures
        digits_val(s.take(k)) <= digits_val(s),
    decreases s.len() - k,
{
    if k == s.len() {
        assert(s.take(k) =~= s);
    } else {
        lemma_digits_prefix_le(s, k + 1);
        assert(s.take(k + 1).drop_last() =~= s.take(k));
        assert(s.take(k + 1).last() == s[k]);
        assert(all_digits(s.take(k))) by {
            assert(forall|i: int| 0 <= i < k ==> #[trigger] s.take(k)[i] == s[i]);
        }
        lemma_digits_val_nonneg(s.take(k));
        assert(digits_val(s.take(k)) <= digits_val(s.take(k)) * 10 + char_digit(s[k]))
            by (nonlinear_arith)
            requires
                digits_val(s.take(k)) >= 0,
                0 <= char_digit(s[k]),
        ;
    }
}

/// What an unsigned decimal number field parses to: its value where the
/// field is non-empty, all digits, and within the 32-bit range; nothing
/// otherwise.
pub open spec fn parse_u32_spec(s: Seq<char>) -> Option<u32> {
    if s.len() >= 1 && all_digits(s) && digits_val(s) <= u32::MAX {
        Some(digits_val(s) as u32)
    } else {
        None
    }
}

/// The index of the first occurrence of a character.
pub open spec fn find_char(s: Seq<char>, c: char) -> Option<int>
    decreases s.len(),
{
    if s.len() == 0 {
        None
    } else if s[0] == c {
        Some(0)
    } else {
        match find_char(s.skip(1), c) {
            Some(i) => Some(i + 1),
            None => None,
        }
    }
}

/// If position `i` holds `c` and no earlier position does, the first
/// occurrence of `c` is at `i`.
proof fn lemma_find_char_at(s: Seq<char>, c: char, i: int)
    requires
        0 <= i < s.len(),
        s[i] == c,
        forall|j: int| 0 <= j < i ==> s[j] != c,
    ensures
        find_char(s, c) == Some(i),
    decreases i,
{
    if i > 0 {
        assert(s[0] != c);
        assert(s.skip(1)[i - 1] == s[i]);
        assert(forall|j: int| 0 <= j < i - 1 ==> #[trigger] s.skip(1)[j] == s[j + 1]);
        lemma_find_char_at(s.skip(1), c, i - 1);
    }
}

/// If no position holds `c`, there is no first occurrence.
proof fn lemma_find_char_none(s: Seq<char>, c: char)
    requires
        forall|j: int| 0 <= j < s.len() ==> s[j] != c,
    ensures
        find_char(s, c) is None,
    decreases s.len(),
{
    if s.len() > 0 {
        assert(forall|j: int| 0 <= j < s.len() - 1 ==> #[trigger] s.skip(1)[j] == s[j + 1]);
        lemma_find_char_none(s.skip(1), c);
    }
}

/// What a dimension argument parses to: the text before the first `x` as
/// the width and the text after it as the height, each an unsigned
/// decimal number.
pub open spec fn parse_dims_spec(s: Seq<char>) -> Result<(u32, u32), DimsError> {
    match find_char(s, 'x') {
        None => Err(DimsError::MissingSeparator),
        Some(i) => match parse_u32_spec(s.take(i)) {
            None => Err(DimsError::BadWidth),
            Some(w) => match parse_u32_spec(s.skip(i + 1)) {
                None => Err(DimsError::BadHeight),
                Some(h) => Ok((w, h)),
            },
        },
    }
}

/// Parse an optional image dimension argument in the form WIDTHxHEIGHT.
pub fn parse_dims(s: &str) -> (out: Result<(u32, u32), DimsError>)
    ensures
        out == parse_dims_spec(s@),
{
    let n = s.unicode_len();
    let mut i: usize = 0;
    while i < n
        invariant
            i <= n,
            n == s@.len(),
            forall|j: int| 0 <= j < i ==> s@[j] != 'x',
        decreases n - i,
    {
        if s.get_char(i) == 'x' {
            proof {
                lemma_find_char_at(s@, 'x', i as int);
            }
            let w = match parse_u32_field(s, 0, i) {
                Some(w) => w,
                None => {
                    proof {
                        assert(s@.subrange(0, i as int) =~= s@.take(i as int));
                    }
                    return Err(DimsError::BadWidth);
                },
            };
            proof {
                assert(s@.subrange(0, i as int) =~= s@.take(i as int));
            }
            let h = match parse_u32_field(s, i + 1, n) {
                Some(h) => h,
                None => {
                    proof {
                        assert(s@.subrange(i + 1 as int, n as int) =~= s@.skip(i + 1));
                    }
                    return Err(DimsError::BadHeight);
                },
            };
            proof {
                assert(s@.subrange(i + 1 as int, n as int) =~= s@.skip(i + 1));
            }
            return Ok((w, h));
        }
        i += 1;
    }
    proof {
        lemma_find_char_none(s@, 'x');
    }
    Err(DimsError::MissingSeparator)
}

/// Parse the characters of `s` between `from` and `to` as an unsigned
/// decimal number.
fn parse_u32_field(s: &str, from: usize, to: usize) -> (out: Option<u32>)
    requires
        from <= to <= s@.len(),
    ensures
        out == parse_u32_spec(s@.subrange(from as int, to as int)),
{
    let ghost field = s@.subrange(from as int, to as int);
    if from == to {
        return None;
    }
    let mut val: u64 = 0;
    let mut i: usize = from;
    while i < to
        invariant
            from <= i <= to <= s@.len(),
            field == s@.subrange(from as int, to as int),
            val <= u32::MAX,
            forall|j: int| 0 <= j < i - from ==> is_digit_char(#[trigger] field[j]),
            val == digits_val(field.take(i - from)),
        decreases to - i,
    {
        let c = s.get_char(i);
        let cu = c as u32;
        proof {
            assert(field[i - from] == s@[i as int]);
        }
        if cu < 48 || cu > 57 {
            proof {
                assert(!is_digit_char(field[i - from]));
            }
            return None;
        }
        let d: u64 = (cu - 48) as u64;
        let nv: u64 = val * 10 + d;
        proof {
            assert(field.take(i - from + 1).drop_last() =~= field.take(i - from));
            assert(field.take(i - from + 1).last() == field[i - from]);
        }
        if nv > 0xFFFF_FFFFu64 {
            proof {
                if all_digits(field) {
                    lemma_digits_prefix_le(field, i - from + 1);
                }
            }
            return None;
        }
        val = nv;
        i += 1;
    }
    proof {
        assert(field.take(to - from) =~= field);
    }
    Some(val as u32)
}

} // verus!
