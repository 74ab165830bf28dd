use vstd::prelude::*;
use vstd::slice::slice_subrange;

verus! {

/// Comma, the separator between the fields of a probe description.
pub const COMMA: u8 = 44;

/// Lowercase `x`, the separator inside a `WIDTH x HEIGHT` field.
pub const SEP_X: u8 = 120;

/// ASCII plus sign, accepted in front of a number.
pub const PLUS: u8 = 43;

/// ASCII whitespace, trimmed around each number.
pub open spec fn is_space(b: u8) -> bool {
    b == 32 || b == 9 || b == 10 || b == 11 || b == 12 || b == 13
}

/// An ASCII decimal digit.
pub open spec fn is_digit(b: u8) -> bool {
    48 <= b <= 57
}

/// The first occurrence of `b` in `s`, if any.
pub open spec fn first_idx(s: Seq<u8>, b: u8) -> Option<int>
    decreases s.len(),
{
    if s.len() == 0 {
        None
    } else if s[0] == b {
        Some(0int)
    } else {
        match first_idx(s.drop_first(), b) {
            Some(i) => Some(i + 1),
            None => None,
        }
    }
}

/// The bytes of `s` with leading ASCII whitespace removed.
pub open spec fn trim_front(s: Seq<u8>) -> Seq<u8>
    decreases s.len(),
{
    if s.len() > 0 && is_space(s[0]) {
        trim_front(s.drop_first())
    } else {
        s
    }
}

/// The bytes of `s` with trailing ASCII whitespace removed.
pub open spec fn trim_back(s: Seq<u8>) -> Seq<u8>
    decreases s.len(),
{
    if s.len() > 0 && is_space(s.last()) {
        trim_back(s.drop_last())
    } else {
        s
    }
}

/// The bytes of `s` with ASCII whitespace removed on both sides.
pub open spec fn spec_trim(s: Seq<u8>) -> Seq<u8> {
    trim_back(trim_front(s))
}

pub open spec fn all_digits(s: Seq<u8>) -> bool {
    forall|i: int| 0 <= i < s.len() ==> is_digit(s[i])
}

/// The value of a string of decimal digits.
pub open spec fn digits_val(s: Seq<u8>) -> int
    decreases s.len(),
{
    if s.len() == 0 {
        0
    } else {
        digits_val(s.drop_last()) * 10 + (s.last() - 48)
    }
}

/// What parsing an unsigned number and defaulting to zero yields: an
/// optional plus sign, then at least one digit, with a value that fits in
/// 32 bits; anything else is zero.
pub open spec fn parse_u32_or_zero(s: Seq<u8>) -> u32 {
    let body = if s.len() > 0 && s[0] == PLUS {
        s.drop_first()
    } else {
        s
    };
    if body.len() > 0 && all_digits(body) && digits_val(body) <= u32::MAX {
        digits_val(body) as u32
    } else {
        0
    }
}

/// One comma-separated field of the description, scanned for a
/// `WIDTH x HEIGHT` pair: a field without exactly one `x` changes nothing;
/// otherwise both sides are trimmed and parsed (zero on failure), and the
/// scan is done when both came out nonzero.
pub open spec fn scan_token(tok: Seq<u8>, w: u32, h: u32) -> (u32, u32, bool) {
    match first_idx(tok, SEP_X) {
        None => (w, h, false),
        Some(xi) => {
            if first_idx(tok.skip(xi + 1), SEP_X) is Some {
                (w, h, false)
            } else {
                let nw = parse_u32_or_zero(spec_trim(tok.take(xi)));
                let nh = parse_u32_or_zero(spec_trim(tok.skip(xi + 1)));
                (nw, nh, nw != 0 && nh != 0)
            }
        },
    }
}

/// The scan over the whole description, field by field, carrying the last
/// assigned pair; it stops early when a field yields two nonzero numbers.
pub open spec fn scan_analysis(s: Seq<u8>, w: u32, h: u32) -> (u32, u32)
    decreases s.len(),
    via scan_analysis_decreases
{
    match first_idx(s, COMMA) {
        None => {
            let t = scan_token(s, w, h);
            (t.0, t.1)
        },
        Some(ci) => {
            let t = scan_token(s.take(ci), w, h);
            if t.2 {
                (t.0, t.1)
            } else {
                scan_analysis(s.skip(ci + 1), t.0, t.1)
            }
        },
    }
}

#[via_fn]
proof fn scan_analysis_decreases(s: Seq<u8>, w: u32, h: u32) {
    lemma_first_idx(s, COMMA);
}

/// The dimensions a probe description yields: the last `WIDTH x HEIGHT`
/// field assigned by the scan, or zeros when none was.
pub open spec fn spec_parse_dimensions(s: Seq<u8>) -> (u32, u32) {
    scan_analysis(s, 0, 0)
}

/// `first_idx` finds an occurrence, and the first one.
pub proof fn lemma_first_idx(s: Seq<u8>, b: u8)
    ensures
        match first_idx(s, b) {
            Some(i) => 0 <= i < s.len() && s[i] == b && (forall|k: int|
                0 <= k < i ==> s[k] != b),
            None => forall|k: int| 0 <= k < s.len() ==> s[k] != b,
        },
    decreases s.len(),
{
    if s.len() == 0 {
    } else if s[0] == b {
    } else {
        lemma_first_idx(s.drop_first(), b);
        match first_idx(s.drop_first(), b) {
            Some(j) => {
                assert(s[j + 1] == s.drop_first()[j]);
                assert forall|k: int| 0 <= k < j + 1 implies s[k] != b by {
                    if k >= 1 {
                        assert(s[k] == s.drop_first()[k - 1]);
                    }
                }
            },
            None => {
                assert forall|k: int| 0 <= k < s.len() implies s[k] != b by {
                    if k >= 1 {
                        assert(s[k] == s.drop_first()[k - 1]);
                    }
                }
            },
        }
    }
}

/// The value of a digit string is nonnegative.
proof fn lemma_digits_val_nonneg(s: Seq<u8>)
    requires
        all_digits(s),
    ensures
        digits_val(s) >= 0,
    decreases s.len(),
{
    if s.len() > 0 {
        assert(all_digits(s.drop_last()));
        lemma_digits_val_nonneg(s.drop_last());
    }
}

/// The value of a digit string is at least the value of any prefix.
proof fn lemma_digits_val_grows(s: Seq<u8>, i: int)
    requires
        all_digits(s),
        0 <= i <= s.len(),
    ensures
        digits_val(s) >= digits_val(s.take(i)),
    decreases s.len() - i,
{
    if i == s.len() {
        assert(s.take(i) =~= s);
    } else {
        assert(s.take(i + 1).drop_last() =~= s.take(i));
        assert(s.take(i + 1).last() == s[i]);
        assert(all_digits(s.take(i)));
        lemma_digits_val_nonneg(s.take(i));
        lemma_digits_val_grows(s, i + 1);
    }
}

fn is_space_exec(b: u8) -> (r: bool)
    ensures
        r == is_space(b),
{
    b == 32 || b == 9 || b == 10 || b == 11 || b == 12 || b == 13
}

fn first_idx_exec(s: &[u8], b: u8) -> (r: Option<usize>)
    ensures
        r matches Some(i) ==> first_idx(s@, b) == Some(i as int) && i < s@.len(),
        r is None ==> first_idx(s@, b) is None,
    decreases s@.len(),
{
    if s.len() == 0 {
        None
    } else if s[0] == b {
        Some(0)
    } else {
        let rest = slice_subrange(s, 1, s.len());
        proof {
            assert(rest@ =~= s@.drop_first());
        }
        match first_idx_exec(rest, b) {
            Some(i) => Some(i + 1),
            None => None,
        }
    }
}

fn trim_front_exec<'a>(s: &'a [u8]) -> (r: &'a [u8])
    ensures
        r@ == trim_front(s@),
    decreases s@.len(),
{
    if s.len() > 0 && is_space_exec(s[0]) {
        let rest = slice_subrange(s, 1, s.len());
        proof {
            assert(rest@ =~= s@.drop_first());
        }
        trim_front_exec(rest)
    } else {
        s
    }
}

fn trim_back_exec<'a>(s: &'a [u8]) -> (r: &'a [u8])
    ensures
        r@ == trim_back(s@),
    decreases s@.len(),
{
    if s.len() > 0 && is_space_exec(s[s.len() - 1]) {
        let rest = slice_subrange(s, 0, s.len() - 1);
        proof {
            assert(rest@ =~= s@.drop_last());
        }
        trim_back_exec(rest)
    } else {
        s
    }
}

fn trim_exec<'a>(s: &'a [u8]) -> (r: &'a [u8])
    ensures
        r@ == spec_trim(s@),
{
    trim_back_exec(trim_front_exec(s))
}

/// Parses a trimmed field half as the scan does: an optional plus sign,
/// then digits; zero on an empty body, a stray byte, or 32-bit overflow.
#[verifier::loop_isolation(false)]
fn parse_u32_exec(s: &[u8]) -> (r: u32)
    ensures
        r == parse_u32_or_zero(s@),
{
    let body: &[u8] = if s.len() > 0 && s[0] == PLUS {
        let rest = slice_subrange(s, 1, s.len());
        proof {
            assert(rest@ =~= s@.drop_first());
        }
        rest
    } else {
        s
    };
    if body.len() == 0 {
        return 0;
    }
    let mut i: usize = 0;
    while i < body.len()
        invariant
            0 <= i <= body@.len(),
            forall|k: int| 0 <= k < i ==> is_digit(body@[k]),
        decreases body@.len() - i,
    {
        let b = body[i];
        if b < 48 || b > 57 {
            return 0;
        }
        i = i + 1;
    }
    let mut acc: u64 = 0;
    let mut j: usize = 0;
    while j < body.len()
        invariant
            0 <= j <= body@.len(),
            all_digits(body@),
            acc == digits_val(body@.take(j as int)),
            acc <= u32::MAX,
        decreases body@.len() - j,
    {
        proof {
            assert(body@.take(j + 1).drop_last() =~= body@.take(j as int));
            assert(body@.take(j + 1).last() == body@[j as int]);
        }
        let d = body[j];
        let next: u64 = acc * 10 + ((d - 48) as u64);
        if next > (u32::MAX as u64) {
            proof {
                lemma_digits_val_grows(body@, j + 1);
            }
            return 0;
        }
        acc = next;
        j = j + 1;
    }
    proof {
        assert(body@.take(body@.len() as int) =~= body@);
    }
    acc as u32
}

/// One comma-separated field, as the scan sees it.
fn scan_token_exec(tok: &[u8], w: u32, h: u32) -> (r: (u32, u32, bool))
    ensures
        r == scan_token(tok@, w, h),
{
    match first_idx_exec(tok, SEP_X) {
        None => (w, h, false),
        Some(xi) => {
            let n = tok.len();
            let after = slice_subrange(tok, xi + 1, n);
            proof {
                assert(after@ =~= tok@.skip(xi + 1));
            }
            match first_idx_exec(after, SEP_X) {
                Some(_) => (w, h, false),
                None => {
                    let left = slice_subrange(tok, 0, xi);
                    proof {
                        assert(left@ =~= tok@.take(xi as int));
                    }
                    let nw = parse_u32_exec(trim_exec(left));
                    let nh = parse_u32_exec(trim_exec(after));
                    (nw, nh, nw != 0 && nh != 0)
                },
            }
        },
    }
}

/// Scans a probe description, given as bytes, for the image's pixel
/// dimensions: the description is split at commas, and the first field
/// holding a `WIDTH x HEIGHT` pair with both numbers nonzero decides;
/// fields with a malformed pair leave their partial numbers behind, as the
/// returned pair, when no later field decides. Zeros mean the probe found
/// no usable dimensions. Only ASCII whitespace is trimmed around the
/// numbers: a pair glued together by other blank characters does not
/// parse.
pub fn parse_dimensions(analysis: &[u8]) -> (r: (u32, u32))
    ensures
        r == spec_parse_dimensions(analysis@),
{
    parse_dimensions_from(analysis, 0, 0)
}

fn parse_dimensions_from(s: &[u8], w: u32, h: u32) -> (r: (u32, u32))
    ensures
        r == scan_analysis(s@, w, h),
    decreases s@.len(),
{
    match first_idx_exec(s, COMMA) {
        None => {
            let t = scan_token_exec(s, w, h);
            (t.0, t.1)
        },
        Some(ci) => {
            let tok = slice_subrange(s, 0, ci);
            proof {
                assert(tok@ =~= s@.take(ci as int));
            }
            let t = scan_token_exec(tok, w, h);
            if t.2 {
                (t.0, t.1)
            } else {
                let n = s.len();
                let rest = slice_subrange(s, ci + 1, n);
                proof {
                    assert(rest@ =~= s@.skip(ci + 1));
                }
                parse_dimensions_from(rest, t.0, t.1)
            }
        },
    }
}

} // verus!
