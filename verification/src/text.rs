//! Verified text utilities for the tournament file format: whitespace
//! trimming, string equality, splitting on colons, and decimal `i32`
//! parsing.  Each executable function is proved against a specification
//! function over the string's view (`Seq<char>`).

use vstd::prelude::*;

verus! {

/// The whitespace characters that line trimming removes from both ends.
pub open spec fn is_space(c: char) -> bool {
    c == ' ' || c == '\t' || c == '\n' || c == '\r'
}

/// A line with whitespace removed from both ends.
pub open spec fn spec_trim(s: Seq<char>) -> Seq<char>
    decreases s.len(),
{
    if s.len() > 0 && is_space(s[0]) {
        spec_trim(s.drop_first())
    } else if s.len() > 0 && is_space(s[s.len() - 1]) {
        spec_trim(s.drop_last())
    } else {
        s
    }
}

fn is_space_char(c: char) -> (r: bool)
    ensures
        r == is_space(c),
{
    c == ' ' || c == '\t' || c == '\n' || c == '\r'
}

/// Removes the whitespace at both ends of `s`.
#[verifier::loop_isolation(false)]
pub fn trim_str(s: &str) -> (r: &str)
    ensures
        r@ == spec_trim(s@),
{
    let n = s.unicode_len();
    proof {
        assert(s@.subrange(0, n as int) =~= s@);
    }
    let mut lo: usize = 0;
    while lo < n && is_space_char(s.get_char(lo))
        invariant
            lo <= n,
            spec_trim(s@) == spec_trim(s@.subrange(lo as int, n as int)),
        decreases n - lo,
    {
        proof {
            assert(s@.subrange(lo as int, n as int).drop_first() =~= s@.subrange(
                lo + 1,
                n as int,
            ));
        }
        lo = lo + 1;
    }
    let mut hi: usize = n;
    while hi > lo && is_space_char(s.get_char(hi - 1))
        invariant
            lo <= hi <= n,
            lo == n || !is_space(s@[lo as int]),
            spec_trim(s@) == spec_trim(s@.subrange(lo as int, hi as int)),
        decreases hi,
    {
        proof {
            assert(s@.subrange(lo as int, hi as int).drop_last() =~= s@.subrange(
                lo as int,
                hi - 1,
            ));
        }
        hi = hi - 1;
    }
    let r = s.substring_char(lo, hi);
    proof {
        assert(spec_trim(s@.subrange(lo as int, hi as int)) == s@.subrange(lo as int, hi as int));
    }
    r
}

/// String equality, decided character by character.
#[verifier::loop_isolation(false)]
pub fn str_eq(a: &str, b: &str) -> (r: bool)
    ensures
        r == (a@ == b@),
{
    let n = a.unicode_len();
    if n != b.unicode_len() {
        return false;
    }
    let mut i: usize = 0;
    while i < n
        invariant
            i <= n,
            n == b@.len(),
            forall|j: int| 0 <= j < i ==> a@[j] == b@[j],
        decreases n - i,
    {
        if a.get_char(i) != b.get_char(i) {
            return false;
        }
        i = i + 1;
    }
    proof {
        assert(a@ =~= b@);
    }
    true
}

/// Position of the first `':'` in `s`, if any.
pub open spec fn first_colon(s: Seq<char>) -> Option<int>
    decreases s.len(),
{
    if s.len() == 0 {
        None
    } else if s[0] == ':' {
        Some(0 as int)
    } else {
        match first_colon(s.drop_first()) {
            None => None,
            Some(i) => Some(i + 1),
        }
    }
}

/// `first_colon` returns exactly the least index holding `':'`.
pub proof fn lemma_first_colon(s: Seq<char>)
    ensures
        match first_colon(s) {
            None => forall|k: int| 0 <= k < s.len() ==> s[k] != ':',
            Some(i) => 0 <= i < s.len() && s[i] == ':' && (forall|k: int| 0 <= k < i ==> s[k] != ':'),
        },
    decreases s.len(),
{
    if s.len() == 0 {
    } else if s[0] == ':' {
    } else {
        lemma_first_colon(s.drop_first());
        match first_colon(s.drop_first()) {
            None => {
                assert forall|k: int| 0 <= k < s.len() implies s[k] != ':' by {
                    if k > 0 {
                        assert(s.drop_first()[k - 1] == s[k]);
                    }
                }
            },
            Some(i) => {
                assert(s.drop_first()[i] == s[i + 1]);
                assert forall|k: int| 0 <= k < i + 1 implies s[k] != ':' by {
                    if k > 0 {
                        assert(s.drop_first()[k - 1] == s[k]);
                    }
                }
            },
        }
    }
}

/// Finds the first `':'` at or after position `from`.
#[verifier::loop_isolation(false)]
pub fn find_colon_from(s: &str, from: usize) -> (r: Option<usize>)
    requires
        from <= s@.len(),
    ensures
        match r {
            None => first_colon(s@.skip(from as int)) == None::<int>,
            Some(j) => from <= j < s@.len() && first_colon(s@.skip(from as int)) == Some(
                j - from,
            ),
        },
{
    let n = s.unicode_len();
    let mut k: usize = from;
    while k < n
        invariant
            from <= k <= n,
            forall|m: int| from <= m < k ==> s@[m] != ':',
        decreases n - k,
    {
        if s.get_char(k) == ':' {
            proof {
                lemma_first_colon(s@.skip(from as int));
                assert(s@.skip(from as int)[k - from] == s@[k as int]);
                assert forall|m: int| 0 <= m < k - from implies s@.skip(from as int)[m] != ':' by {
                    assert(s@.skip(from as int)[m] == s@[m + from]);
                }
            }
            return Some(k);
        }
        k = k + 1;
    }
    proof {
        lemma_first_colon(s@.skip(from as int));
        if first_colon(s@.skip(from as int)) is Some {
            let i = first_colon(s@.skip(from as int)).unwrap();
            assert(s@.skip(from as int)[i] == s@[i + from]);
        }
    }
    None
}

/// Splits `s` at `':'` into at most `n` fields, from the left; the last
/// field keeps any remaining colons.
pub open spec fn splitn_colon(s: Seq<char>, n: nat) -> Seq<Seq<char>>
    decreases n,
{
    if n <= 1 {
        seq![s]
    } else {
        match first_colon(s) {
            None => seq![s],
            Some(i) => seq![s.take(i)] + splitn_colon(s.skip(i + 1), (n - 1) as nat),
        }
    }
}

/// Splits `s` into at most five colon-separated fields, the way a player
/// result line is divided.
#[verifier::loop_isolation(false)]
pub fn split5(s: &str) -> (parts: Vec<String>)
    ensures
        parts.deep_view() == splitn_colon(s@, 5),
        1 <= parts@.len() <= 5,
{
    let n = s.unicode_len();
    let mut parts: Vec<String> = Vec::new();
    proof {
        assert(s@.skip(0) =~= s@);
        assert(parts.deep_view() + splitn_colon(s@, 5) =~= splitn_colon(s@, 5));
    }
    let mut pos: usize = 0;
    let mut no_more: bool = false;
    while !no_more && parts.len() < 4
        invariant
            pos <= n,
            parts@.len() <= 4,
            no_more ==> first_colon(s@.skip(pos as int)) == None::<int>,
            splitn_colon(s@, 5) == parts.deep_view() + splitn_colon(
                s@.skip(pos as int),
                (5 - parts@.len()) as nat,
            ),
        decreases n - pos + (if no_more { 0 as int } else { 1 as int }),
    {
        match find_colon_from(s, pos) {
            None => {
                no_more = true;
            },
            Some(j) => {
                let ghost old_parts = parts.deep_view();
                let ghost m = (5 - parts@.len()) as nat;
                let field = s.substring_char(pos, j).to_owned();
                proof {
                    assert(s@.skip(pos as int).take(j - pos) =~= s@.subrange(pos as int, j as int));
                    assert(s@.skip(pos as int).skip(j - pos + 1) =~= s@.skip(j + 1));
                    assert(splitn_colon(s@.skip(pos as int), m) == seq![field@] + splitn_colon(
                        s@.skip(j + 1),
                        (m - 1) as nat,
                    ));
                }
                parts.push(field);
                pos = j + 1;
                proof {
                    assert(parts.deep_view() =~= old_parts + seq![field@]);
                    assert((old_parts + seq![field@]) + splitn_colon(
                        s@.skip(pos as int),
                        (5 - parts@.len()) as nat,
                    ) =~= old_parts + (seq![field@] + splitn_colon(
                        s@.skip(pos as int),
                        (5 - parts@.len()) as nat,
                    )));
                }
            },
        }
    }
    let ghost old_parts = parts.deep_view();
    let last = s.substring_char(pos, n).to_owned();
    parts.push(last);
    proof {
        assert(s@.skip(pos as int) =~= s@.subrange(pos as int, n as int));
        assert(splitn_colon(s@.skip(pos as int), (5 - old_parts.len()) as nat) == seq![last@]);
        assert(parts.deep_view() =~= old_parts + seq![last@]);
    }
    parts
}

/// Whether `c` is a decimal digit.
pub open spec fn is_digit(c: char) -> bool {
    48 <= c as u32 <= 57
}

/// The numeric value of a decimal digit.
pub open spec fn digit_val(c: char) -> int {
    c as u32 - 48
}

/// All characters of `s` are decimal digits.
pub open spec fn all_digits(s: Seq<char>) -> bool {
    forall|i: int| 0 <= i < s.len() ==> is_digit(s[i])
}

/// The value of a string of decimal digits, most significant first.
pub open spec fn digits_val(s: Seq<char>) -> int
    decreases s.len(),
{
    if s.len() == 0 {
        0
    } else {
        digits_val(s.drop_last()) * 10 + digit_val(s.last())
    }
}

/// The value of a digit string is never negative.
pub proof fn lemma_digits_val_nonneg(s: Seq<char>)
    requires
        all_digits(s),
    ensures
        digits_val(s) >= 0,
    decreases s.len(),
{
    if s.len() > 0 {
        assert(all_digits(s.drop_last()));
        lemma_digits_val_nonneg(s.drop_last());
    }
}

/// Extending a digit string never lowers its value.
pub proof fn lemma_digits_val_prefix(s: Seq<char>, k: int)
    requires
        all_digits(s),
        0 <= k <= s.len(),
    ensures
        digits_val(s) >= digits_val(s.take(k)),
    decreases s.len() - k,
{
    if k < s.len() {
        assert(s.take(k + 1).drop_last() =~= s.take(k));
        assert(s.take(k + 1).last() == s[k]);
        assert(all_digits(s.take(k)));
        lemma_digits_val_nonneg(s.take(k));
        assert(digits_val(s.take(k + 1)) == digits_val(s.take(k)) * 10 + digit_val(s[k]));
        lemma_digits_val_prefix(s, k + 1);
    } else {
        assert(s.take(k) =~= s);
    }
}

/// The result of reading `s` as a decimal `i32`: an optional sign followed
/// by at least one digit, with the value in the `i32` range.
pub open spec fn spec_parse_i32(s: Seq<char>) -> Option<int> {
    let neg = s.len() > 0 && s[0] == '-';
    let body = if s.len() > 0 && (s[0] == '-' || s[0] == '+') {
        s.drop_first()
    } else {
        s
    };
    if body.len() > 0 && all_digits(body) {
        let v = if neg {
            -digits_val(body)
        } else {
            digits_val(body)
        };
        if -0x8000_0000 <= v <= 0x7fff_ffff {
            Some(v)
        } else {
            None
        }
    } else {
        None
    }
}

/// Reads `s` as a decimal `i32`, returning `None` exactly when `s` is not
/// an optional sign followed by digits, or the value does not fit.
#[verifier::loop_isolation(false)]
pub fn parse_i32_str(s: &str) -> (r: Option<i32>)
    ensures
        match r {
            Some(v) => spec_parse_i32(s@) == Some(v as int),
            None => spec_parse_i32(s@) == None::<int>,
        },
{
    let n = s.unicode_len();
    let mut idx: usize = 0;
    let mut neg: bool = false;
    if n > 0 {
        let c0 = s.get_char(0);
        if c0 == '-' {
            neg = true;
            idx = 1;
        } else if c0 == '+' {
            idx = 1;
        }
    }
    let ghost body = if neg || idx == 1 {
        s@.drop_first()
    } else {
        s@
    };
    proof {
        assert(body =~= s@.subrange(idx as int, n as int));
    }
    if idx >= n {
        return None;
    }
    let mut acc: u64 = 0;
    let mut i: usize = idx;
    while i < n
        invariant
            idx <= i <= n,
            acc <= 0x8000_0000,
            acc as int == digits_val(s@.subrange(idx as int, i as int)),
            all_digits(s@.subrange(idx as int, i as int)),
        decreases n - i,
    {
        let c = s.get_char(i);
        let v = c as u32;
        if v < 48 || v > 57 {
            proof {
                assert(body[i - idx] == s@[i as int]);
                assert(!all_digits(body));
            }
            return None;
        }
        let d = (v - 48) as u64;
        let new_acc = acc * 10 + d;
        proof {
            assert(s@.subrange(idx as int, i + 1).drop_last() =~= s@.subrange(idx as int, i as int));
            assert(s@.subrange(idx as int, i + 1).last() == s@[i as int]);
            assert(all_digits(s@.subrange(idx as int, i + 1)));
        }
        if new_acc > 0x8000_0000 {
            proof {
                if all_digits(body) {
                    assert(body.take(i + 1 - idx) =~= s@.subrange(idx as int, i + 1));
                    lemma_digits_val_prefix(body, i + 1 - idx);
                }
            }
            return None;
        }
        acc = new_acc;
        i = i + 1;
    }
    proof {
        assert(s@.subrange(idx as int, n as int) =~= body);
    }
    if neg {
        let v64: i64 = -(acc as i64);
        Some(v64 as i32)
    } else {
        if acc > 0x7fff_ffff {
            return None;
        }
        Some(acc as i32)
    }
}

} // verus!
