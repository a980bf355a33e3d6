//! Verified text utilities: decimal parsing and rendering for space labels
//! of the form `s<k>`, string equality, and substring search (used to
//! recognize the daemon's error messages).

use vstd::prelude::*;
use vstd::string::StrSliceExecFns;
use vstd::string::StringExecFns;

verus! {

/// A decimal digit `'0'..='9'`.
pub open spec fn is_dec_digit(c: char) -> bool {
    48 <= c as u32 && c as u32 <= 57
}

/// Numeric value of a decimal digit character.
pub open spec fn digit_val(c: char) -> int {
    c as u32 - 48
}

/// The character for a digit value in `0..=9`.
pub open spec fn digit_char(d: int) -> char {
    if d == 0 {
        '0'
    } else if d == 1 {
        '1'
    } else if d == 2 {
        '2'
    } else if d == 3 {
        '3'
    } else if d == 4 {
        '4'
    } else if d == 5 {
        '5'
    } else if d == 6 {
        '6'
    } else if d == 7 {
        '7'
    } else if d == 8 {
        '8'
    } else {
        '9'
    }
}

pub open spec fn all_dec_digits(s: Seq<char>) -> bool {
    forall|i: int| 0 <= i < s.len() ==> is_dec_digit(#[trigger] s[i])
}

/// Value of a digit string, most significant digit first.
pub open spec fn dec_val(s: Seq<char>) -> int
    decreases s.len(),
{
    if s.len() == 0 {
        0
    } else {
        dec_val(s.drop_last()) * 10 + digit_val(s.last())
    }
}

/// The canonical decimal rendering of `n` (no leading zeros, except `"0"`).
pub open spec fn spec_dec_digits(n: nat) -> Seq<char>
    decreases n,
{
    if n < 10 {
        seq![digit_char(n as int)]
    } else {
        spec_dec_digits(n / 10) + seq![digit_char((n % 10) as int)]
    }
}

/// What `label_index` yields on a label: the integer suffix of a label of
/// the form `s<digits>`, if it fits in a `u32`.
pub open spec fn spec_label_index(s: Seq<char>) -> Option<u32> {
    let digits = s.subrange(1, s.len() as int);
    if s.len() >= 2 && s[0] == 's' && all_dec_digits(digits) && 0 <= dec_val(digits)
        && dec_val(digits) <= u32::MAX {
        Some(dec_val(digits) as u32)
    } else {
        None
    }
}

/// The label string `s<k>`.
pub open spec fn spec_label(k: u32) -> Seq<char> {
    seq!['s'] + spec_dec_digits(k as nat)
}

/// What `parse_u32` yields: the value of a non-empty all-digit string, if
/// it fits in a `u32`.
pub open spec fn spec_parse_u32(s: Seq<char>) -> Option<u32> {
    if s.len() >= 1 && all_dec_digits(s) && 0 <= dec_val(s) && dec_val(s) <= u32::MAX {
        Some(dec_val(s) as u32)
    } else {
        None
    }
}

/// Parse the integer suffix of a label beginning with `s`; any other
/// string (including one whose suffix overflows a `u32`) yields `None`.
pub fn parse_label_index(s: &str) -> (r: Option<u32>)
    ensures
        r == spec_label_index(s@),
{
    let len: usize = s.unicode_len();
    if len < 2 {
        return None;
    }
    if s.get_char(0) != 's' {
        return None;
    }
    let mut i: usize = 1;
    let mut acc: u64 = 0;
    let mut over: bool = false;
    while i < len
        invariant
            1 <= i <= len,
            len == s@.len(),
            s@[0] == 's',
            2 <= len,
            all_dec_digits(s@.subrange(1, i as int)),
            over ==> dec_val(s@.subrange(1, i as int)) > u32::MAX,
            !over ==> acc == dec_val(s@.subrange(1, i as int)) && acc <= u32::MAX,
        decreases len - i,
    {
        let c = s.get_char(i);
        let cu = c as u32;
        if cu < 48 || cu > 57 {
            assert(!is_dec_digit(s@[i as int]));
            assert(s@.subrange(1, len as int)[i - 1] == s@[i as int]);
            return None;
        }
        let d: u64 = (cu - 48) as u64;
        proof {
            let prefix = s@.subrange(1, i as int);
            let next = s@.subrange(1, i + 1);
            assert(next.drop_last() =~= prefix);
            assert(next.last() == s@[i as int]);
        }
        if over {
        } else {
            let newacc: u64 = acc * 10 + d;
            if newacc > u32::MAX as u64 {
                over = true;
            } else {
                acc = newacc;
            }
        }
        i = i + 1;
    }
    proof {
        assert(s@.subrange(1, len as int) =~= s@.subrange(1, i as int));
    }
    if over {
        None
    } else {
        Some(acc as u32)
    }
}

/// Parse a non-empty decimal string; any other string (or one whose value
/// overflows a `u32`) yields `None`.
pub fn parse_u32(s: &str) -> (r: Option<u32>)
    ensures
        r == spec_parse_u32(s@),
{
    let len: usize = s.unicode_len();
    if len == 0 {
        return None;
    }
    let mut i: usize = 0;
    let mut acc: u64 = 0;
    let mut over: bool = false;
    while i < len
        invariant
            0 <= i <= len,
            len == s@.len(),
            1 <= len,
            all_dec_digits(s@.subrange(0, i as int)),
            over ==> dec_val(s@.subrange(0, i as int)) > u32::MAX,
            !over ==> acc == dec_val(s@.subrange(0, i as int)) && acc <= u32::MAX,
        decreases len - i,
    {
        let c = s.get_char(i);
        let cu = c as u32;
        if cu < 48 || cu > 57 {
            assert(!is_dec_digit(s@[i as int]));
            assert(s@.subrange(0, len as int)[i as int] == s@[i as int]);
            return None;
        }
        let d: u64 = (cu - 48) as u64;
        proof {
            let prefix = s@.subrange(0, i as int);
            let next = s@.subrange(0, i + 1);
            assert(next.drop_last() =~= prefix);
            assert(next.last() == s@[i as int]);
        }
        if over {
        } else {
            let newacc: u64 = acc * 10 + d;
            if newacc > u32::MAX as u64 {
                over = true;
            } else {
                acc = newacc;
            }
        }
        i = i + 1;
    }
    proof {
        assert(s@.subrange(0, len as int) =~= s@);
    }
    if over {
        None
    } else {
        Some(acc as u32)
    }
}

fn digit_str(d: u32) -> (r: &'static str)
    requires
        d < 10,
    ensures
        r@ =~= seq![digit_char(d as int)],
{
    proof {
        reveal_strlit("0");
        reveal_strlit("1");
        reveal_strlit("2");
        reveal_strlit("3");
        reveal_strlit("4");
        reveal_strlit("5");
        reveal_strlit("6");
        reveal_strlit("7");
        reveal_strlit("8");
        reveal_strlit("9");
    }
    match d {
        0 => "0",
        1 => "1",
        2 => "2",
        3 => "3",
        4 => "4",
        5 => "5",
        6 => "6",
        7 => "7",
        8 => "8",
        _ => "9",
    }
}

/// Render `n` in decimal.
pub fn u32_to_string(n: u32) -> (r: String)
    ensures
        r@ == spec_dec_digits(n as nat),
    decreases n,
{
    if n < 10 {
        String::from_str(digit_str(n))
    } else {
        let mut s = u32_to_string(n / 10);
        s.append(digit_str(n % 10));
        s
    }
}

/// Render the label `s<k>`.
pub fn label_for(k: u32) -> (r: String)
    ensures
        r@ == spec_label(k),
        spec_label_index(r@) == Some(k),
{
    proof {
        reveal_strlit("s");
        lemma_label_round_trip(k);
    }
    let mut s = String::from_str("s");
    let digits = u32_to_string(k);
    s.append(digits.as_str());
    proof {
        assert(s@ =~= spec_label(k));
    }
    s
}

/// Every character of a canonical decimal rendering is a digit, and the
/// rendering is never empty.
pub proof fn lemma_dec_digits_shape(n: nat)
    ensures
        spec_dec_digits(n).len() >= 1,
        all_dec_digits(spec_dec_digits(n)),
    decreases n,
{
    if n >= 10 {
        lemma_dec_digits_shape(n / 10);
    }
}

/// Parsing a canonical decimal rendering gives the number back.
pub proof fn lemma_dec_digits_val(n: nat)
    ensures
        dec_val(spec_dec_digits(n)) == n,
    decreases n,
{
    if n < 10 {
        let s = spec_dec_digits(n);
        assert(s =~= seq![digit_char(n as int)]);
        assert(s.drop_last() =~= Seq::<char>::empty());
        assert(dec_val(s) == dec_val(s.drop_last()) * 10 + digit_val(s.last()));
        assert(digit_val(digit_char(n as int)) == n);
    } else {
        lemma_dec_digits_val(n / 10);
        let s = spec_dec_digits(n);
        assert(s.drop_last() =~= spec_dec_digits(n / 10));
        assert(s.last() == digit_char((n % 10) as int));
        assert(digit_val(digit_char((n % 10) as int)) == n % 10);
        assert(dec_val(s) == dec_val(s.drop_last()) * 10 + digit_val(s.last()));
    }
}

/// The label codec round-trips: `label_index` recovers `k` from `s<k>`.
pub proof fn lemma_label_round_trip(k: u32)
    ensures
        spec_label_index(spec_label(k)) == Some(k),
{
    lemma_dec_digits_shape(k as nat);
    lemma_dec_digits_val(k as nat);
    let s = spec_label(k);
    assert(s.subrange(1, s.len() as int) =~= spec_dec_digits(k as nat));
}

/// The label of the reserved first desktop.
pub fn reserved_label() -> (r: String)
    ensures
        r@ == "reserved"@,
{
    String::from_str("reserved")
}

/// Character-for-character string equality.
pub fn str_eq(a: &str, b: &str) -> (r: bool)
    ensures
        r == (a@ == b@),
{
    let alen: usize = a.unicode_len();
    let blen: usize = b.unicode_len();
    if alen != blen {
        return false;
    }
    let mut i: usize = 0;
    while i < alen
        invariant
            0 <= i <= alen,
            alen == a@.len(),
            alen == b@.len(),
            forall|j: int| 0 <= j < i ==> a@[j] == b@[j],
        decreases alen - i,
    {
        if a.get_char(i) != b.get_char(i) {
            return false;
        }
        i = i + 1;
    }
    proof {
        assert(a@ =~= b@);
    }
    true
}

/// `needle` occurs in `hay` starting at position `i`.
pub open spec fn occurs_at(hay: Seq<char>, needle: Seq<char>, i: int) -> bool {
    0 <= i && i + needle.len() <= hay.len() && hay.subrange(i, i + needle.len()) == needle
}

/// `needle` occurs somewhere in `hay`.
pub open spec fn spec_contains(hay: Seq<char>, needle: Seq<char>) -> bool {
    exists|i: int| occurs_at(hay, needle, i)
}

fn matches_at(hay: &str, needle: &str, i: usize) -> (r: bool)
    requires
        i + needle@.len() <= hay@.len(),
    ensures
        r == occurs_at(hay@, needle@, i as int),
{
    let hlen: usize = hay.unicode_len();
    let nlen: usize = needle.unicode_len();
    let mut j: usize = 0;
    while j < nlen
        invariant
            0 <= j <= nlen,
            nlen == needle@.len(),
            hlen == hay@.len(),
            i + nlen <= hlen,
            forall|t: int| 0 <= t < j ==> hay@[i + t] == needle@[t],
        decreases nlen - j,
    {
        if hay.get_char(i + j) != needle.get_char(j) {
            assert(hay@.subrange(i as int, i + nlen)[j as int] != needle@[j as int]);
            return false;
        }
        j = j + 1;
    }
    proof {
        assert(hay@.subrange(i as int, i + nlen) =~= needle@);
    }
    true
}

/// Substring search: does `needle` occur in `hay`?
pub fn str_contains(hay: &str, needle: &str) -> (r: bool)
    ensures
        r == spec_contains(hay@, needle@),
{
    let hlen: usize = hay.unicode_len();
    let nlen: usize = needle.unicode_len();
    if nlen > hlen {
        return false;
    }
    if nlen == 0 {
        assert(occurs_at(hay@, needle@, 0)) by {
            assert(hay@.subrange(0, 0) =~= needle@);
        }
        return true;
    }
    let mut i: usize = 0;
    while i <= hlen - nlen
        invariant
            0 <= i <= hlen - nlen + 1,
            1 <= nlen <= hlen,
            hlen == hay@.len(),
            nlen == needle@.len(),
            forall|k: int| 0 <= k < i ==> !occurs_at(hay@, needle@, k),
        decreases hlen + 1 - nlen - i,
    {
        if matches_at(hay, needle, i) {
            return true;
        }
        i = i + 1;
    }
    false
}

} // verus!
