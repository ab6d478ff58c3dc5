//! Verified character-level helpers over `&str` and `String`.
//!
//! Everything the rest of the crate needs from strings is built here from the
//! primitives that vstd specifies: finding a character, trimming whitespace,
//! stripping a trailing run of one character, suffix tests, equality, and
//! checking that a field is a decimal `u16` numeral.

use vstd::prelude::*;
use vstd::string::*;

verus! {

/// The whitespace characters recognized when trimming and splitting.
pub open spec fn is_space_char(c: char) -> bool {
    c == ' ' || c == '\t' || c == '\n' || c == '\r'
}

/// Executable counterpart of [`is_space_char`].
pub fn is_space(c: char) -> (b: bool)
    ensures
        b == is_space_char(c),
{
    c == ' ' || c == '\t' || c == '\n' || c == '\r'
}

// ─── finding a character ─────────────────────────────────────────────────────

/// Index of the first occurrence of `c` in `s`, if any.
pub open spec fn find_char_spec(s: Seq<char>, c: char) -> Option<int>
    decreases s.len(),
{
    if s.len() == 0 {
        None
    } else if s[0] == c {
        Some(0int)
    } else {
        match find_char_spec(s.skip(1), c) {
            None => None,
            Some(i) => Some(i + 1),
        }
    }
}

/// [`find_char_spec`] returns the first occurrence: the index it returns holds
/// `c`, everything before it does not, and `None` means `c` does not occur.
pub proof fn lemma_find_char(s: Seq<char>, c: char)
    ensures
        match find_char_spec(s, c) {
            Some(i) => 0 <= i < s.len() && s[i] == c && (forall|j: int| 0 <= j < i ==> s[j] != c),
            None => forall|j: int| 0 <= j < s.len() ==> s[j] != c,
        },
    decreases s.len(),
{
    if s.len() == 0 {
    } else if s[0] == c {
    } else {
        lemma_find_char(s.skip(1), c);
        assert forall|j: int| 1 <= j < s.len() implies s[j] == s.skip(1)[j - 1] by {}
    }
}

/// An index that holds `c` with no earlier occurrence pins down the result of
/// [`find_char_spec`].
pub proof fn lemma_find_char_is_first(s: Seq<char>, c: char, i: int)
    requires
        0 <= i < s.len(),
        s[i] == c,
        forall|j: int| 0 <= j < i ==> s[j] != c,
    ensures
        find_char_spec(s, c) == Some(i),
{
    lemma_find_char(s, c);
    match find_char_spec(s, c) {
        Some(k) => {
            if k < i {
                assert(s[k] == c);
            } else if k > i {
                assert(s[i] != c);
            }
        },
        None => {
            assert(s[i] == c);
        },
    }
}

/// If `c` occurs nowhere in `s`, [`find_char_spec`] returns `None`.
pub proof fn lemma_find_char_none(s: Seq<char>, c: char)
    requires
        forall|j: int| 0 <= j < s.len() ==> s[j] != c,
    ensures
        find_char_spec(s, c) == None::<int>,
{
    lemma_find_char(s, c);
    match find_char_spec(s, c) {
        Some(k) => {
            assert(s[k] == c);
        },
        None => {},
    }
}

/// First occurrence of `c` in `s`, scanning left to right.
pub fn find_char(s: &str, c: char) -> (r: Option<usize>)
    ensures
        match r {
            Some(i) => find_char_spec(s@, c) == Some(i as int),
            None => find_char_spec(s@, c) == None::<int>,
        },
{
    let n = s.unicode_len();
    let mut i: usize = 0;
    while i < n
        invariant
            i <= n,
            n == s@.len(),
            forall|j: int| 0 <= j < i ==> s@[j] != c,
        decreases n - i,
    {
        if s.get_char(i) == c {
            proof {
                lemma_find_char_is_first(s@, c, i as int);
            }
            return Some(i);
        }
        i += 1;
    }
    proof {
        lemma_find_char_none(s@, c);
    }
    None
}

/// Index of the first whitespace character in `s`, if any.
pub open spec fn find_ws_spec(s: Seq<char>) -> Option<int>
    decreases s.len(),
{
    if s.len() == 0 {
        None
    } else if is_space_char(s[0]) {
        Some(0int)
    } else {
        match find_ws_spec(s.skip(1)) {
            None => None,
            Some(i) => Some(i + 1),
        }
    }
}

/// [`find_ws_spec`] returns the first whitespace position, or `None` when the
/// string holds no whitespace at all.
pub proof fn lemma_find_ws(s: Seq<char>)
    ensures
        match find_ws_spec(s) {
            Some(i) => 0 <= i < s.len() && is_space_char(s[i]) && (forall|j: int|
                0 <= j < i ==> !is_space_char(s[j])),
            None => forall|j: int| 0 <= j < s.len() ==> !is_space_char(s[j]),
        },
    decreases s.len(),
{
    if s.len() == 0 {
    } else if is_space_char(s[0]) {
    } else {
        lemma_find_ws(s.skip(1));
        assert forall|j: int| 1 <= j < s.len() implies s[j] == s.skip(1)[j - 1] by {}
    }
}

/// A whitespace position with no earlier whitespace pins down [`find_ws_spec`].
pub proof fn lemma_find_ws_is_first(s: Seq<char>, i: int)
    requires
        0 <= i < s.len(),
        is_space_char(s[i]),
        forall|j: int| 0 <= j < i ==> !is_space_char(s[j]),
    ensures
        find_ws_spec(s) == Some(i),
{
    lemma_find_ws(s);
    match find_ws_spec(s) {
        Some(k) => {
            if k < i {
                assert(!is_space_char(s[k]));
            } else if k > i {
                assert(!is_space_char(s[i]));
            }
        },
        None => {
            assert(is_space_char(s[i]));
        },
    }
}

/// First whitespace character in `s`, scanning left to right.
pub fn find_ws(s: &str) -> (r: Option<usize>)
    ensures
        match r {
            Some(i) => find_ws_spec(s@) == Some(i as int),
            None => find_ws_spec(s@) == None::<int>,
        },
{
    let n = s.unicode_len();
    let mut i: usize = 0;
    while i < n
        invariant
            i <= n,
            n == s@.len(),
            forall|j: int| 0 <= j < i ==> !is_space_char(s@[j]),
        decreases n - i,
    {
        if is_space(s.get_char(i)) {
            proof {
                lemma_find_ws_is_first(s@, i as int);
            }
            return Some(i);
        }
        i += 1;
    }
    proof {
        lemma_find_ws(s@);
    }
    None
}

// ─── trimming whitespace ─────────────────────────────────────────────────────

/// `s` with its leading whitespace removed.
pub open spec fn trim_start_spec(s: Seq<char>) -> Seq<char>
    decreases s.len(),
{
    if s.len() > 0 && is_space_char(s[0]) {
        trim_start_spec(s.skip(1))
    } else {
        s
    }
}

/// `s` with its trailing whitespace removed.
pub open spec fn trim_end_spec(s: Seq<char>) -> Seq<char>
    decreases s.len(),
{
    if s.len() > 0 && is_space_char(s.last()) {
        trim_end_spec(s.drop_last())
    } else {
        s
    }
}

/// `s` with leading and trailing whitespace removed.
pub open spec fn trim_spec(s: Seq<char>) -> Seq<char> {
    trim_end_spec(trim_start_spec(s))
}

/// Dropping a fully-whitespace prefix that ends at a non-whitespace character
/// (or at the end of the string) is exactly [`trim_start_spec`].
proof fn lemma_trim_start_skip(s: Seq<char>, k: int)
    requires
        0 <= k <= s.len(),
        forall|j: int| 0 <= j < k ==> is_space_char(s[j]),
        k == s.len() || !is_space_char(s[k]),
    ensures
        trim_start_spec(s) == s.skip(k),
    decreases k,
{
    if k == 0 {
        assert(s.skip(0) =~= s);
    } else {
        lemma_trim_start_skip(s.skip(1), k - 1);
        assert forall|j: int| 0 <= j < k - 1 implies is_space_char(s.skip(1)[j]) by {
            assert(s.skip(1)[j] == s[j + 1]);
        }
        assert(s.skip(1).skip(k - 1) =~= s.skip(k));
    }
}

/// Dropping a fully-whitespace suffix that starts after a non-whitespace
/// character (or at the start of the string) is exactly [`trim_end_spec`].
proof fn lemma_trim_end_take(s: Seq<char>, k: int)
    requires
        0 <= k <= s.len(),
        forall|j: int| k <= j < s.len() ==> is_space_char(s[j]),
        k == 0 || !is_space_char(s[k - 1]),
    ensures
        trim_end_spec(s) == s.take(k),
    decreases s.len(),
{
    if k == s.len() {
        if s.len() > 0 && is_space_char(s.last()) {
            assert(!is_space_char(s[k - 1]));
        }
        assert(s.take(k) =~= s);
    } else {
        assert(is_space_char(s.last()));
        lemma_trim_end_take(s.drop_last(), k);
        assert(s.drop_last().take(k) =~= s.take(k));
    }
}

/// A string without leading or trailing whitespace trims to itself.
pub proof fn lemma_trim_id(s: Seq<char>)
    requires
        s.len() == 0 || (!is_space_char(s[0]) && !is_space_char(s.last())),
    ensures
        trim_spec(s) == s,
{
    lemma_trim_start_skip(s, 0);
    assert(s.skip(0) =~= s);
    lemma_trim_end_take(s, s.len() as int);
    assert(s.take(s.len() as int) =~= s);
}

/// The trimmed string is empty or starts and ends with non-whitespace.
pub proof fn lemma_trim_props(s: Seq<char>)
    ensures
        trim_spec(s).len() == 0 || (!is_space_char(trim_spec(s)[0]) && !is_space_char(
            trim_spec(s).last(),
        )),
    decreases s.len(),
{
    lemma_trim_start_props(s);
    lemma_trim_end_props(trim_start_spec(s));
    let t = trim_start_spec(s);
    let r = trim_end_spec(t);
    if r.len() > 0 {
        assert(r[0] == t[0]);
    }
}

/// The start-trimmed string is empty or starts with non-whitespace, and is a
/// prefix-respecting suffix of `s`.
proof fn lemma_trim_start_props(s: Seq<char>)
    ensures
        trim_start_spec(s).len() == 0 || !is_space_char(trim_start_spec(s)[0]),
    decreases s.len(),
{
    if s.len() > 0 && is_space_char(s[0]) {
        lemma_trim_start_props(s.skip(1));
    }
}

/// The end-trimmed string is a prefix of `s` and is empty or ends with
/// non-whitespace.
proof fn lemma_trim_end_props(s: Seq<char>)
    ensures
        trim_end_spec(s).len() == 0 || !is_space_char(trim_end_spec(s).last()),
        trim_end_spec(s).len() <= s.len(),
        forall|j: int| 0 <= j < trim_end_spec(s).len() ==> trim_end_spec(s)[j] == s[j],
    decreases s.len(),
{
    if s.len() > 0 && is_space_char(s.last()) {
        lemma_trim_end_props(s.drop_last());
        assert forall|j: int| 0 <= j < trim_end_spec(s).len() implies trim_end_spec(s)[j]
            == s[j] by {
            assert(trim_end_spec(s) == trim_end_spec(s.drop_last()));
            assert(s.drop_last()[j] == s[j]);
        }
    }
}

/// Remove leading and trailing whitespace.
pub fn trim(s: &str) -> (r: &str)
    ensures
        r@ == trim_spec(s@),
{
    let n = s.unicode_len();
    let mut a: usize = 0;
    while a < n && is_space(s.get_char(a))
        invariant
            a <= n,
            n == s@.len(),
            forall|j: int| 0 <= j < a ==> is_space_char(s@[j]),
        decreases n - a,
    {
        a += 1;
    }
    let mut b: usize = n;
    while b > a && is_space(s.get_char(b - 1))
        invariant
            a <= b <= n,
            n == s@.len(),
            forall|j: int| b <= j < n ==> is_space_char(s@[j]),
        decreases b,
    {
        b -= 1;
    }
    let r = s.substring_char(a, b);
    proof {
        lemma_trim_start_skip(s@, a as int);
        let t = s@.skip(a as int);
        assert forall|j: int| (b - a) <= j < t.len() implies is_space_char(t[j]) by {
            assert(t[j] == s@[j + a]);
        }
        if b > a {
            assert(!is_space_char(t[b - a - 1]));
        }
        lemma_trim_end_take(t, b - a);
        assert(t.take(b - a) =~= s@.subrange(a as int, b as int));
    }
    r
}

// ─── stripping a trailing run of one character ───────────────────────────────

/// `s` with every trailing occurrence of `c` removed.
pub open spec fn strip_char_end_spec(s: Seq<char>, c: char) -> Seq<char>
    decreases s.len(),
{
    if s.len() > 0 && s.last() == c {
        strip_char_end_spec(s.drop_last(), c)
    } else {
        s
    }
}

/// Dropping a suffix made of `c` that starts after a different character (or
/// at the start) is exactly [`strip_char_end_spec`].
pub proof fn lemma_strip_char_end_take(s: Seq<char>, c: char, k: int)
    requires
        0 <= k <= s.len(),
        forall|j: int| k <= j < s.len() ==> s[j] == c,
        k == 0 || s[k - 1] != c,
    ensures
        strip_char_end_spec(s, c) == s.take(k),
    decreases s.len(),
{
    if k == s.len() {
        if s.len() > 0 && s.last() == c {
            assert(s[k - 1] != c);
        }
        assert(s.take(k) =~= s);
    } else {
        assert(s.last() == c);
        lemma_strip_char_end_take(s.drop_last(), c, k);
        assert(s.drop_last().take(k) =~= s.take(k));
    }
}

/// Remove every trailing occurrence of `c`.
pub fn strip_char_end(s: &str, c: char) -> (r: &str)
    ensures
        r@ == strip_char_end_spec(s@, c),
{
    let n = s.unicode_len();
    let mut b: usize = n;
    while b > 0 && s.get_char(b - 1) == c
        invariant
            b <= n,
            n == s@.len(),
            forall|j: int| b <= j < n ==> s@[j] == c,
        decreases b,
    {
        b -= 1;
    }
    let r = s.substring_char(0, b);
    proof {
        lemma_strip_char_end_take(s@, c, b as int);
        assert(s@.take(b as int) =~= s@.subrange(0, b as int));
    }
    r
}

// ─── suffix test and equality ────────────────────────────────────────────────

/// True if `suffix` ends `s`.
pub open spec fn is_suffix_spec(suffix: Seq<char>, s: Seq<char>) -> bool {
    suffix.len() <= s.len() && s.skip(s.len() - suffix.len()) == suffix
}

/// Does `s` end with `suffix`?
pub fn str_ends_with(s: &str, suffix: &str) -> (b: bool)
    ensures
        b == is_suffix_spec(suffix@, s@),
{
    let n = s.unicode_len();
    let m = suffix.unicode_len();
    if m > n {
        return false;
    }
    let mut i: usize = 0;
    while i < m
        invariant
            i <= m <= n,
            n == s@.len(),
            m == suffix@.len(),
            forall|j: int| 0 <= j < i ==> s@[n - m + j] == suffix@[j],
        decreases m - i,
    {
        if s.get_char(n - m + i) != suffix.get_char(i) {
            assert(s@.skip(n - m) != suffix@) by {
                assert(s@.skip((n - m) as int)[i as int] != suffix@[i as int]);
            }
            return false;
        }
        i += 1;
    }
    proof {
        assert(s@.skip((n - m) as int) =~= suffix@);
    }
    true
}

/// Are the two strings equal character for character?
pub fn str_eq(a: &str, b: &str) -> (r: bool)
    ensures
        r == (a@ == b@),
{
    let n = a.unicode_len();
    let m = b.unicode_len();
    if n != m {
        return false;
    }
    let mut i: usize = 0;
    while i < n
        invariant
            i <= n,
            n == a@.len() == b@.len(),
            forall|j: int| 0 <= j < i ==> a@[j] == b@[j],
        decreases n - i,
    {
        if a.get_char(i) != b.get_char(i) {
            assert(a@[i as int] != b@[i as int]);
            return false;
        }
        i += 1;
    }
    proof {
        assert(a@ =~= b@);
    }
    true
}

// ─── decimal u16 numerals ────────────────────────────────────────────────────

/// Is `c` a decimal digit?
pub open spec fn is_digit_char(c: char) -> bool {
    '0' <= c && c <= '9'
}

/// Does `s` consist of decimal digits only?
pub open spec fn all_digits(s: Seq<char>) -> bool {
    forall|i: int| 0 <= i < s.len() ==> is_digit_char(s[i])
}

/// The value of a string of decimal digits.
pub open spec fn dec_val(s: Seq<char>) -> int
    decreases s.len(),
{
    if s.len() == 0 {
        0
    } else {
        dec_val(s.drop_last()) * 10 + (s.last() as int - '0' as int)
    }
}

/// A digit string's value is non-negative.
pub proof fn lemma_dec_val_nonneg(s: Seq<char>)
    requires
        all_digits(s),
    ensures
        dec_val(s) >= 0,
    decreases s.len(),
{
    if s.len() > 0 {
        lemma_dec_val_nonneg(s.drop_last());
    }
}

/// Extending a digit string never decreases its value.
pub proof fn lemma_dec_val_prefix_le(s: Seq<char>, k: int)
    requires
        all_digits(s),
        0 <= k <= s.len(),
    ensures
        dec_val(s.take(k)) <= dec_val(s),
    decreases s.len(),
{
    if k == s.len() {
        assert(s.take(k) =~= s);
    } else {
        assert(s.drop_last().take(k) =~= s.take(k));
        lemma_dec_val_prefix_le(s.drop_last(), k);
        lemma_dec_val_nonneg(s.drop_last());
    }
}

/// The form Rust's `u16` parser accepts: an optional `+` sign, then at least
/// one decimal digit, with a value of at most 65535.
pub open spec fn is_u16_numeral(s: Seq<char>) -> bool {
    let d = if s.len() > 0 && s[0] == '+' {
        s.skip(1)
    } else {
        s
    };
    d.len() > 0 && all_digits(d) && dec_val(d) <= 0xffff
}

/// The one-character sequence `"1"` is a `u16` numeral.
pub proof fn lemma_one_is_numeral()
    ensures
        is_u16_numeral(seq!['1']),
{
    let d = seq!['1'];
    assert(d.drop_last() =~= Seq::<char>::empty());
    assert(dec_val(d.drop_last()) == 0);
    assert(dec_val(d) == '1' as int - '0' as int);
}

/// No character of a `u16` numeral is whitespace, and its first character is
/// not whitespace in particular.
pub proof fn lemma_numeral_no_ws(s: Seq<char>)
    requires
        is_u16_numeral(s),
    ensures
        s.len() > 0,
        forall|j: int| 0 <= j < s.len() ==> !is_space_char(s[j]),
        forall|j: int| 0 <= j < s.len() ==> s[j] != ' ',
{
    let d = if s.len() > 0 && s[0] == '+' {
        s.skip(1)
    } else {
        s
    };
    assert forall|j: int| 0 <= j < s.len() implies !is_space_char(s[j]) && s[j] != ' ' by {
        if s[0] == '+' {
            if j > 0 {
                assert(s[j] == d[j - 1]);
                assert(is_digit_char(s[j]));
            }
        } else {
            assert(is_digit_char(s[j]));
        }
    }
}

/// Would `s` parse as a `u16`?
pub fn is_u16_numeral_str(s: &str) -> (b: bool)
    ensures
        b == is_u16_numeral(s@),
{
    let n = s.unicode_len();
    let start: usize = if n > 0 && s.get_char(0) == '+' {
        1
    } else {
        0
    };
    let ghost d = if s@.len() > 0 && s@[0] == '+' {
        s@.skip(1)
    } else {
        s@
    };
    proof {
        assert(d =~= s@.skip(start as int));
    }
    if start >= n {
        return false;
    }
    let mut i: usize = start;
    let mut val: u32 = 0;
    while i < n
        invariant
            start <= i <= n,
            n == s@.len(),
            start <= 1,
            (s@.len() > 0 && s@[0] == '+') == (start == 1),
            d == s@.skip(start as int),
            forall|j: int| start <= j < i ==> is_digit_char(s@[j]),
            val == dec_val(s@.subrange(start as int, i as int)),
            val <= 0xffff,
        decreases n - i,
    {
        let c = s.get_char(i);
        if !(c >= '0' && c <= '9') {
            proof {
                assert(d[i - start] == s@[i as int]);
                assert(!is_digit_char(d[i - start]));
                assert(!is_u16_numeral(s@)) by {
                    if all_digits(d) {
                        assert(is_digit_char(d[i - start]));
                    }
                }
            }
            return false;
        }
        proof {
            let pre = s@.subrange(start as int, i as int);
            let post = s@.subrange(start as int, i as int + 1);
            assert(post.drop_last() =~= pre);
            assert(post.last() == s@[i as int]);
            assert(dec_val(post) == dec_val(pre) * 10 + (c as int - '0' as int));
        }
        val = val * 10 + (c as u32 - 48);
        proof {
            assert(val == dec_val(s@.subrange(start as int, i as int + 1)));
        }
        if val > 0xffff {
            proof {
                let post = s@.subrange(start as int, i as int + 1);
                assert(post =~= d.take(i as int + 1 - start));
                assert(!is_u16_numeral(s@)) by {
                    assert(s@.skip(0) =~= s@);
                    if all_digits(d) {
                        lemma_dec_val_prefix_le(d, i as int + 1 - start);
                        assert(dec_val(d) >= dec_val(post));
                    }
                }
            }
            return false;
        }
        i += 1;
    }
    proof {
        assert(s@.subrange(start as int, n as int) =~= d);
        assert forall|j: int| 0 <= j < d.len() implies is_digit_char(d[j]) by {
            assert(d[j] == s@[j + start]);
        }
    }
    true
}

} // verus!
