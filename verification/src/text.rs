//! Character-level text operations shared by the parsers of this crate.
//!
//! Strings are handled as sequences of Unicode scalar values. What the
//! standard library decides by Unicode tables (which characters are white
//! space, how a string changes case) is taken from it and named here.

use vstd::prelude::*;
use vstd::slice::slice_subrange;

verus! {

broadcast use vstd::string::group_string_axioms;

/// Whether `c` is white space to `char::is_whitespace`.
pub uninterp spec fn unicode_whitespace(c: char) -> bool;

/// What `str::to_lowercase` makes of a string.
pub uninterp spec fn lowercase_of(s: Seq<char>) -> Seq<char>;

/// What `str::to_uppercase` makes of a string.
pub uninterp spec fn uppercase_of(s: Seq<char>) -> Seq<char>;

/// `char::is_whitespace`: the answer is that of the Unicode `White_Space`
/// property, of which nothing more is claimed here than that it is a
/// property of the character.
pub assume_specification[ char::is_whitespace ](c: char) -> (b: bool)
    ensures
        b == unicode_whitespace(c),
;

/// `str::to_lowercase`: the result is a function of the characters of the
/// string alone.
pub assume_specification[ str::to_lowercase ](s: &str) -> (r: String)
    ensures
        r@ == lowercase_of(s@),
;

/// `str::to_uppercase`: the result is a function of the characters of the
/// string alone.
pub assume_specification[ str::to_uppercase ](s: &str) -> (r: String)
    ensures
        r@ == uppercase_of(s@),
;

/// `String::push` appends one character.
pub assume_specification[ String::push ](s: &mut String, c: char)
    ensures
        final(s)@ == old(s)@.push(c),
;

/// The characters of `s`, in order.
pub fn chars_of(s: &str) -> (v: Vec<char>)
    ensures
        v@ == s@,
{
    let mut v: Vec<char> = Vec::new();
    for c in it: s.chars()
        invariant
            v@ == it.history(),
    {
        v.push(c);
    }
    assert(v@ =~= s@);
    v
}

/// The string made of the characters of `v`, in order.
pub fn string_of(v: &[char]) -> (s: String)
    ensures
        s@ == v@,
{
    let mut s = String::new();
    let mut i: usize = 0;
    while i < v.len()
        invariant
            i <= v@.len(),
            s@ == v@.take(i as int),
        decreases v@.len() - i,
    {
        s.push(v[i]);
        i += 1;
    }
    s
}

/// The characters of each string in `items`, in order.
pub open spec fn texts(items: Seq<String>) -> Seq<Seq<char>> {
    Seq::new(items.len(), |i: int| items[i]@)
}

/// The characters of an optional string.
pub open spec fn optional_text(value: Option<String>) -> Option<Seq<char>> {
    match value {
        Some(text) => Some(text@),
        None => None,
    }
}

/// `pat` stands in `s` at index `i`.
pub open spec fn occurs_at(s: Seq<char>, pat: Seq<char>, i: int) -> bool {
    0 <= i && i + pat.len() <= s.len() && s.subrange(i, i + pat.len()) == pat
}

/// Index of the first occurrence of `pat` in `s` at or after `from`.
pub open spec fn find_from(s: Seq<char>, pat: Seq<char>, from: int) -> Option<int>
    decreases s.len() - from,
{
    if from < 0 || from + pat.len() > s.len() {
        None
    } else if occurs_at(s, pat, from) {
        Some(from)
    } else if from < s.len() {
        find_from(s, pat, from + 1)
    } else {
        None
    }
}

/// Index of the first occurrence of `pat` in `s`.
pub open spec fn find(s: Seq<char>, pat: Seq<char>) -> Option<int> {
    find_from(s, pat, 0)
}

/// `s` begins with `pat`.
pub open spec fn starts_with(s: Seq<char>, pat: Seq<char>) -> bool {
    occurs_at(s, pat, 0)
}

/// `s` ends with `pat`.
pub open spec fn ends_with(s: Seq<char>, pat: Seq<char>) -> bool {
    occurs_at(s, pat, s.len() - pat.len())
}

/// What `find_from` returns is the least index from `from` on at which
/// `pat` occurs, and it returns `None` only where there is none.
pub proof fn lemma_find_from_is_first(s: Seq<char>, pat: Seq<char>, from: int)
    requires
        0 <= from,
    ensures
        match find_from(s, pat, from) {
            Some(i) => {
                &&& from <= i
                &&& occurs_at(s, pat, i)
                &&& forall|j: int| from <= j < i ==> !occurs_at(s, pat, j)
            },
            None => forall|j: int| from <= j ==> !occurs_at(s, pat, j),
        },
    decreases s.len() - from,
{
    if from + pat.len() <= s.len() && !occurs_at(s, pat, from) && from < s.len() {
        lemma_find_from_is_first(s, pat, from + 1);
    }
}

/// Whether `pat` stands in `hay` at index `i`.
pub fn matches_at(hay: &[char], pat: &[char], i: usize) -> (r: bool)
    ensures
        r == occurs_at(hay@, pat@, i as int),
{
    if i > hay.len() || pat.len() > hay.len() - i {
        return false;
    }
    let mut k: usize = 0;
    while k < pat.len()
        invariant
            k <= pat@.len(),
            i + pat@.len() <= hay@.len() <= usize::MAX,
            forall|j: int| 0 <= j < k ==> hay@[i + j] == pat@[j],
        decreases pat@.len() - k,
    {
        if hay[i + k] != pat[k] {
            assert(hay@.subrange(i as int, i + pat@.len())[k as int] != pat@[k as int]);
            return false;
        }
        k += 1;
    }
    assert(hay@.subrange(i as int, i + pat@.len()) =~= pat@);
    true
}

/// Index of the first occurrence of `pat` in `hay`.
pub fn find_first(hay: &[char], pat: &[char]) -> (r: Option<usize>)
    ensures
        match r {
            Some(i) => find(hay@, pat@) == Some(i as int) && i + pat@.len() <= hay@.len(),
            None => find(hay@, pat@) is None,
        },
{
    if pat.len() > hay.len() {
        return None;
    }
    let last = hay.len() - pat.len();
    let mut i: usize = 0;
    loop
        invariant
            i <= last,
            last == hay@.len() - pat@.len(),
            find_from(hay@, pat@, i as int) == find(hay@, pat@),
        decreases last - i,
    {
        if matches_at(hay, pat, i) {
            return Some(i);
        }
        if i == last {
            assert(find_from(hay@, pat@, i + 1) is None);
            return None;
        }
        i += 1;
    }
}

/// Whether `hay` begins with `pat`.
pub fn has_prefix(hay: &[char], pat: &[char]) -> (r: bool)
    ensures
        r == starts_with(hay@, pat@),
{
    matches_at(hay, pat, 0)
}

/// Whether `hay` ends with `pat`.
pub fn has_suffix(hay: &[char], pat: &[char]) -> (r: bool)
    ensures
        r == ends_with(hay@, pat@),
{
    if pat.len() > hay.len() {
        return false;
    }
    matches_at(hay, pat, hay.len() - pat.len())
}

/// Whether `a` and `b` hold the same characters.
pub fn same_chars(a: &[char], b: &[char]) -> (r: bool)
    ensures
        r == (a@ == b@),
{
    if a.len() != b.len() {
        return false;
    }
    let r = matches_at(a, b, 0);
    assert(a@.subrange(0, a@.len() as int) =~= a@);
    r
}

/// Number of white-space characters that `s` begins with.
pub open spec fn leading_spaces(s: Seq<char>) -> nat
    decreases s.len(),
{
    if s.len() > 0 && unicode_whitespace(s[0]) {
        1 + leading_spaces(s.drop_first())
    } else {
        0
    }
}

/// Number of white-space characters that `s` ends with.
pub open spec fn trailing_spaces(s: Seq<char>) -> nat
    decreases s.len(),
{
    if s.len() > 0 && unicode_whitespace(s.last()) {
        1 + trailing_spaces(s.drop_last())
    } else {
        0
    }
}

/// `s` without its leading white space.
pub open spec fn trim_start(s: Seq<char>) -> Seq<char> {
    s.skip(leading_spaces(s) as int)
}

/// `s` without its trailing white space.
pub open spec fn trim_end(s: Seq<char>) -> Seq<char> {
    s.take(s.len() - trailing_spaces(s))
}

/// `s` without its leading and trailing white space.
pub open spec fn trim(s: Seq<char>) -> Seq<char> {
    trim_end(trim_start(s))
}

/// `s` with every white-space character removed.
pub open spec fn without_spaces(s: Seq<char>) -> Seq<char> {
    s.filter(|c: char| !unicode_whitespace(c))
}

/// Index of the last occurrence of `c` in `s`.
pub open spec fn last_index_of(s: Seq<char>, c: char) -> Option<int>
    decreases s.len(),
{
    if s.len() == 0 {
        None
    } else if s.last() == c {
        Some(s.len() - 1)
    } else {
        last_index_of(s.drop_last(), c)
    }
}

/// Index of the first occurrence of `c` in `s`.
pub open spec fn first_index_of(s: Seq<char>, c: char) -> Option<int> {
    find(s, seq![c])
}

/// Number of white-space characters that `hay` begins with.
pub fn count_leading_spaces(hay: &[char]) -> (n: usize)
    ensures
        n == leading_spaces(hay@),
        n <= hay@.len(),
{
    let mut i: usize = 0;
    assert(hay@.skip(0) =~= hay@);
    while i < hay.len() && hay[i].is_whitespace()
        invariant
            i <= hay@.len(),
            leading_spaces(hay@) == i + leading_spaces(hay@.skip(i as int)),
        decreases hay@.len() - i,
    {
        assert(hay@.skip(i as int).drop_first() =~= hay@.skip(i + 1));
        i += 1;
    }
    i
}

/// Number of white-space characters that `hay` ends with.
pub fn count_trailing_spaces(hay: &[char]) -> (n: usize)
    ensures
        n == trailing_spaces(hay@),
        n <= hay@.len(),
{
    let len = hay.len();
    let mut n: usize = 0;
    assert(hay@.take(len as int) =~= hay@);
    while n < len && hay[len - 1 - n].is_whitespace()
        invariant
            n <= len,
            len == hay@.len(),
            trailing_spaces(hay@) == n + trailing_spaces(hay@.take(len - n)),
        decreases len - n,
    {
        assert(hay@.take(len - n).drop_last() =~= hay@.take(len - (n + 1)));
        n += 1;
    }
    n
}

/// `hay` without its leading white space.
pub fn trimmed_start(hay: &[char]) -> (r: &[char])
    ensures
        r@ == trim_start(hay@),
{
    let n = count_leading_spaces(hay);
    slice_subrange(hay, n, hay.len())
}

/// `hay` without its leading and trailing white space.
pub fn trimmed(hay: &[char]) -> (r: &[char])
    ensures
        r@ == trim(hay@),
{
    let head = trimmed_start(hay);
    let n = count_trailing_spaces(head);
    slice_subrange(head, 0, head.len() - n)
}

/// `hay` with every white-space character removed.
pub fn strip_spaces(hay: &[char]) -> (r: Vec<char>)
    ensures
        r@ == without_spaces(hay@),
{
    let mut r: Vec<char> = Vec::new();
    let mut i: usize = 0;
    proof {
        reveal(Seq::filter);
    }
    while i < hay.len()
        invariant
            i <= hay@.len(),
            r@ == without_spaces(hay@.take(i as int)),
        decreases hay@.len() - i,
    {
        proof {
            reveal(Seq::filter);
            assert(hay@.take(i + 1).drop_last() =~= hay@.take(i as int));
        }
        if !hay[i].is_whitespace() {
            r.push(hay[i]);
        }
        i += 1;
    }
    assert(hay@.take(hay@.len() as int) =~= hay@);
    r
}

/// Index of the last occurrence of `c` in `hay`.
pub fn find_last_char(hay: &[char], c: char) -> (r: Option<usize>)
    ensures
        match r {
            Some(i) => last_index_of(hay@, c) == Some(i as int) && i < hay@.len(),
            None => last_index_of(hay@, c) is None,
        },
{
    let mut n: usize = hay.len();
    assert(hay@.take(n as int) =~= hay@);
    while n > 0
        invariant
            n <= hay@.len(),
            last_index_of(hay@, c) == last_index_of(hay@.take(n as int), c),
        decreases n,
    {
        if hay[n - 1] == c {
            return Some(n - 1);
        }
        assert(hay@.take(n as int).drop_last() =~= hay@.take(n - 1));
        n -= 1;
    }
    None
}

/// Index of the first occurrence of `c` in `hay`.
pub fn find_first_char(hay: &[char], c: char) -> (r: Option<usize>)
    ensures
        match r {
            Some(i) => first_index_of(hay@, c) == Some(i as int) && i < hay@.len(),
            None => first_index_of(hay@, c) is None,
        },
{
    let mut pat: Vec<char> = Vec::new();
    pat.push(c);
    assert(pat@ =~= seq![c]);
    find_first(hay, pat.as_slice())
}

/// The code point of `c`, that of the small letter where `c` is one of the
/// capital letters `A` to `Z`.
pub open spec fn ascii_folded(c: char) -> u32 {
    if 'A' as u32 <= c as u32 <= 'Z' as u32 {
        (c as u32 + 32) as u32
    } else {
        c as u32
    }
}

/// `a` and `b` are equal but for the case of the letters `A` to `Z`.
pub open spec fn eq_ignoring_ascii_case(a: Seq<char>, b: Seq<char>) -> bool {
    &&& a.len() == b.len()
    &&& forall|i: int| 0 <= i < a.len() ==> ascii_folded(#[trigger] a[i]) == ascii_folded(b[i])
}

/// The code point of `c` with the capital letters `A` to `Z` made small.
pub fn fold_ascii(c: char) -> (u: u32)
    ensures
        u == ascii_folded(c),
{
    let u = c as u32;
    if 'A' as u32 <= u && u <= 'Z' as u32 {
        u + 32
    } else {
        u
    }
}

/// Whether `a` and `b` are equal but for the case of the letters `A` to `Z`.
pub fn same_ignoring_ascii_case(a: &str, b: &str) -> (r: bool)
    ensures
        r == eq_ignoring_ascii_case(a@, b@),
{
    let x = chars_of(a);
    let y = chars_of(b);
    if x.len() != y.len() {
        return false;
    }
    let mut i: usize = 0;
    while i < x.len()
        invariant
            i <= x@.len(),
            x@.len() == y@.len(),
            x@ == a@,
            y@ == b@,
            forall|j: int| 0 <= j < i ==> ascii_folded(#[trigger] x@[j]) == ascii_folded(y@[j]),
        decreases x@.len() - i,
    {
        if fold_ascii(x[i]) != fold_ascii(y[i]) {
            assert(ascii_folded(a@[i as int]) != ascii_folded(b@[i as int]));
            return false;
        }
        i += 1;
    }
    true
}

/// Whether `a` and `b` hold the same characters.
pub fn same_text(a: &str, b: &str) -> (r: bool)
    ensures
        r == (a@ == b@),
{
    let a = chars_of(a);
    let b = chars_of(b);
    same_chars(a.as_slice(), b.as_slice())
}

/// The decimal digit of `d`, which is less than ten.
pub open spec fn digit_char(d: nat) -> char {
    (('0' as u8 + d) as u8) as char
}

/// `n` written in decimal, without leading zeros.
pub open spec fn decimal(n: nat) -> Seq<char>
    decreases n,
{
    if n < 10 {
        seq![digit_char(n)]
    } else {
        decimal(n / 10).push(digit_char(n % 10))
    }
}

/// `n` written in decimal, without leading zeros.
pub fn decimal_text(n: u64) -> (s: String)
    ensures
        s@ == decimal(n as nat),
{
    let mut digits: Vec<char> = Vec::new();
    let mut rest = n;
    digits.push(((rest % 10) as u8 + '0' as u8) as char);
    rest = rest / 10;
    while rest > 0
        invariant
            digits@.len() > 0,
            decimal(n as nat) == if rest == 0 {
                digits@.reverse()
            } else {
                decimal(rest as nat) + digits@.reverse()
            },
        decreases rest,
    {
        let ghost before = digits@;
        digits.push(((rest % 10) as u8 + '0' as u8) as char);
        proof {
            let d = digit_char((rest % 10) as nat);
            assert(digits@.reverse() =~= seq![d] + before.reverse());
            if rest / 10 == 0 {
                assert(decimal(rest as nat) =~= seq![d]);
            } else {
                assert(decimal(rest as nat) + before.reverse() =~= decimal((rest / 10) as nat)
                    + digits@.reverse());
            }
        }
        rest = rest / 10;
    }
    let mut out: Vec<char> = Vec::new();
    let mut i: usize = digits.len();
    while i > 0
        invariant
            i <= digits@.len(),
            out@ == digits@.reverse().take(digits@.len() - i),
        decreases i,
    {
        i -= 1;
        out.push(digits[i]);
        assert(out@ =~= digits@.reverse().take(digits@.len() - i));
    }
    assert(digits@.reverse().take(digits@.len() as int) =~= digits@.reverse());
    string_of(out.as_slice())
}

} // verus!
