//! Character-level string operations with their meaning stated over `Seq<char>`.
use vstd::prelude::*;

verus! {

/// `s` begins with `p`.
pub open spec fn has_prefix(s: Seq<char>, p: Seq<char>) -> bool {
    p.len() <= s.len() && s.subrange(0, p.len() as int) == p
}

/// `s` ends with `p`.
pub open spec fn has_suffix(s: Seq<char>, p: Seq<char>) -> bool {
    p.len() <= s.len() && s.subrange(s.len() - p.len(), s.len() as int) == p
}

/// `p` occurs in `s` starting at position `i`.
pub open spec fn occurs_at(s: Seq<char>, p: Seq<char>, i: int) -> bool {
    0 <= i && i + p.len() <= s.len() && s.subrange(i, i + p.len()) == p
}

/// `p` occurs somewhere in `s`.
pub open spec fn has_infix(s: Seq<char>, p: Seq<char>) -> bool {
    exists|i: int| occurs_at(s, p, i)
}

/// What `str::strip_prefix` gives back.
pub open spec fn spec_strip_prefix(s: Seq<char>, p: Seq<char>) -> Option<Seq<char>> {
    if has_prefix(s, p) {
        Some(s.subrange(p.len() as int, s.len() as int))
    } else {
        None
    }
}

/// What `str::strip_suffix` gives back.
pub open spec fn spec_strip_suffix(s: Seq<char>, p: Seq<char>) -> Option<Seq<char>> {
    if has_suffix(s, p) {
        Some(s.subrange(0, s.len() - p.len()))
    } else {
        None
    }
}

/// `s` without the suffix `p` where it has it, else `s`.
pub open spec fn without_suffix(s: Seq<char>, p: Seq<char>) -> Seq<char> {
    match spec_strip_suffix(s, p) {
        Some(t) => t,
        None => s,
    }
}

/// What `str::split_once` with a character gives back: the parts before and
/// after the first occurrence of `c`.
pub open spec fn spec_split_once(s: Seq<char>, c: char) -> Option<(Seq<char>, Seq<char>)> {
    match s.index_of_first(c) {
        Some(i) => Some((s.subrange(0, i), s.subrange(i + 1, s.len() as int))),
        None => None,
    }
}

/// What `str::rsplit_once` with a character gives back: the parts before and
/// after the last occurrence of `c`.
pub open spec fn spec_rsplit_once(s: Seq<char>, c: char) -> Option<(Seq<char>, Seq<char>)> {
    match s.index_of_last(c) {
        Some(i) => Some((s.subrange(0, i), s.subrange(i + 1, s.len() as int))),
        None => None,
    }
}

/// Every character of `s` is one of `0`..`9`.
pub open spec fn all_ascii_digits(s: Seq<char>) -> bool {
    forall|i: int| 0 <= i < s.len() ==> '0' <= #[trigger] s[i] && s[i] <= '9'
}

/// `s` with every leading `c` removed (`str::trim_start_matches` with a char).
pub open spec fn trim_start_char(s: Seq<char>, c: char) -> Seq<char>
    decreases s.len(),
{
    if s.len() > 0 && s[0] == c {
        trim_start_char(s.drop_first(), c)
    } else {
        s
    }
}

/// The Unicode `White_Space` property, which `char::is_whitespace` tests.
pub open spec fn is_white_space(c: char) -> bool {
    ||| ('\u{9}' <= c && c <= '\u{d}')
    ||| c == ' '
    ||| c == '\u{85}'
    ||| c == '\u{a0}'
    ||| c == '\u{1680}'
    ||| ('\u{2000}' <= c && c <= '\u{200a}')
    ||| c == '\u{2028}'
    ||| c == '\u{2029}'
    ||| c == '\u{202f}'
    ||| c == '\u{205f}'
    ||| c == '\u{3000}'
}

/// `s` without its leading white space (`str::trim_start`).
pub open spec fn trim_start_ws(s: Seq<char>) -> Seq<char>
    decreases s.len(),
{
    if s.len() > 0 && is_white_space(s[0]) {
        trim_start_ws(s.drop_first())
    } else {
        s
    }
}

/// `s` without its trailing white space (`str::trim_end`).
pub open spec fn trim_end_ws(s: Seq<char>) -> Seq<char>
    decreases s.len(),
{
    if s.len() > 0 && is_white_space(s.last()) {
        trim_end_ws(s.drop_last())
    } else {
        s
    }
}

/// `s` without leading and trailing white space (`str::trim`).
pub open spec fn spec_trim(s: Seq<char>) -> Seq<char> {
    trim_end_ws(trim_start_ws(s))
}

/// The lower-case form that `str::to_lowercase` gives of a string.
pub uninterp spec fn lowercase(s: Seq<char>) -> Seq<char>;

/// Calls `str::to_lowercase`. Its result is named `lowercase` of the
/// argument: the Unicode lower-case mapping of a string depends on the
/// string alone; what it is for given characters is not stated.
#[verifier::external_body]
pub(crate) fn to_lowercase(s: &str) -> (r: String)
    ensures
        r@ == lowercase(s@),
{
    s.to_lowercase()
}

/// Calls `std::path::Path::exists` on `path`. Whether the file is there
/// depends on the disk at the moment of the call, so nothing is stated of the
/// result.
#[verifier::external_body]
pub(crate) fn path_exists(path: &str) -> bool {
    std::path::Path::new(path).exists()
}

/// The characters of `s` from `from` to `to` as a new `String`.
pub fn substring(s: &str, from: usize, to: usize) -> (r: String)
    requires
        from <= to <= s@.len(),
    ensures
        r@ == s@.subrange(from as int, to as int),
{
    String::from_str(s.substring_char(from, to))
}

/// `a` followed by `b`.
pub fn join2(a: &str, b: &str) -> (r: String)
    ensures
        r@ == a@ + b@,
{
    String::from_str(a).concat(b)
}

/// `a`, `b` and `c` one after the other.
pub fn join3(a: &str, b: &str, c: &str) -> (r: String)
    ensures
        r@ == a@ + b@ + c@,
{
    String::from_str(a).concat(b).concat(c)
}

/// `a` and `b` hold the same characters (`==` on `str`).
pub fn str_eq(a: &str, b: &str) -> (r: bool)
    ensures
        r == (a@ == b@),
{
    let n = a.unicode_len();
    if n != b.unicode_len() {
        return false;
    }
    let mut i: usize = 0;
    while i < n
        invariant
            n == a@.len(),
            n == b@.len(),
            i <= n,
            forall|j: int| 0 <= j < i ==> a@[j] == b@[j],
        decreases n - i,
    {
        if a.get_char(i) != b.get_char(i) {
            return false;
        }
        i += 1;
    }
    assert(a@ =~= b@);
    true
}

/// `s` begins with `p` (`str::starts_with`).
pub fn starts_with(s: &str, p: &str) -> (r: bool)
    ensures
        r == has_prefix(s@, p@),
{
    let n = s.unicode_len();
    let m = p.unicode_len();
    if m > n {
        return false;
    }
    let mut i: usize = 0;
    while i < m
        invariant
            n == s@.len(),
            m == p@.len(),
            m <= n,
            i <= m,
            forall|j: int| 0 <= j < i ==> s@[j] == p@[j],
        decreases m - i,
    {
        if s.get_char(i) != p.get_char(i) {
            assert(s@.subrange(0, m as int)[i as int] != p@[i as int]);
            return false;
        }
        i += 1;
    }
    assert(s@.subrange(0, m as int) =~= p@);
    true
}

/// `p` occurs in `s` at position `at`.
fn occurs_at_exec(s: &str, p: &str, at: usize) -> (r: bool)
    requires
        at + p@.len() <= s@.len(),
    ensures
        r == occurs_at(s@, p@, at as int),
{
    let _n = s.unicode_len();
    let m = p.unicode_len();
    let mut i: usize = 0;
    while i < m
        invariant
            m == p@.len(),
            _n == s@.len(),
            at + m <= s@.len(),
            i <= m,
            forall|j: int| 0 <= j < i ==> s@[at + j] == p@[j],
        decreases m - i,
    {
        if s.get_char(at + i) != p.get_char(i) {
            assert(s@.subrange(at as int, at + m)[i as int] != p@[i as int]);
            return false;
        }
        i += 1;
    }
    assert(s@.subrange(at as int, at + m) =~= p@);
    true
}

/// `s` ends with `p` (`str::ends_with`).
pub fn ends_with(s: &str, p: &str) -> (r: bool)
    ensures
        r == has_suffix(s@, p@),
{
    let n = s.unicode_len();
    let m = p.unicode_len();
    if m > n {
        return false;
    }
    occurs_at_exec(s, p, n - m)
}

/// `p` occurs in `s` (`str::contains` with a string).
pub fn contains_str(s: &str, p: &str) -> (r: bool)
    ensures
        r == has_infix(s@, p@),
{
    let n = s.unicode_len();
    let m = p.unicode_len();
    if m > n {
        assert(!has_infix(s@, p@));
        return false;
    }
    let last = n - m;
    let mut i: usize = 0;
    while i < last
        invariant
            n == s@.len(),
            m == p@.len(),
            m <= n,
            last == n - m,
            i <= last,
            forall|j: int| 0 <= j < i ==> !occurs_at(s@, p@, j),
        decreases last - i,
    {
        if occurs_at_exec(s, p, i) {
            return true;
        }
        i += 1;
    }
    if occurs_at_exec(s, p, last) {
        return true;
    }
    assert forall|j: int| !occurs_at(s@, p@, j) by {
        if 0 <= j && j + p@.len() <= s@.len() && j != last {
            assert(j < i);
        }
    }
    false
}

/// The position of the first `c` in `s` (`str::find` with a char, counted in
/// characters).
pub fn find_char(s: &str, c: char) -> (r: Option<usize>)
    ensures
        r matches Some(i) ==> s@.index_of_first(c) == Some(i as int),
        r is None ==> s@.index_of_first(c) is None,
{
    proof {
        s@.index_of_first_ensures(c);
    }
    let n = s.unicode_len();
    let mut i: usize = 0;
    while i < n
        invariant
            n == s@.len(),
            i <= n,
            forall|j: int| 0 <= j < i ==> s@[j] != c,
            match s@.index_of_first(c) {
                Some(index) => {
                    &&& s@.contains(c)
                    &&& 0 <= index < s@.len()
                    &&& s@[index] == c
                    &&& forall|j: int| 0 <= j < index < s@.len() ==> s@[j] != c
                },
                None => { !s@.contains(c) },
            },
        decreases n - i,
    {
        if s.get_char(i) == c {
            assert(s@.contains(c));
            return Some(i);
        }
        i += 1;
    }
    None
}

/// The position of the last `c` in `s` (`str::rfind` with a char, counted in
/// characters).
pub fn rfind_char(s: &str, c: char) -> (r: Option<usize>)
    ensures
        r matches Some(i) ==> s@.index_of_last(c) == Some(i as int),
        r is None ==> s@.index_of_last(c) is None,
{
    proof {
        s@.index_of_last_ensures(c);
    }
    let n = s.unicode_len();
    let mut i: usize = n;
    while i > 0
        invariant
            n == s@.len(),
            i <= n,
            forall|j: int| i <= j < n ==> s@[j] != c,
            match s@.index_of_last(c) {
                Some(index) => {
                    &&& s@.contains(c)
                    &&& 0 <= index < s@.len()
                    &&& s@[index] == c
                    &&& forall|j: int| 0 <= index < j < s@.len() ==> s@[j] != c
                },
                None => { !s@.contains(c) },
            },
        decreases i,
    {
        if s.get_char(i - 1) == c {
            assert(s@.contains(c));
            return Some(i - 1);
        }
        i -= 1;
    }
    None
}

/// `c` occurs in `s` (`str::contains` with a char).
pub fn contains_char(s: &str, c: char) -> (r: bool)
    ensures
        r == s@.contains(c),
{
    proof {
        s@.index_of_first_ensures(c);
    }
    find_char(s, c).is_some()
}

/// `str::split_once` with a character.
pub fn split_once(s: &str, c: char) -> (r: Option<(String, String)>)
    ensures
        match r {
            Some((a, b)) => spec_split_once(s@, c) == Some((a@, b@)),
            None => spec_split_once(s@, c) is None,
        },
{
    proof {
        s@.index_of_first_ensures(c);
    }
    match find_char(s, c) {
        Some(i) => {
            let n = s.unicode_len();
            let a = substring(s, 0, i);
            let b = substring(s, i + 1, n);
            Some((a, b))
        },
        None => None,
    }
}

/// `str::rsplit_once` with a character.
pub fn rsplit_once(s: &str, c: char) -> (r: Option<(String, String)>)
    ensures
        match r {
            Some((a, b)) => spec_rsplit_once(s@, c) == Some((a@, b@)),
            None => spec_rsplit_once(s@, c) is None,
        },
{
    proof {
        s@.index_of_last_ensures(c);
    }
    match rfind_char(s, c) {
        Some(i) => {
            let n = s.unicode_len();
            let a = substring(s, 0, i);
            let b = substring(s, i + 1, n);
            Some((a, b))
        },
        None => None,
    }
}

/// `str::strip_prefix`.
pub fn strip_prefix(s: &str, p: &str) -> (r: Option<String>)
    ensures
        match r {
            Some(t) => spec_strip_prefix(s@, p@) == Some(t@),
            None => spec_strip_prefix(s@, p@) is None,
        },
{
    if starts_with(s, p) {
        Some(substring(s, p.unicode_len(), s.unicode_len()))
    } else {
        None
    }
}

/// `str::strip_suffix`.
pub fn strip_suffix(s: &str, p: &str) -> (r: Option<String>)
    ensures
        match r {
            Some(t) => spec_strip_suffix(s@, p@) == Some(t@),
            None => spec_strip_suffix(s@, p@) is None,
        },
{
    if ends_with(s, p) {
        Some(substring(s, 0, s.unicode_len() - p.unicode_len()))
    } else {
        None
    }
}

/// `s` without the suffix `p` where it has it, else a copy of `s`.
pub fn remove_suffix(s: &str, p: &str) -> (r: String)
    ensures
        r@ == without_suffix(s@, p@),
{
    match strip_suffix(s, p) {
        Some(t) => t,
        None => String::from_str(s),
    }
}

/// Every character of `s` is an ASCII digit.
pub fn is_all_ascii_digits(s: &str) -> (r: bool)
    ensures
        r == all_ascii_digits(s@),
{
    let n = s.unicode_len();
    let mut i: usize = 0;
    while i < n
        invariant
            n == s@.len(),
            i <= n,
            forall|j: int| 0 <= j < i ==> '0' <= #[trigger] s@[j] && s@[j] <= '9',
        decreases n - i,
    {
        let c = s.get_char(i);
        if !('0' <= c && c <= '9') {
            return false;
        }
        i += 1;
    }
    true
}

/// `str::trim_start_matches` with a character.
pub fn trim_start_matches_char(s: &str, c: char) -> (r: String)
    ensures
        r@ == trim_start_char(s@, c),
{
    let n = s.unicode_len();
    let mut i: usize = 0;
    assert(s@.subrange(0, n as int) =~= s@);
    while i < n && s.get_char(i) == c
        invariant
            n == s@.len(),
            i <= n,
            trim_start_char(s@, c) == trim_start_char(s@.subrange(i as int, n as int), c),
        decreases n - i,
    {
        assert(s@.subrange(i as int, n as int).drop_first() =~= s@.subrange(i + 1, n as int));
        i += 1;
    }
    substring(s, i, n)
}

/// `char::is_whitespace`.
pub fn is_whitespace_char(c: char) -> (r: bool)
    ensures
        r == is_white_space(c),
{
    ('\u{9}' <= c && c <= '\u{d}') || c == ' ' || c == '\u{85}' || c == '\u{a0}' || c == '\u{1680}'
        || ('\u{2000}' <= c && c <= '\u{200a}') || c == '\u{2028}' || c == '\u{2029}' || c
        == '\u{202f}' || c == '\u{205f}' || c == '\u{3000}'
}

/// `str::trim`: `s` without leading and trailing white space.
pub fn trim(s: &str) -> (r: String)
    ensures
        r@ == spec_trim(s@),
{
    let n = s.unicode_len();
    let mut lo: usize = 0;
    assert(s@.subrange(0, n as int) =~= s@);
    while lo < n && is_whitespace_char(s.get_char(lo))
        invariant
            n == s@.len(),
            lo <= n,
            trim_start_ws(s@) == trim_start_ws(s@.subrange(lo as int, n as int)),
        decreases n - lo,
    {
        assert(s@.subrange(lo as int, n as int).drop_first() =~= s@.subrange(lo + 1, n as int));
        lo += 1;
    }
    let ghost t = s@.subrange(lo as int, n as int);
    assert(trim_start_ws(s@) == t);
    let mut hi: usize = n;
    assert(s@.subrange(lo as int, n as int) =~= t);
    while hi > lo && is_whitespace_char(s.get_char(hi - 1))
        invariant
            n == s@.len(),
            lo <= hi <= n,
            t == s@.subrange(lo as int, n as int),
            trim_end_ws(t) == trim_end_ws(s@.subrange(lo as int, hi as int)),
        decreases hi,
    {
        assert(s@.subrange(lo as int, hi as int).drop_last() =~= s@.subrange(lo as int, hi - 1));
        hi -= 1;
    }
    substring(s, lo, hi)
}

/// Splitting at the first `c` of `a + c + b`, where `a` has no `c`, gives
/// back `a` and `b`.
pub proof fn lemma_split_once_concat(a: Seq<char>, c: char, b: Seq<char>)
    requires
        !a.contains(c),
    ensures
        spec_split_once(a + seq![c] + b, c) == Some((a, b)),
{
    let s = a + seq![c] + b;
    s.index_of_first_ensures(c);
    assert(s[a.len() as int] == c);
    assert(s.contains(c));
    let k = s.index_of_first(c).unwrap();
    if k < a.len() {
        assert(s[k] == a[k]);
        assert(a.contains(c));
    }
    assert(k == a.len());
    assert(s.subrange(0, a.len() as int) =~= a);
    assert(s.subrange(a.len() + 1int, s.len() as int) =~= b);
}

/// A string without `c` has no last `c` to split at.
pub proof fn lemma_rsplit_once_none(s: Seq<char>, c: char)
    requires
        !s.contains(c),
    ensures
        spec_rsplit_once(s, c) is None,
{
    s.index_of_last_ensures(c);
}

/// Removing the suffix `p` from `a + p` gives `a`.
pub proof fn lemma_without_suffix_concat(a: Seq<char>, p: Seq<char>)
    ensures
        without_suffix(a + p, p) == a,
{
    let s = a + p;
    assert(s.subrange(s.len() - p.len(), s.len() as int) =~= p);
    assert(s.subrange(0, s.len() - p.len()) =~= a);
}

/// `owner/rest`, where the owner has neither `/` nor the character that `p`
/// holds at place `m`, does not begin with `p`, provided no `/` comes
/// before that place in `p`.
pub proof fn lemma_no_prefix(owner: Seq<char>, rest: Seq<char>, p: Seq<char>, m: int)
    requires
        0 <= m < p.len(),
        p[m] != '/',
        !owner.contains(p[m]),
        !owner.contains('/'),
        forall|k: int| 0 <= k < m ==> p[k] != '/',
    ensures
        !has_prefix(owner + seq!['/'] + rest, p),
{
    let s = owner + seq!['/'] + rest;
    if has_prefix(s, p) {
        let k0 = owner.len() as int;
        if m < k0 {
            assert(s.subrange(0, p.len() as int)[m] == p[m]);
            assert(s[m] == owner[m]);
        } else if m == k0 {
            assert(s.subrange(0, p.len() as int)[m] == p[m]);
            assert(s[m] == '/');
        } else {
            assert(s.subrange(0, p.len() as int)[k0] == p[k0]);
            assert(s[k0] == '/');
        }
    }
}

/// A string whose first character differs from that of `p` does not begin
/// with `p`.
pub proof fn lemma_first_char_not_prefix(s: Seq<char>, p: Seq<char>)
    requires
        s.len() > 0,
        p.len() > 0,
        s[0] != p[0],
    ensures
        !has_prefix(s, p),
{
    if has_prefix(s, p) {
        assert(s.subrange(0, p.len() as int)[0] == s[0]);
    }
}

/// A string that neither begins nor ends with white space is its own trim.
pub proof fn lemma_trim_unchanged(s: Seq<char>)
    requires
        s.len() > 0,
        !is_white_space(s[0]),
        !is_white_space(s.last()),
    ensures
        spec_trim(s) == s,
{
}

} // verus!
