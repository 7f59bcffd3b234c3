//! Character-level string helpers shared by the runtime modules.

use vstd::prelude::*;

verus! {

/// Appends one character to a string.
/// Wraps `String::push`, which std documents as appending the character to the end.
#[verifier::external_body]
pub(crate) fn push_char(s: &mut String, c: char)
    ensures
        final(s)@ == old(s)@.push(c),
{
    s.push(c);
}

/// The characters of a string, in order.
pub fn to_chars(s: &str) -> (v: Vec<char>)
    ensures
        v@ == s@,
{
    let mut v: Vec<char> = Vec::new();
    for c in it: s.chars()
        invariant
            v@ == it.seq().take(it.index() as int),
    {
        v.push(c);
    }
    v
}

/// The string made of the given characters.
pub fn from_chars(v: &[char]) -> (s: String)
    ensures
        s@ == v@,
{
    let mut s = String::new();
    let mut i: usize = 0;
    while i < v.len()
        invariant
            i <= v.len(),
            s@ == v@.take(i as int),
        decreases v.len() - i,
    {
        push_char(&mut s, v[i]);
        assert(v@.take(i as int).push(v@[i as int]) == v@.take(i + 1));
        i = i + 1;
    }
    assert(v@.take(v.len() as int) == v@);
    s
}


/// Unicode `White_Space`, the property that `char::is_whitespace` tests.
pub open spec fn is_ws(c: char) -> bool {
    let n = c as u32;
    (9 <= n <= 13) || n == 32 || n == 0x85 || n == 0xA0 || n == 0x1680 || (0x2000 <= n <= 0x200A)
        || n == 0x2028 || n == 0x2029 || n == 0x202F || n == 0x205F || n == 0x3000
}

pub fn is_whitespace(c: char) -> (b: bool)
    ensures
        b == is_ws(c),
{
    let n = c as u32;
    (9 <= n && n <= 13) || n == 32 || n == 0x85 || n == 0xA0 || n == 0x1680 || (0x2000 <= n && n
        <= 0x200A) || n == 0x2028 || n == 0x2029 || n == 0x202F || n == 0x205F || n == 0x3000
}

pub open spec fn is_ascii_digit(c: char) -> bool {
    '0' <= c <= '9'
}

pub open spec fn is_ascii_upper(c: char) -> bool {
    'A' <= c <= 'Z'
}

pub open spec fn is_ascii_lower(c: char) -> bool {
    'a' <= c <= 'z'
}

pub open spec fn is_ascii_alpha(c: char) -> bool {
    is_ascii_upper(c) || is_ascii_lower(c)
}

pub open spec fn is_ascii_alnum(c: char) -> bool {
    is_ascii_alpha(c) || is_ascii_digit(c)
}

/// `char::to_ascii_lowercase`.
pub open spec fn ascii_lower(c: char) -> char {
    if is_ascii_upper(c) {
        ((c as u32) + 32) as char
    } else {
        c
    }
}

pub fn to_ascii_lower_char(c: char) -> (r: char)
    ensures
        r == ascii_lower(c),
{
    if 'A' <= c && c <= 'Z' {
        (((c as u32) + 32) as u8) as char
    } else {
        c
    }
}


/// `str::to_ascii_lowercase`.
pub open spec fn lower(s: Seq<char>) -> Seq<char> {
    s.map_values(|c: char| ascii_lower(c))
}

/// `str::eq_ignore_ascii_case`.
pub open spec fn eq_ignore_case(a: Seq<char>, b: Seq<char>) -> bool {
    lower(a) == lower(b)
}

/// The leading characters `str::trim_start` removes.
pub open spec fn lead_ws(s: Seq<char>) -> nat
    decreases s.len(),
{
    if s.len() > 0 && is_ws(s[0]) {
        1 + lead_ws(s.drop_first())
    } else {
        0
    }
}

/// The trailing characters `str::trim_end` removes.
pub open spec fn trail_ws(s: Seq<char>) -> nat
    decreases s.len(),
{
    if s.len() > 0 && is_ws(s.last()) {
        1 + trail_ws(s.drop_last())
    } else {
        0
    }
}

/// `str::trim_start`.
pub open spec fn trim_start(s: Seq<char>) -> Seq<char> {
    s.skip(lead_ws(s) as int)
}

/// `str::trim_end`.
pub open spec fn trim_end(s: Seq<char>) -> Seq<char> {
    s.take(s.len() - trail_ws(s))
}

/// `str::trim`.
pub open spec fn trim(s: Seq<char>) -> Seq<char> {
    trim_end(trim_start(s))
}

/// Leading copies of `c`, as `str::trim_start_matches(c)` removes them.
pub open spec fn lead_run(s: Seq<char>, c: char) -> nat
    decreases s.len(),
{
    if s.len() > 0 && s[0] == c {
        1 + lead_run(s.drop_first(), c)
    } else {
        0
    }
}

/// Trailing copies of `c`, as `str::trim_end_matches(c)` removes them.
pub open spec fn trail_run(s: Seq<char>, c: char) -> nat
    decreases s.len(),
{
    if s.len() > 0 && s.last() == c {
        1 + trail_run(s.drop_last(), c)
    } else {
        0
    }
}

/// `str::trim_start_matches(c)`.
pub open spec fn trim_start_char(s: Seq<char>, c: char) -> Seq<char> {
    s.skip(lead_run(s, c) as int)
}

/// `str::trim_end_matches(c)`.
pub open spec fn trim_end_char(s: Seq<char>, c: char) -> Seq<char> {
    s.take(s.len() - trail_run(s, c))
}

/// `str::trim_matches(c)`.
pub open spec fn trim_char(s: Seq<char>, c: char) -> Seq<char> {
    trim_end_char(trim_start_char(s, c), c)
}

/// `str::starts_with`.
pub open spec fn starts_with(s: Seq<char>, p: Seq<char>) -> bool {
    p.len() <= s.len() && s.take(p.len() as int) == p
}

/// `str::ends_with`.
pub open spec fn ends_with(s: Seq<char>, p: Seq<char>) -> bool {
    p.len() <= s.len() && s.skip(s.len() - p.len()) == p
}

/// `str::strip_prefix`.
pub open spec fn strip_prefix(s: Seq<char>, p: Seq<char>) -> Option<Seq<char>> {
    if starts_with(s, p) {
        Some(s.skip(p.len() as int))
    } else {
        None
    }
}

/// The index of the first `c` in `s`, as `str::find(c)` reports it (in characters).
pub open spec fn find_char(s: Seq<char>, c: char) -> Option<nat>
    decreases s.len(),
{
    if s.len() == 0 {
        None
    } else if s[0] == c {
        Some(0)
    } else {
        match find_char(s.drop_first(), c) {
            Some(i) => Some(i + 1),
            None => None,
        }
    }
}

/// What `find_char` reports: the first occurrence, or that there is none.
pub proof fn lemma_find_char(s: Seq<char>, c: char)
    ensures
        match find_char(s, c) {
            Some(i) => i < s.len() && s[i as int] == c && forall|j: int| 0 <= j < i ==> s[j] != c,
            None => forall|j: int| 0 <= j < s.len() ==> s[j] != c,
        },
    decreases s.len(),
{
    if s.len() > 0 && s[0] != c {
        lemma_find_char(s.drop_first(), c);
        assert forall|j: int| 1 <= j < s.len() implies s[j] == s.drop_first()[j - 1] by {}
    }
}

/// Whether `p` occurs in `s` at index `i`.
pub open spec fn occurs_at(s: Seq<char>, p: Seq<char>, i: int) -> bool {
    0 <= i && i + p.len() <= s.len() && s.subrange(i, i + p.len()) == p
}

/// The index of the first occurrence of `p` in `s` at or after `from`.
pub open spec fn find_from(s: Seq<char>, p: Seq<char>, from: int) -> Option<nat>
    decreases s.len() + 1 - from,
{
    if from < 0 || from + p.len() > s.len() {
        None
    } else if occurs_at(s, p, from) {
        Some(from as nat)
    } else {
        find_from(s, p, from + 1)
    }
}

/// `str::find` for a pattern string.
pub open spec fn find_str(s: Seq<char>, p: Seq<char>) -> Option<nat> {
    find_from(s, p, 0)
}

/// `str::contains` for a pattern string.
pub open spec fn contains_str(s: Seq<char>, p: Seq<char>) -> bool {
    find_str(s, p) is Some
}

/// `str::split_once(c)`.
pub open spec fn split_once(s: Seq<char>, c: char) -> Option<(Seq<char>, Seq<char>)> {
    match find_char(s, c) {
        Some(i) => Some((s.take(i as int), s.skip(i as int + 1))),
        None => None,
    }
}

/// `str::split(c)`: the pieces between the occurrences of `c`.
pub open spec fn split(s: Seq<char>, c: char) -> Seq<Seq<char>>
    decreases s.len(),
{
    match find_char(s, c) {
        Some(i) => {
            proof {
                lemma_find_char(s, c);
            }
            seq![s.take(i as int)] + split(s.skip(i as int + 1), c)
        },
        None => seq![s],
    }
}

/// `str::lines`: the pieces ended by `\n`, each without a final `\r`,
/// and no empty piece after a final `\n`.
pub open spec fn lines(s: Seq<char>) -> Seq<Seq<char>>
    decreases s.len(),
{
    if s.len() == 0 {
        seq![]
    } else {
        match find_char(s, '\n') {
            Some(i) => {
                proof {
                    lemma_find_char(s, '\n');
                }
                seq![strip_cr(s.take(i as int))] + lines(s.skip(i as int + 1))
            },
            None => seq![strip_cr(s)],
        }
    }
}

/// A line without its final `\r`, if it has one.
pub open spec fn strip_cr(s: Seq<char>) -> Seq<char> {
    if s.len() > 0 && s.last() == '\r' {
        s.drop_last()
    } else {
        s
    }
}

/// `str::split_inclusive('\n')`: the pieces, each with its `\n`.
pub open spec fn split_inclusive_nl(s: Seq<char>) -> Seq<Seq<char>>
    decreases s.len(),
{
    if s.len() == 0 {
        seq![]
    } else {
        match find_char(s, '\n') {
            Some(i) => {
                proof {
                    lemma_find_char(s, '\n');
                }
                seq![s.take(i as int + 1)] + split_inclusive_nl(s.skip(i as int + 1))
            },
            None => seq![s],
        }
    }
}

/// Characters that satisfy a predicate everywhere.
pub open spec fn all_chars(s: Seq<char>, p: spec_fn(char) -> bool) -> bool {
    forall|i: int| 0 <= i < s.len() ==> p(#[trigger] s[i])
}


/// The characters `s[lo..hi]`.
pub fn slice_of(s: &Vec<char>, lo: usize, hi: usize) -> (r: Vec<char>)
    requires
        lo <= hi <= s.len(),
    ensures
        r@ == s@.subrange(lo as int, hi as int),
{
    let mut r: Vec<char> = Vec::new();
    let mut i = lo;
    while i < hi
        invariant
            lo <= i <= hi <= s.len(),
            r@ == s@.subrange(lo as int, i as int),
        decreases hi - i,
    {
        r.push(s[i]);
        i = i + 1;
    }
    r
}

/// Appends `w` to `v`.
pub fn push_all(v: &mut Vec<char>, w: &Vec<char>)
    ensures
        final(v)@ == old(v)@ + w@,
{
    let mut i: usize = 0;
    while i < w.len()
        invariant
            i <= w.len(),
            v@ == old(v)@ + w@.take(i as int),
        decreases w.len() - i,
    {
        v.push(w[i]);
        assert(w@.take(i as int).push(w@[i as int]) == w@.take(i + 1));
        i = i + 1;
    }
    assert(w@.take(w.len() as int) == w@);
}

/// Appends the characters of `w` to `v`.
pub fn push_str(v: &mut Vec<char>, w: &str)
    ensures
        final(v)@ == old(v)@ + w@,
{
    let c = to_chars(w);
    push_all(v, &c);
}

/// Whether two character sequences are equal.
pub fn chars_eq(a: &Vec<char>, b: &Vec<char>) -> (r: bool)
    ensures
        r == (a@ == b@),
{
    if a.len() != b.len() {
        return false;
    }
    let mut i: usize = 0;
    while i < a.len()
        invariant
            a.len() == b.len(),
            i <= a.len(),
            forall|j: int| 0 <= j < i ==> a@[j] == b@[j],
        decreases a.len() - i,
    {
        if a[i] != b[i] {
            return false;
        }
        i = i + 1;
    }
    assert(a@ =~= b@);
    true
}

/// Whether the characters equal those of a string.
pub fn is(a: &Vec<char>, b: &str) -> (r: bool)
    ensures
        r == (a@ == b@),
{
    let bv = to_chars(b);
    chars_eq(a, &bv)
}

pub fn lower_chars(s: &Vec<char>) -> (r: Vec<char>)
    ensures
        r@ == lower(s@),
{
    let mut r: Vec<char> = Vec::new();
    let mut i: usize = 0;
    while i < s.len()
        invariant
            i <= s.len(),
            r@ == lower(s@.take(i as int)),
        decreases s.len() - i,
    {
        r.push(to_ascii_lower_char(s[i]));
        assert(lower(s@.take(i + 1)) =~= lower(s@.take(i as int)).push(ascii_lower(s@[i as int])));
        i = i + 1;
    }
    assert(s@.take(s.len() as int) == s@);
    r
}

pub fn eq_ignore_case_chars(a: &Vec<char>, b: &Vec<char>) -> (r: bool)
    ensures
        r == eq_ignore_case(a@, b@),
{
    let la = lower_chars(a);
    let lb = lower_chars(b);
    chars_eq(&la, &lb)
}

proof fn lemma_lead_ws_step(s: Seq<char>, i: int)
    requires
        0 <= i < s.len(),
    ensures
        s.skip(i).drop_first() == s.skip(i + 1),
        s.skip(i)[0] == s[i],
{
    assert(s.skip(i).drop_first() =~= s.skip(i + 1));
}

/// The number of leading whitespace characters.
pub fn lead_ws_count(s: &Vec<char>) -> (n: usize)
    ensures
        n == lead_ws(s@),
        n <= s.len(),
{
    let mut i: usize = 0;
    assert(s@.skip(0) =~= s@);
    while i < s.len() && is_whitespace(s[i])
        invariant
            i <= s.len(),
            lead_ws(s@) == i + lead_ws(s@.skip(i as int)),
        decreases s.len() - i,
    {
        proof {
            lemma_lead_ws_step(s@, i as int);
        }
        i = i + 1;
    }
    proof {
        if i < s.len() {
            assert(s@.skip(i as int)[0] == s@[i as int]);
        } else {
            assert(s@.skip(i as int).len() == 0);
        }
    }
    i
}

/// The number of trailing whitespace characters.
pub fn trail_ws_count(s: &Vec<char>) -> (n: usize)
    ensures
        n == trail_ws(s@),
        n <= s.len(),
{
    let mut k: usize = s.len();
    assert(s@.take(k as int) =~= s@);
    while k > 0 && is_whitespace(s[k - 1])
        invariant
            k <= s.len(),
            trail_ws(s@) == (s.len() - k) + trail_ws(s@.take(k as int)),
        decreases k,
    {
        assert(s@.take(k as int).drop_last() =~= s@.take(k - 1));
        k = k - 1;
    }
    s.len() - k
}

pub fn trim_start_chars(s: &Vec<char>) -> (r: Vec<char>)
    ensures
        r@ == trim_start(s@),
{
    let n = lead_ws_count(s);
    slice_of(s, n, s.len())
}

pub fn trim_end_chars(s: &Vec<char>) -> (r: Vec<char>)
    ensures
        r@ == trim_end(s@),
{
    let n = trail_ws_count(s);
    slice_of(s, 0, s.len() - n)
}

pub fn trim_chars(s: &Vec<char>) -> (r: Vec<char>)
    ensures
        r@ == trim(s@),
{
    let t = trim_start_chars(s);
    trim_end_chars(&t)
}

pub fn trim_start_char_chars(s: &Vec<char>, c: char) -> (r: Vec<char>)
    ensures
        r@ == trim_start_char(s@, c),
{
    let mut i: usize = 0;
    assert(s@.skip(0) =~= s@);
    while i < s.len() && s[i] == c
        invariant
            i <= s.len(),
            lead_run(s@, c) == i + lead_run(s@.skip(i as int), c),
        decreases s.len() - i,
    {
        proof {
            lemma_lead_ws_step(s@, i as int);
        }
        i = i + 1;
    }
    proof {
        if i < s.len() {
            assert(s@.skip(i as int)[0] == s@[i as int]);
        }
    }
    slice_of(s, i, s.len())
}

pub fn trim_end_char_chars(s: &Vec<char>, c: char) -> (r: Vec<char>)
    ensures
        r@ == trim_end_char(s@, c),
{
    let mut k: usize = s.len();
    assert(s@.take(k as int) =~= s@);
    while k > 0 && s[k - 1] == c
        invariant
            k <= s.len(),
            trail_run(s@, c) == (s.len() - k) + trail_run(s@.take(k as int), c),
        decreases k,
    {
        assert(s@.take(k as int).drop_last() =~= s@.take(k - 1));
        k = k - 1;
    }
    slice_of(s, 0, k)
}

pub fn trim_char_chars(s: &Vec<char>, c: char) -> (r: Vec<char>)
    ensures
        r@ == trim_char(s@, c),
{
    let t = trim_start_char_chars(s, c);
    trim_end_char_chars(&t, c)
}

pub fn starts_with_chars(s: &Vec<char>, p: &Vec<char>) -> (r: bool)
    ensures
        r == starts_with(s@, p@),
{
    if p.len() > s.len() {
        return false;
    }
    let mut i: usize = 0;
    while i < p.len()
        invariant
            p.len() <= s.len(),
            i <= p.len(),
            forall|j: int| 0 <= j < i ==> s@[j] == p@[j],
        decreases p.len() - i,
    {
        if s[i] != p[i] {
            assert(s@.take(p.len() as int)[i as int] != p@[i as int]);
            return false;
        }
        i = i + 1;
    }
    assert(s@.take(p.len() as int) =~= p@);
    true
}

pub fn starts_with_str(s: &Vec<char>, p: &str) -> (r: bool)
    ensures
        r == starts_with(s@, p@),
{
    let pv = to_chars(p);
    starts_with_chars(s, &pv)
}

pub fn ends_with_chars(s: &Vec<char>, p: &Vec<char>) -> (r: bool)
    ensures
        r == ends_with(s@, p@),
{
    if p.len() > s.len() {
        return false;
    }
    let off = s.len() - p.len();
    let mut i: usize = 0;
    while i < p.len()
        invariant
            p.len() <= s.len(),
            off == s.len() - p.len(),
            i <= p.len(),
            forall|j: int| 0 <= j < i ==> s@[off + j] == p@[j],
        decreases p.len() - i,
    {
        if s[off + i] != p[i] {
            assert(s@.skip(off as int)[i as int] != p@[i as int]);
            return false;
        }
        i = i + 1;
    }
    assert(s@.skip(off as int) =~= p@);
    true
}

pub fn strip_prefix_str(s: &Vec<char>, p: &str) -> (r: Option<Vec<char>>)
    ensures
        match r {
            Some(v) => strip_prefix(s@, p@) == Some(v@),
            None => strip_prefix(s@, p@) is None,
        },
{
    let pv = to_chars(p);
    if starts_with_chars(s, &pv) {
        Some(slice_of(s, pv.len(), s.len()))
    } else {
        None
    }
}

/// The first index at or after `from` that holds `c`.
pub fn find_char_from(s: &Vec<char>, c: char, from: usize) -> (r: Option<usize>)
    requires
        from <= s.len(),
    ensures
        match r {
            Some(i) => from <= i < s.len() && s@[i as int] == c && forall|j: int|
                from <= j < i ==> s@[j] != c,
            None => forall|j: int| from <= j < s.len() ==> s@[j] != c,
        },
{
    let mut i = from;
    while i < s.len()
        invariant
            from <= i <= s.len(),
            forall|j: int| from <= j < i ==> s@[j] != c,
        decreases s.len() - i,
    {
        if s[i] == c {
            return Some(i);
        }
        i = i + 1;
    }
    None
}

/// `find_char` agrees with any index that is the first occurrence.
pub proof fn lemma_find_char_is(s: Seq<char>, c: char, r: Option<nat>)
    requires
        match r {
            Some(i) => i < s.len() && s[i as int] == c && forall|j: int| 0 <= j < i ==> s[j] != c,
            None => forall|j: int| 0 <= j < s.len() ==> s[j] != c,
        },
    ensures
        find_char(s, c) == r,
{
    lemma_find_char(s, c);
}

pub fn find_char_chars(s: &Vec<char>, c: char) -> (r: Option<usize>)
    ensures
        match r {
            Some(i) => find_char(s@, c) == Some(i as nat),
            None => find_char(s@, c) is None,
        },
        r is Some ==> r->0 < s.len(),
{
    let r = find_char_from(s, c, 0);
    proof {
        match r {
            Some(i) => lemma_find_char_is(s@, c, Some(i as nat)),
            None => lemma_find_char_is(s@, c, None),
        }
    }
    r
}

pub fn split_once_chars(s: &Vec<char>, c: char) -> (r: Option<(Vec<char>, Vec<char>)>)
    ensures
        match r {
            Some(p) => split_once(s@, c) == Some((p.0@, p.1@)),
            None => split_once(s@, c) is None,
        },
{
    match find_char_chars(s, c) {
        Some(i) => Some((slice_of(s, 0, i), slice_of(s, i + 1, s.len()))),
        None => None,
    }
}

/// Whether `p` occurs in `s` at index `i`.
pub fn occurs_at_chars(s: &Vec<char>, p: &Vec<char>, i: usize) -> (r: bool)
    ensures
        r == occurs_at(s@, p@, i as int),
{
    if i > s.len() || p.len() > s.len() - i {
        return false;
    }
    let mut k: usize = 0;
    while k < p.len()
        invariant
            i + p.len() <= s.len(),
            k <= p.len(),
            forall|j: int| 0 <= j < k ==> s@[i + j] == p@[j],
        decreases p.len() - k,
    {
        if s[i + k] != p[k] {
            assert(s@.subrange(i as int, i + p.len())[k as int] != p@[k as int]);
            return false;
        }
        k = k + 1;
    }
    assert(s@.subrange(i as int, i + p.len()) =~= p@);
    true
}

pub fn find_str_chars(s: &Vec<char>, p: &Vec<char>) -> (r: Option<usize>)
    ensures
        match r {
            Some(i) => find_str(s@, p@) == Some(i as nat),
            None => find_str(s@, p@) is None,
        },
        r is Some ==> r->0 + p.len() <= s.len(),
{
    if p.len() > s.len() {
        return None;
    }
    let last = s.len() - p.len();
    let mut i: usize = 0;
    while i <= last
        invariant
            p.len() <= s.len(),
            last == s.len() - p.len(),
            i <= last + 1,
            find_str(s@, p@) == find_from(s@, p@, i as int),
        decreases last + 1 - i,
    {
        if occurs_at_chars(s, p, i) {
            return Some(i);
        }
        if i == last {
            assert(find_from(s@, p@, i + 1) is None);
            return None;
        }
        i = i + 1;
    }
    None
}

pub fn contains_str_chars(s: &Vec<char>, p: &str) -> (r: bool)
    ensures
        r == contains_str(s@, p@),
{
    let pv = to_chars(p);
    find_str_chars(s, &pv).is_some()
}

pub fn has_char_chars(s: &Vec<char>, c: char) -> (r: bool)
    ensures
        r == s@.contains(c),
{
    match find_char_from(s, c, 0) {
        Some(i) => {
            assert(s@[i as int] == c);
            true
        },
        None => false,
    }
}


/// The character sequences of a list of character vectors.
pub open spec fn views(v: Seq<Vec<char>>) -> Seq<Seq<char>> {
    v.map_values(|x: Vec<char>| x@)
}

/// The character sequences of a list of strings.
pub open spec fn str_views(v: Seq<String>) -> Seq<Seq<char>> {
    v.map_values(|x: String| x@)
}

pub proof fn lemma_views_push_pub(v: Seq<Vec<char>>, x: Vec<char>)
    ensures
        views(v.push(x)) == views(v).push(x@),
{
    lemma_views_push(v, x);
}

proof fn lemma_views_push(v: Seq<Vec<char>>, x: Vec<char>)
    ensures
        views(v.push(x)) == views(v).push(x@),
{
    assert(views(v.push(x)) =~= views(v).push(x@));
}

/// `find_char` on a suffix, from the first occurrence found in the whole sequence.
proof fn lemma_find_in_suffix(s: Seq<char>, c: char, st: int, i: int)
    requires
        0 <= st <= i < s.len(),
        s[i] == c,
        forall|j: int| st <= j < i ==> s[j] != c,
    ensures
        find_char(s.skip(st), c) == Some((i - st) as nat),
        s.skip(st).take(i - st) == s.subrange(st, i),
        s.skip(st).skip(i - st + 1) == s.skip(i + 1),
{
    lemma_find_char_is(s.skip(st), c, Some((i - st) as nat));
    assert(s.skip(st).take(i - st) =~= s.subrange(st, i));
    assert(s.skip(st).skip(i - st + 1) =~= s.skip(i + 1));
}

proof fn lemma_no_find_in_suffix(s: Seq<char>, c: char, st: int)
    requires
        0 <= st <= s.len(),
        forall|j: int| st <= j < s.len() ==> s[j] != c,
    ensures
        find_char(s.skip(st), c) is None,
{
    lemma_find_char_is(s.skip(st), c, None);
}

/// `str::split(c)` on characters.
pub fn split_chars(s: &Vec<char>, c: char) -> (r: Vec<Vec<char>>)
    ensures
        views(r@) == split(s@, c),
{
    let mut r: Vec<Vec<char>> = Vec::new();
    let mut st: usize = 0;
    assert(s@.skip(0) =~= s@);
    loop
        invariant
            st <= s.len(),
            split(s@, c) == views(r@) + split(s@.skip(st as int), c),
        decreases s.len() - st,
    {
        match find_char_from(s, c, st) {
            Some(i) => {
                let piece = slice_of(s, st, i);
                proof {
                    lemma_find_in_suffix(s@, c, st as int, i as int);
                    lemma_views_push(r@, piece);
                }
                r.push(piece);
                st = i + 1;
            },
            None => {
                let piece = slice_of(s, st, s.len());
                proof {
                    lemma_no_find_in_suffix(s@, c, st as int);
                    lemma_views_push(r@, piece);
                }
                r.push(piece);
                return r;
            },
        }
    }
}

/// `str::lines` on characters.
pub fn lines_chars(s: &Vec<char>) -> (r: Vec<Vec<char>>)
    ensures
        views(r@) == lines(s@),
{
    let mut r: Vec<Vec<char>> = Vec::new();
    let mut st: usize = 0;
    assert(s@.skip(0) =~= s@);
    while st < s.len()
        invariant
            st <= s.len(),
            lines(s@) == views(r@) + lines(s@.skip(st as int)),
        decreases s.len() - st,
    {
        match find_char_from(s, '\n', st) {
            Some(i) => {
                let mut e = i;
                if e > st && s[e - 1] == '\r' {
                    e = e - 1;
                }
                let piece = slice_of(s, st, e);
                proof {
                    lemma_find_in_suffix(s@, '\n', st as int, i as int);
                    assert(piece@ == strip_cr(s@.subrange(st as int, i as int)));
                    lemma_views_push(r@, piece);
                }
                r.push(piece);
                st = i + 1;
            },
            None => {
                let mut e = s.len();
                if e > st && s[e - 1] == '\r' {
                    e = e - 1;
                }
                let piece = slice_of(s, st, e);
                proof {
                    lemma_no_find_in_suffix(s@, '\n', st as int);
                    assert(s@.skip(st as int) =~= s@.subrange(st as int, s.len() as int));
                    assert(piece@ == strip_cr(s@.skip(st as int)));
                    lemma_views_push(r@, piece);
                }
                r.push(piece);
                assert(lines(s@.skip(s.len() as int)) =~= Seq::<Seq<char>>::empty());
                return r;
            },
        }
    }
    assert(lines(s@.skip(st as int)) =~= Seq::<Seq<char>>::empty());
    assert(views(r@) + Seq::<Seq<char>>::empty() =~= views(r@));
    r
}

/// `str::split_inclusive('\n')` on characters.
pub fn split_inclusive_nl_chars(s: &Vec<char>) -> (r: Vec<Vec<char>>)
    ensures
        views(r@) == split_inclusive_nl(s@),
{
    let mut r: Vec<Vec<char>> = Vec::new();
    let mut st: usize = 0;
    assert(s@.skip(0) =~= s@);
    while st < s.len()
        invariant
            st <= s.len(),
            split_inclusive_nl(s@) == views(r@) + split_inclusive_nl(s@.skip(st as int)),
        decreases s.len() - st,
    {
        match find_char_from(s, '\n', st) {
            Some(i) => {
                let piece = slice_of(s, st, i + 1);
                proof {
                    lemma_find_in_suffix(s@, '\n', st as int, i as int);
                    assert(s@.skip(st as int).take(i - st + 1) =~= s@.subrange(st as int, i + 1));
                    lemma_views_push(r@, piece);
                }
                r.push(piece);
                st = i + 1;
            },
            None => {
                let piece = slice_of(s, st, s.len());
                proof {
                    lemma_no_find_in_suffix(s@, '\n', st as int);
                    assert(s@.skip(st as int) =~= s@.subrange(st as int, s.len() as int));
                    lemma_views_push(r@, piece);
                }
                r.push(piece);
                assert(split_inclusive_nl(s@.skip(s.len() as int)) =~= Seq::<Seq<char>>::empty());
                return r;
            },
        }
    }
    assert(split_inclusive_nl(s@.skip(st as int)) =~= Seq::<Seq<char>>::empty());
    assert(views(r@) + Seq::<Seq<char>>::empty() =~= views(r@));
    r
}


/// The index of the first character satisfying `p`, or the length when none does.
pub open spec fn first_where(s: Seq<char>, p: spec_fn(char) -> bool) -> nat
    decreases s.len(),
{
    if s.len() == 0 {
        0
    } else if p(s[0]) {
        0
    } else {
        1 + first_where(s.drop_first(), p)
    }
}

pub proof fn lemma_first_where(s: Seq<char>, p: spec_fn(char) -> bool)
    ensures
        first_where(s, p) <= s.len(),
        forall|j: int| 0 <= j < first_where(s, p) ==> !p(#[trigger] s[j]),
        first_where(s, p) < s.len() ==> p(s[first_where(s, p) as int]),
    decreases s.len(),
{
    if s.len() > 0 && !p(s[0]) {
        lemma_first_where(s.drop_first(), p);
        assert forall|j: int| 1 <= j < s.len() implies s[j] == s.drop_first()[j - 1] by {}
    }
}

/// `first_where` is the index of the first character satisfying `p`.
pub proof fn lemma_first_where_is(s: Seq<char>, p: spec_fn(char) -> bool, r: nat)
    requires
        r <= s.len(),
        forall|j: int| 0 <= j < r ==> !p(#[trigger] s[j]),
        r < s.len() ==> p(s[r as int]),
    ensures
        first_where(s, p) == r,
{
    lemma_first_where(s, p);
    if first_where(s, p) < r {
        assert(!p(s[first_where(s, p) as int]));
    }
    if r < first_where(s, p) {
        assert(!p(s[r as int]));
    }
}



/// The number that a sequence of decimal digits denotes.
pub open spec fn digits_value(s: Seq<char>) -> nat
    decreases s.len(),
{
    if s.len() == 0 {
        0
    } else {
        digits_value(s.drop_last()) * 10 + ((s.last() as u32) - ('0' as u32)) as nat
    }
}

/// `str::parse::<u64>` on text without a sign: some number when the text is a
/// non-empty run of decimal digits whose value fits in 64 bits.
pub open spec fn parse_u64(s: Seq<char>) -> Option<u64> {
    if s.len() > 0 && all_chars(s, |c: char| is_ascii_digit(c)) && digits_value(s) <= u64::MAX {
        Some(digits_value(s) as u64)
    } else {
        None
    }
}

proof fn lemma_digits_value_mono(s: Seq<char>, k: int)
    requires
        0 <= k <= s.len(),
        all_chars(s, |c: char| is_ascii_digit(c)),
    ensures
        digits_value(s.take(k)) <= digits_value(s),
    decreases s.len() - k,
{
    if k < s.len() {
        assert(s.drop_last().take(k) =~= s.take(k));
        assert(all_chars(s.drop_last(), |c: char| is_ascii_digit(c))) by {
            assert forall|i: int| 0 <= i < s.drop_last().len() implies is_ascii_digit(#[trigger] s.drop_last()[i]) by {
                assert(s.drop_last()[i] == s[i]);
            }
        }
        lemma_digits_value_mono(s.drop_last(), k);
    } else {
        assert(s.take(k) =~= s);
    }
}

pub fn parse_u64_chars(s: &Vec<char>) -> (r: Option<u64>)
    ensures
        r == parse_u64(s@),
{
    if s.len() == 0 {
        return None;
    }
    let mut i: usize = 0;
    while i < s.len()
        invariant
            i <= s.len(),
            forall|j: int| 0 <= j < i ==> is_ascii_digit(#[trigger] s@[j]),
        decreases s.len() - i,
    {
        if !('0' <= s[i] && s[i] <= '9') {
            assert(!all_chars(s@, |c: char| is_ascii_digit(c)));
            return None;
        }
        i = i + 1;
    }
    assert(all_chars(s@, |c: char| is_ascii_digit(c)));
    let mut v: u64 = 0;
    let mut k: usize = 0;
    assert(s@.take(0) =~= Seq::<char>::empty());
    while k < s.len()
        invariant
            k <= s.len(),
            all_chars(s@, |c: char| is_ascii_digit(c)),
            v == digits_value(s@.take(k as int)),
        decreases s.len() - k,
    {
        let d = (s[k] as u32 - '0' as u32) as u64;
        assert(s@.take(k + 1).drop_last() =~= s@.take(k as int));
        assert(is_ascii_digit(s@[k as int]));
        if v > (u64::MAX - d) / 10 {
            proof {
                lemma_digits_value_mono(s@, k + 1);
                assert(digits_value(s@.take(k + 1)) == v * 10 + d);
                assert(v * 10 + d > u64::MAX) by (nonlinear_arith)
                    requires
                        v > (u64::MAX - d) / 10,
                        d <= 9,
                ;
            }
            return None;
        }
        assert(v * 10 + d <= u64::MAX) by (nonlinear_arith)
            requires
                v <= (u64::MAX - d) / 10,
                d <= 9,
        ;
        v = v * 10 + d;
        k = k + 1;
    }
    assert(s@.take(s.len() as int) =~= s@);
    Some(v)
}


/// Whether a path piece names a component: not empty and not `.`.
pub open spec fn is_component(c: Seq<char>) -> bool {
    c.len() > 0 && c != seq!['.']
}

/// The named components of a `/`-separated path, as `Path::components` yields
/// them apart from the root: empty pieces and `.` pieces are skipped.
pub open spec fn path_components(s: Seq<char>) -> Seq<Seq<char>> {
    split(s, '/').filter(|c: Seq<char>| is_component(c))
}

/// `Path::file_name`: the last component, unless it is `..` or there is none.
pub open spec fn path_file_name(s: Seq<char>) -> Option<Seq<char>> {
    let c = path_components(s);
    if c.len() == 0 || c.last() == seq!['.', '.'] {
        None
    } else {
        Some(c.last())
    }
}

pub fn path_components_chars(s: &Vec<char>) -> (r: Vec<Vec<char>>)
    ensures
        views(r@) == path_components(s@),
{
    let parts = split_chars(s, '/');
    let ghost pv = views(parts@);
    let mut r: Vec<Vec<char>> = Vec::new();
    let mut k: usize = 0;
    assert(pv.take(0).filter(|c: Seq<char>| is_component(c)) =~= Seq::<Seq<char>>::empty());
    while k < parts.len()
        invariant
            k <= parts.len(),
            pv == views(parts@),
            views(r@) == pv.take(k as int).filter(|c: Seq<char>| is_component(c)),
        decreases parts.len() - k,
    {
        assert(pv[k as int] == parts@[k as int]@);
        assert(pv.take(k + 1).drop_last() =~= pv.take(k as int));
        assert(pv.take(k + 1).last() == pv[k as int]);
        let keep = parts[k].len() > 0 && !(parts[k].len() == 1 && parts[k][0] == '.');
        proof {
            reveal(Seq::filter);
            assert(keep == is_component(pv[k as int])) by {
                if pv[k as int].len() == 1 && pv[k as int][0] == '.' {
                    assert(pv[k as int] =~= seq!['.']);
                }
            }
        }
        if keep {
            let c = slice_of(&parts[k], 0, parts[k].len());
            assert(c@ =~= pv[k as int]);
            proof {
                lemma_views_push(r@, c);
            }
            r.push(c);
        }
        k = k + 1;
    }
    assert(pv.take(k as int) =~= pv);
    r
}

pub fn path_file_name_chars(s: &Vec<char>) -> (r: Option<Vec<char>>)
    ensures
        match r {
            Some(v) => path_file_name(s@) == Some(v@),
            None => path_file_name(s@) is None,
        },
{
    let c = path_components_chars(s);
    assert(views(c@).len() == c@.len());
    if c.len() == 0 {
        return None;
    }
    let last = slice_of(&c[c.len() - 1], 0, c[c.len() - 1].len());
    assert(views(c@).last() == c@[c.len() - 1]@);
    assert(last@ =~= c@[c.len() - 1]@);
    if last.len() == 2 && last[0] == '.' && last[1] == '.' {
        assert(last@ =~= seq!['.', '.']);
        return None;
    }
    assert(last@ != seq!['.', '.']) by {
        if last@ == seq!['.', '.'] {
            assert(last@.len() == 2 && last@[0] == '.' && last@[1] == '.');
        }
    }
    Some(last)
}


/// `[..].join(sep)`: the pieces with `sep` between each two of them.
pub open spec fn join(parts: Seq<Seq<char>>, sep: Seq<char>) -> Seq<char>
    decreases parts.len(),
{
    if parts.len() == 0 {
        seq![]
    } else if parts.len() == 1 {
        parts[0]
    } else {
        join(parts.drop_last(), sep) + sep + parts.last()
    }
}

/// Joins character sequences with a separator.
pub fn join_chars(parts: &Vec<Vec<char>>, sep: &str) -> (r: Vec<char>)
    ensures
        r@ == join(views(parts@), sep@),
{
    let ghost pv = views(parts@);
    if parts.len() == 0 {
        return Vec::new();
    }
    let mut r = slice_of(&parts[0], 0, parts[0].len());
    assert(r@ =~= parts@[0]@);
    assert(pv.take(1).drop_last() =~= Seq::<Seq<char>>::empty());
    assert(join(pv.take(1), sep@) == pv.take(1)[0]);
    let mut i: usize = 1;
    while i < parts.len()
        invariant
            1 <= i <= parts.len(),
            pv == views(parts@),
            r@ == join(pv.take(i as int), sep@),
        decreases parts.len() - i,
    {
        push_str(&mut r, sep);
        push_all(&mut r, &parts[i]);
        assert(pv.take(i + 1).drop_last() =~= pv.take(i as int));
        assert(pv.take(i + 1).last() == parts@[i as int]@);
        i = i + 1;
    }
    assert(pv.take(i as int) =~= pv);
    r
}

/// What `{:?}` writes for a string: the text between double quotes, with double
/// quotes, backslashes and characters that are not printable escaped.
pub uninterp spec fn debug_str(s: Seq<char>) -> Seq<char>;

/// A character that `{:?}` writes unchanged inside a string: printable ASCII
/// other than a double quote and a backslash.
pub open spec fn is_plain_debug_char(c: char) -> bool {
    ' ' <= c <= '~' && c != '"' && c != '\\'
}

/// What `{:?}` writes for a string, as far as it is stated here: for text made
/// only of plain characters, the text between double quotes; else `debug_str`.
pub open spec fn debug_text(s: Seq<char>) -> Seq<char> {
    if forall|i: int| 0 <= i < s.len() ==> is_plain_debug_char(#[trigger] s[i]) {
        seq!['"'] + s + seq!['"']
    } else {
        debug_str(s)
    }
}

/// Formats a string as `{:?}` does (`<str as Debug>::fmt`, through `format!`).
/// Trusted: the result is `debug_str` of the text, and `debug_text` of it: for
/// text made only of printable ASCII other than `"` and `\`, which
/// `char::escape_debug` leaves as it is, the text between double quotes.
/// Nothing else is stated of the escapes.
#[verifier::external_body]
pub(crate) fn debug_quoted(s: &str) -> (r: String)
    ensures
        r@ == debug_str(s@),
        r@ == debug_text(s@),
{
    format!("{:?}", s)
}


/// `trim_start` removes no more characters than there are.
pub proof fn lemma_lead_ws_bound(s: Seq<char>)
    ensures
        lead_ws(s) <= s.len(),
        trim_start(s).len() == s.len() - lead_ws(s),
    decreases s.len(),
{
    if s.len() > 0 && is_ws(s[0]) {
        lemma_lead_ws_bound(s.drop_first());
    }
}

/// An occurrence that `find_from` reports lies within the sequence.
pub proof fn lemma_find_from_bound(s: Seq<char>, p: Seq<char>, from: int)
    ensures
        find_from(s, p, from) is Some ==> from <= find_from(s, p, from)->0 && find_from(s, p, from)->0
            + p.len() <= s.len() && occurs_at(s, p, find_from(s, p, from)->0 as int),
    decreases s.len() + 1 - from,
{
    if from < 0 || from + p.len() > s.len() {
    } else if occurs_at(s, p, from) {
    } else {
        lemma_find_from_bound(s, p, from + 1);
    }
}


/// `trim_matches` removes no more characters than there are.
pub proof fn lemma_trim_char_len(s: Seq<char>, c: char)
    ensures
        trim_char(s, c).len() <= s.len(),
        trim_start_char(s, c).len() <= s.len(),
{
    lemma_lead_run_bound(s, c);
    lemma_trail_run_bound(trim_start_char(s, c), c);
}

pub proof fn lemma_lead_run_bound(s: Seq<char>, c: char)
    ensures
        lead_run(s, c) <= s.len(),
    decreases s.len(),
{
    if s.len() > 0 && s[0] == c {
        lemma_lead_run_bound(s.drop_first(), c);
    }
}

pub proof fn lemma_trail_run_bound(s: Seq<char>, c: char)
    ensures
        trail_run(s, c) <= s.len(),
    decreases s.len(),
{
    if s.len() > 0 && s.last() == c {
        lemma_trail_run_bound(s.drop_last(), c);
    }
}


/// `split` yields at least one piece.
pub proof fn lemma_split_nonempty(s: Seq<char>, c: char)
    ensures
        split(s, c).len() >= 1,
{
}

} // verus!
