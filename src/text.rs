//! Character-level helpers on source text.

use vstd::prelude::*;

verus! {

/// Character-wise equality of two strings.
pub fn str_eq(a: &str, b: &str) -> (r: bool)
    ensures
        r == (a@ == b@),
{
    let n = a.unicode_len();
    if n != b.unicode_len() {
        return false;
    }
    let mut i: usize = 0;
    while i < n
        invariant
            n == a@.len(),
            n == b@.len(),
            i <= n,
            a@.subrange(0, i as int) == b@.subrange(0, i as int),
        decreases n - i,
    {
        if a.get_char(i) != b.get_char(i) {
            assert(a@[i as int] != b@[i as int]);
            return false;
        }
        assert(a@.subrange(0, i + 1) == a@.subrange(0, i as int).push(a@[i as int]));
        assert(b@.subrange(0, i + 1) == b@.subrange(0, i as int).push(b@[i as int]));
        i = i + 1;
    }
    assert(a@ == a@.subrange(0, n as int));
    assert(b@ == b@.subrange(0, n as int));
    true
}

} // verus!

verus! {

/// Strict lexicographic order on character sequences, by code point.
pub open spec fn seq_lt(a: Seq<char>, b: Seq<char>) -> bool
    decreases a.len(),
{
    if b.len() == 0 {
        false
    } else if a.len() == 0 {
        true
    } else if a[0] != b[0] {
        (a[0] as u32) < (b[0] as u32)
    } else {
        seq_lt(a.drop_first(), b.drop_first())
    }
}

proof fn lemma_seq_lt_skip(a: Seq<char>, b: Seq<char>, i: int)
    requires
        0 <= i < a.len(),
        i < b.len(),
        a[i] == b[i],
    ensures
        seq_lt(a.skip(i), b.skip(i)) == seq_lt(a.skip(i + 1), b.skip(i + 1)),
{
    assert(a.skip(i).drop_first() =~= a.skip(i + 1));
    assert(b.skip(i).drop_first() =~= b.skip(i + 1));
}

/// Executable form of `seq_lt`.
pub fn str_lt(a: &str, b: &str) -> (r: bool)
    ensures
        r == seq_lt(a@, b@),
{
    let n = a.unicode_len();
    let m = b.unicode_len();
    let mut i: usize = 0;
    assert(a@.skip(0) =~= a@);
    assert(b@.skip(0) =~= b@);
    while i < n && i < m
        invariant
            n == a@.len(),
            m == b@.len(),
            i <= n,
            i <= m,
            seq_lt(a@, b@) == seq_lt(a@.skip(i as int), b@.skip(i as int)),
        decreases n - i,
    {
        let x = a.get_char(i);
        let y = b.get_char(i);
        if x != y {
            return (x as u32) < (y as u32);
        }
        proof {
            lemma_seq_lt_skip(a@, b@, i as int);
        }
        i = i + 1;
    }
    i < m
}

/// `p` is a prefix of `s`.
pub open spec fn has_prefix(s: Seq<char>, p: Seq<char>) -> bool {
    p.len() <= s.len() && s.subrange(0, p.len() as int) == p
}

/// `p` is a suffix of `s`.
pub open spec fn has_suffix(s: Seq<char>, p: Seq<char>) -> bool {
    p.len() <= s.len() && s.subrange(s.len() - p.len(), s.len() as int) == p
}

/// `p` occurs in `s`.
pub open spec fn contains_seq(s: Seq<char>, p: Seq<char>) -> bool {
    exists|k: int| 0 <= k && k + p.len() <= s.len() && #[trigger] s.subrange(k, k + p.len()) == p
}

/// Whether `s[k..k + p.len()]` equals `p`.
fn matches_at(s: &str, n: usize, p: &str, m: usize, k: usize) -> (r: bool)
    requires
        n == s@.len(),
        m == p@.len(),
        k + m <= n,
    ensures
        r == (s@.subrange(k as int, k + m) == p@),
{
    let mut i: usize = 0;
    while i < m
        invariant
            n == s@.len(),
            m == p@.len(),
            k + m <= n,
            i <= m,
            s@.subrange(k as int, k + i) == p@.subrange(0, i as int),
        decreases m - i,
    {
        if s.get_char(k + i) != p.get_char(i) {
            assert(s@.subrange(k as int, k + m)[i as int] != p@[i as int]);
            return false;
        }
        assert(s@.subrange(k as int, k + i + 1) =~= s@.subrange(k as int, k + i).push(s@[k + i]));
        assert(p@.subrange(0, i + 1) =~= p@.subrange(0, i as int).push(p@[i as int]));
        i = i + 1;
    }
    assert(p@.subrange(0, m as int) =~= p@);
    true
}

pub fn starts_with(s: &str, p: &str) -> (r: bool)
    ensures
        r == has_prefix(s@, p@),
{
    let n = s.unicode_len();
    let m = p.unicode_len();
    if m > n {
        return false;
    }
    matches_at(s, n, p, m, 0)
}

pub fn ends_with(s: &str, p: &str) -> (r: bool)
    ensures
        r == has_suffix(s@, p@),
{
    let n = s.unicode_len();
    let m = p.unicode_len();
    if m > n {
        return false;
    }
    matches_at(s, n, p, m, n - m)
}

pub fn contains(s: &str, p: &str) -> (r: bool)
    ensures
        r == contains_seq(s@, p@),
{
    let n = s.unicode_len();
    let m = p.unicode_len();
    if m > n {
        return false;
    }
    if m == 0 {
        assert(s@.subrange(0, 0 + p@.len() as int) =~= p@);
        return true;
    }
    let mut k: usize = 0;
    while k <= n - m
        invariant
            n == s@.len(),
            m == p@.len(),
            1 <= m <= n,
            k <= n - m + 1,
            forall|j: int| 0 <= j < k ==> #[trigger] s@.subrange(j, j + m) != p@,
        decreases n - k,
    {
        if matches_at(s, n, p, m, k) {
            return true;
        }
        k = k + 1;
    }
    false
}

} // verus!

verus! {

/// `char::is_alphanumeric` of std; Unicode's letters and numbers.
pub uninterp spec fn is_alphanumeric(c: char) -> bool;

/// Relies on `char::is_alphanumeric`: whether the character is a Unicode
/// letter or number; it depends on the character alone. Among ASCII
/// characters exactly the letters and digits are.
#[verifier::external_body]
pub fn alphanumeric(c: char) -> (r: bool)
    ensures
        r == is_alphanumeric(c),
        (c as u32) < 128 ==> (r <==> (('a' <= c && c <= 'z') || ('A' <= c && c <= 'Z') || ('0' <= c && c <= '9'))),
{
    c.is_alphanumeric()
}

pub open spec fn is_ident_char(c: char) -> bool {
    is_alphanumeric(c) || c == '_'
}

fn ident_char(c: char) -> (r: bool)
    ensures
        r == is_ident_char(c),
{
    c == '_' || alphanumeric(c)
}

pub open spec fn word_start(l: Seq<char>, i: int) -> int
    decreases i,
{
    if 0 < i <= l.len() && is_ident_char(l[i - 1]) {
        word_start(l, i - 1)
    } else {
        i
    }
}

pub open spec fn word_end(l: Seq<char>, i: int) -> int
    decreases l.len() - i,
{
    if 0 <= i < l.len() && is_ident_char(l[i]) {
        word_end(l, i + 1)
    } else {
        i
    }
}

/// The identifier under column `col` of line `l`: the maximal run of
/// identifier characters that holds `l[col]`; none when `l[col]` is not one.
pub open spec fn word_at(l: Seq<char>, col: int) -> Option<Seq<char>> {
    if 0 <= col < l.len() && is_ident_char(l[col]) {
        Some(l.subrange(word_start(l, col), word_end(l, col)))
    } else {
        None
    }
}

proof fn lemma_word_bounds_start(l: Seq<char>, i: int)
    requires
        0 <= i <= l.len(),
    ensures
        0 <= word_start(l, i) <= i,
    decreases i,
{
    if 0 < i && is_ident_char(l[i - 1]) {
        lemma_word_bounds_start(l, i - 1);
    }
}

proof fn lemma_word_bounds_end(l: Seq<char>, i: int)
    requires
        0 <= i <= l.len(),
    ensures
        i <= word_end(l, i) <= l.len(),
    decreases l.len() - i,
{
    if i < l.len() && is_ident_char(l[i]) {
        lemma_word_bounds_end(l, i + 1);
    }
}

/// Executable form of `word_at`.
pub fn extract_word_at_position(line: &str, character: usize) -> (r: Option<String>)
    ensures
        opt_seq(r) == word_at(line@, character as int),
{
    let n = line.unicode_len();
    if character >= n || !ident_char(line.get_char(character)) {
        return None;
    }
    let mut start = character;
    proof {
        lemma_word_bounds_start(line@, character as int);
    }
    while start > 0 && ident_char(line.get_char(start - 1))
        invariant
            n == line@.len(),
            start <= character < n,
            word_start(line@, start as int) == word_start(line@, character as int),
        decreases start,
    {
        start = start - 1;
    }
    let mut end = character;
    while end < n && ident_char(line.get_char(end))
        invariant
            n == line@.len(),
            character <= end <= n,
            word_end(line@, end as int) == word_end(line@, character as int),
        decreases n - end,
    {
        end = end + 1;
    }
    Some(line.substring_char(start, end).to_owned())
}

pub open spec fn opt_seq(o: Option<String>) -> Option<Seq<char>> {
    match o {
        Some(s) => Some(s@),
        None => None,
    }
}

/// Index of the first line feed of `t`, or its length.
pub open spec fn first_newline(t: Seq<char>) -> int
    decreases t.len(),
{
    if t.len() == 0 {
        0
    } else if t[0] == '\n' {
        0
    } else {
        1 + first_newline(t.drop_first())
    }
}

pub open spec fn strip_cr(l: Seq<char>) -> Seq<char> {
    if l.len() > 0 && l.last() == '\r' { l.drop_last() } else { l }
}

/// Line `k` (zero-based) of `t` as `str::lines` splits it: at line feeds,
/// without a trailing carriage return, and with no line after a final
/// line feed.
pub open spec fn nth_line(t: Seq<char>, k: nat) -> Option<Seq<char>>
    decreases t.len(),
{
    if t.len() == 0 {
        None
    } else {
        let n = first_newline(t);
        if k == 0 {
            if 0 <= n <= t.len() { Some(strip_cr(t.subrange(0, n))) } else { None }
        } else if n < 0 || n >= t.len() {
            None
        } else {
            nth_line(t.subrange(n + 1, t.len() as int), (k - 1) as nat)
        }
    }
}

proof fn lemma_first_newline(t: Seq<char>)
    ensures
        0 <= first_newline(t) <= t.len(),
        forall|j: int| 0 <= j < first_newline(t) ==> t[j] != '\n',
        first_newline(t) < t.len() ==> t[first_newline(t)] == '\n',
    decreases t.len(),
{
    if t.len() > 0 && t[0] != '\n' {
        lemma_first_newline(t.drop_first());
        assert forall|j: int| 0 <= j < first_newline(t) implies t[j] != '\n' by {
            if j > 0 {
                assert(t[j] == t.drop_first()[j - 1]);
            }
        }
    }
}

pub proof fn lemma_first_newline_skip(t: Seq<char>, p: int, q: int)
    requires
        0 <= p <= q <= t.len(),
        forall|j: int| p <= j < q ==> t[j] != '\n',
        q == t.len() || t[q] == '\n',
    ensures
        first_newline(t.subrange(p, t.len() as int)) == q - p,
    decreases q - p,
{
    let s = t.subrange(p, t.len() as int);
    if p < q {
        assert(s.drop_first() =~= t.subrange(p + 1, t.len() as int));
        lemma_first_newline_skip(t, p + 1, q);
    }
}

/// Executable form of `nth_line`.
pub fn line_of_text(t: &str, k: usize) -> (r: Option<String>)
    ensures
        opt_seq(r) == nth_line(t@, k as nat),
{
    let n = t.unicode_len();
    let mut p: usize = 0;
    let mut left: usize = k;
    assert(t@.subrange(0, n as int) =~= t@);
    loop
        invariant
            n == t@.len(),
            p <= n,
            nth_line(t@, k as nat) == nth_line(t@.subrange(p as int, n as int), left as nat),
        decreases n - p,
    {
        if p == n {
            return None;
        }
        let mut q = p;
        while q < n && t.get_char(q) != '\n'
            invariant
                n == t@.len(),
                p <= q <= n,
                forall|j: int| p <= j < q ==> t@[j] != '\n',
            decreases n - q,
        {
            q = q + 1;
        }
        proof {
            lemma_first_newline_skip(t@, p as int, q as int);
        }
        let ghost s = t@.subrange(p as int, n as int);
        assert(s.subrange(0, (q - p) as int) =~= t@.subrange(p as int, q as int));
        if left == 0 {
            let end = if q > p && t.get_char(q - 1) == '\r' { q - 1 } else { q };
            assert(strip_cr(t@.subrange(p as int, q as int)) =~= t@.subrange(p as int, end as int));
            return Some(t.substring_char(p, end).to_owned());
        }
        if q == n {
            return None;
        }
        assert(s.subrange((q - p) + 1, s.len() as int) =~= t@.subrange(q + 1, n as int));
        p = q + 1;
        left = left - 1;
    }
}


/// Characters of `s` before its first `.`: the name that `import a.b`
/// binds.
pub open spec fn first_segment(s: Seq<char>) -> Seq<char>
    decreases s.len(),
{
    if s.len() == 0 || s[0] == '.' {
        Seq::empty()
    } else {
        seq![s[0]] + first_segment(s.drop_first())
    }
}

/// Executable form of `first_segment`.
pub fn first_segment_of(s: &str) -> (r: String)
    ensures
        r@ == first_segment(s@),
{
    let n = s.unicode_len();
    let mut k: usize = 0;
    assert(s@.subrange(0, n as int) =~= s@);
    assert(s@.subrange(0, 0) + first_segment(s@.subrange(0, n as int)) =~= first_segment(s@));
    while k < n && s.get_char(k) != '.'
        invariant
            n == s@.len(),
            k <= n,
            first_segment(s@) == s@.subrange(0, k as int) + first_segment(s@.subrange(k as int, n as int)),
        decreases n - k,
    {
        proof {
            let t = s@.subrange(k as int, n as int);
            assert(t.drop_first() =~= s@.subrange(k + 1, n as int));
            assert(s@.subrange(0, k as int) + (seq![t[0]] + first_segment(t.drop_first()))
                =~= s@.subrange(0, k + 1) + first_segment(s@.subrange(k + 1, n as int)));
        }
        k = k + 1;
    }
    proof {
        let t = s@.subrange(k as int, n as int);
        assert(first_segment(t) =~= Seq::<char>::empty());
        assert(s@.subrange(0, k as int) + Seq::<char>::empty() =~= s@.subrange(0, k as int));
    }
    s.substring_char(0, k).to_owned()
}

} // verus!
