//! Normalisation of docstrings in the manner of Python's `inspect.cleandoc`:
//! blank lines around the text are dropped, the first line is trimmed, and
//! the indentation common to the other lines is removed.

use vstd::prelude::*;
use crate::text::{first_newline, lemma_first_newline_skip, strip_cr};

verus! {

/// Unicode's White_Space property, which `char::is_whitespace` tests.
pub open spec fn is_whitespace(c: char) -> bool {
    let u = c as u32;
    (0x09 <= u && u <= 0x0d) || u == 0x20 || u == 0x85 || u == 0xa0 || u == 0x1680 || (0x2000 <= u && u <= 0x200a)
        || u == 0x2028 || u == 0x2029 || u == 0x202f || u == 0x205f || u == 0x3000
}

fn whitespace(c: char) -> (r: bool)
    ensures
        r == is_whitespace(c),
{
    let u = c as u32;
    (0x09 <= u && u <= 0x0d) || u == 0x20 || u == 0x85 || u == 0xa0 || u == 0x1680 || (0x2000 <= u && u <= 0x200a)
        || u == 0x2028 || u == 0x2029 || u == 0x202f || u == 0x205f || u == 0x3000
}

/// The lines of `t` as `str::lines` gives them.
pub open spec fn all_lines(t: Seq<char>) -> Seq<Seq<char>>
    decreases t.len(),
{
    if t.len() == 0 {
        Seq::empty()
    } else {
        let n = first_newline(t);
        if n < 0 || n > t.len() {
            Seq::empty()
        } else if n == t.len() {
            seq![strip_cr(t)]
        } else {
            seq![strip_cr(t.subrange(0, n))] + all_lines(t.subrange(n + 1, t.len() as int))
        }
    }
}

pub open spec fn is_blank(l: Seq<char>) -> bool {
    forall|i: int| 0 <= i < l.len() ==> is_whitespace(#[trigger] l[i])
}

/// Number of leading whitespace characters.
pub open spec fn indent(l: Seq<char>) -> nat
    decreases l.len(),
{
    if l.len() > 0 && is_whitespace(l[0]) { 1 + indent(l.drop_first()) } else { 0 }
}

/// Number of trailing whitespace characters.
pub open spec fn trailing(l: Seq<char>) -> nat
    decreases l.len(),
{
    if l.len() > 0 && is_whitespace(l.last()) { 1 + trailing(l.drop_last()) } else { 0 }
}

pub open spec fn trim_start(l: Seq<char>) -> Seq<char> {
    l.subrange(indent(l) as int, l.len() as int)
}

/// `l` without leading and trailing whitespace.
pub open spec fn trim(l: Seq<char>) -> Seq<char> {
    let s = trim_start(l);
    s.subrange(0, s.len() - trailing(s))
}

/// Index of the first line of `ls` from `k` on that is not blank.
pub open spec fn first_text(ls: Seq<Seq<char>>, k: int) -> int
    decreases ls.len() - k,
{
    if k >= ls.len() || k < 0 {
        ls.len() as int
    } else if !is_blank(ls[k]) {
        k
    } else {
        first_text(ls, k + 1)
    }
}

/// One past the last line of `ls` before `k` that is not blank.
pub open spec fn end_text(ls: Seq<Seq<char>>, k: int) -> int
    decreases k,
{
    if k <= 0 || k > ls.len() {
        0
    } else if !is_blank(ls[k - 1]) {
        k
    } else {
        end_text(ls, k - 1)
    }
}

/// Least indentation of the lines `body[1..k]` that are not blank; `None`
/// when there is none.
pub open spec fn min_indent(body: Seq<Seq<char>>, k: int) -> Option<nat>
    decreases k,
{
    if k <= 1 || k > body.len() {
        None
    } else {
        let rest = min_indent(body, k - 1);
        let l = body[k - 1];
        if is_blank(l) {
            rest
        } else {
            match rest {
                Some(m) => if indent(l) < m { Some(indent(l)) } else { Some(m) },
                None => Some(indent(l)),
            }
        }
    }
}

/// Line `k` of the cleaned text.
pub open spec fn cleaned_line(body: Seq<Seq<char>>, k: int, m: nat) -> Seq<char> {
    let l = body[k];
    if k == 0 {
        trim(l)
    } else if is_blank(l) {
        Seq::empty()
    } else if l.len() > m {
        l.subrange(m as int, l.len() as int)
    } else {
        trim_start(l)
    }
}

/// The cleaned lines `0..k`, joined by line feeds.
pub open spec fn joined(body: Seq<Seq<char>>, k: int, m: nat) -> Seq<char>
    decreases k,
{
    if k <= 0 {
        Seq::empty()
    } else if k == 1 {
        cleaned_line(body, 0, m)
    } else {
        joined(body, k - 1, m) + seq!['\n'] + cleaned_line(body, k - 1, m)
    }
}

pub open spec fn cleandoc(s: Seq<char>) -> Seq<char> {
    let ls = all_lines(s);
    let a = first_text(ls, 0);
    let b = end_text(ls, ls.len() as int);
    if a >= b {
        Seq::empty()
    } else {
        let body = ls.subrange(a, b);
        let m = match min_indent(body, body.len() as int) {
            Some(x) => x,
            None => 0,
        };
        joined(body, body.len() as int, m)
    }
}

/// The lines of `s`, each as a string.
fn lines_of(s: &str) -> (r: Vec<String>)
    ensures
        r@.map_values(|l: String| l@) == all_lines(s@),
{
    let n = s.unicode_len();
    let mut r: Vec<String> = Vec::new();
    let mut p: usize = 0;
    assert(s@.subrange(0, n as int) =~= s@);
    assert(r@.map_values(|l: String| l@) + all_lines(s@.subrange(0, n as int)) =~= all_lines(s@));
    while p < n
        invariant
            n == s@.len(),
            p <= n,
            r@.map_values(|l: String| l@) + all_lines(s@.subrange(p as int, n as int)) == all_lines(s@),
        decreases n - p,
    {
        let mut q = p;
        while q < n && s.get_char(q) != '\n'
            invariant
                n == s@.len(),
                p <= q <= n,
                forall|j: int| p <= j < q ==> s@[j] != '\n',
            decreases n - q,
        {
            q = q + 1;
        }
        proof {
            lemma_first_newline_skip(s@, p as int, q as int);
        }
        let ghost t = s@.subrange(p as int, n as int);
        assert(t.subrange(0, (q - p) as int) =~= s@.subrange(p as int, q as int));
        let end = if q > p && s.get_char(q - 1) == '\r' { q - 1 } else { q };
        assert(strip_cr(s@.subrange(p as int, q as int)) =~= s@.subrange(p as int, end as int));
        let line = s.substring_char(p, end).to_owned();
        let ghost before = r@.map_values(|l: String| l@);
        r.push(line);
        assert(r@.map_values(|l: String| l@) =~= before.push(line@));
        if q == n {
            assert(t =~= s@.subrange(p as int, q as int));
            assert(all_lines(t) == seq![strip_cr(t)]);
            assert(all_lines(s@.subrange(n as int, n as int)) =~= Seq::<Seq<char>>::empty());
            assert(before.push(line@) + Seq::<Seq<char>>::empty() =~= before + all_lines(t));
            p = n;
        } else {
            assert(t.subrange((q - p) + 1, t.len() as int) =~= s@.subrange(q + 1, n as int));
            assert(before.push(line@) + all_lines(s@.subrange(q + 1, n as int)) =~= before + all_lines(t));
            p = q + 1;
        }
    }
    assert(all_lines(s@.subrange(n as int, n as int)) =~= Seq::<Seq<char>>::empty());
    assert(r@.map_values(|l: String| l@) + Seq::<Seq<char>>::empty() =~= r@.map_values(|l: String| l@));
    r
}


fn blank(l: &str) -> (r: bool)
    ensures
        r == is_blank(l@),
{
    let n = l.unicode_len();
    let mut i: usize = 0;
    while i < n
        invariant
            n == l@.len(),
            i <= n,
            forall|j: int| 0 <= j < i ==> is_whitespace(#[trigger] l@[j]),
        decreases n - i,
    {
        if !whitespace(l.get_char(i)) {
            return false;
        }
        i = i + 1;
    }
    true
}

proof fn lemma_indent_skip(l: Seq<char>, i: int)
    requires
        0 <= i < l.len(),
        is_whitespace(l[i]),
    ensures
        indent(l.subrange(i, l.len() as int)) == 1 + indent(l.subrange(i + 1, l.len() as int)),
{
    assert(l.subrange(i, l.len() as int).drop_first() =~= l.subrange(i + 1, l.len() as int));
}

proof fn lemma_indent_bound(l: Seq<char>)
    ensures
        indent(l) <= l.len(),
    decreases l.len(),
{
    if l.len() > 0 && is_whitespace(l[0]) {
        lemma_indent_bound(l.drop_first());
    }
}

proof fn lemma_trailing_bound(l: Seq<char>)
    ensures
        trailing(l) <= l.len(),
    decreases l.len(),
{
    if l.len() > 0 && is_whitespace(l.last()) {
        lemma_trailing_bound(l.drop_last());
    }
}

fn indent_of(l: &str) -> (r: usize)
    ensures
        r as nat == indent(l@),
        r <= l@.len(),
{
    let n = l.unicode_len();
    let mut i: usize = 0;
    assert(l@.subrange(0, n as int) =~= l@);
    while i < n && whitespace(l.get_char(i))
        invariant
            n == l@.len(),
            i <= n,
            indent(l@) == i + indent(l@.subrange(i as int, n as int)),
        decreases n - i,
    {
        proof {
            lemma_indent_skip(l@, i as int);
        }
        i = i + 1;
    }
    i
}

fn trailing_of(l: &str) -> (r: usize)
    ensures
        r as nat == trailing(l@),
        r <= l@.len(),
{
    let n = l.unicode_len();
    let mut k: usize = n;
    assert(l@.subrange(0, n as int) =~= l@);
    while k > 0 && whitespace(l.get_char(k - 1))
        invariant
            n == l@.len(),
            k <= n,
            trailing(l@) == (n - k) + trailing(l@.subrange(0, k as int)),
        decreases k,
    {
        proof {
            assert(l@.subrange(0, k as int).drop_last() =~= l@.subrange(0, k - 1));
            assert(l@.subrange(0, k as int).last() == l@[k - 1]);
        }
        k = k - 1;
    }
    n - k
}

fn trim_start_of(l: &str) -> (r: String)
    ensures
        r@ == trim_start(l@),
{
    let n = l.unicode_len();
    let i = indent_of(l);
    l.substring_char(i, n).to_owned()
}

fn trim_of(l: &str) -> (r: String)
    ensures
        r@ == trim(l@),
{
    let t = trim_start_of(l);
    let n = t.as_str().unicode_len();
    let k = trailing_of(t.as_str());
    t.as_str().substring_char(0, n - k).to_owned()
}

fn cleaned(l: &str, k: usize, m: usize) -> (r: String)
    ensures
        forall|body: Seq<Seq<char>>| 0 <= k < body.len() && body[k as int] == l@ ==> r@ == cleaned_line(
            body,
            k as int,
            m as nat,
        ),
{
    if k == 0 {
        trim_of(l)
    } else if blank(l) {
        String::new()
    } else {
        let n = l.unicode_len();
        if n > m {
            l.substring_char(m, n).to_owned()
        } else {
            trim_start_of(l)
        }
    }
}

/// Executable form of `cleandoc`.
pub fn clean_docstring(s: &str) -> (r: String)
    ensures
        r@ == cleandoc(s@),
{
    let ls = lines_of(s);
    let ghost lv = ls@.map_values(|l: String| l@);
    let len = ls.len();
    let mut a: usize = 0;
    while a < len && blank(ls[a].as_str())
        invariant
            len == ls@.len(),
            lv == ls@.map_values(|l: String| l@),
            a <= len,
            first_text(lv, 0) == first_text(lv, a as int),
        decreases len - a,
    {
        a = a + 1;
    }
    let mut b: usize = len;
    while b > 0 && blank(ls[b - 1].as_str())
        invariant
            len == ls@.len(),
            lv == ls@.map_values(|l: String| l@),
            b <= len,
            end_text(lv, len as int) == end_text(lv, b as int),
        decreases b,
    {
        b = b - 1;
    }
    if a >= b {
        return String::new();
    }
    let ghost body = lv.subrange(a as int, b as int);
    let count = b - a;
    let mut m: Option<usize> = None;
    let mut k: usize = 1;
    while k < count
        invariant
            len == ls@.len(),
            lv == ls@.map_values(|l: String| l@),
            a < b <= len,
            count == b - a,
            body == lv.subrange(a as int, b as int),
            1 <= k <= count,
            crate::model::opt_nat_view(m) == min_indent(body, k as int),
        decreases count - k,
    {
        let l = ls[a + k].as_str();
        assert(body[k as int] == l@);
        if !blank(l) {
            let d = indent_of(l);
            m = match m {
                Some(x) => if d < x { Some(d) } else { Some(x) },
                None => Some(d),
            };
        }
        k = k + 1;
    }
    let mm = match m {
        Some(x) => x,
        None => 0,
    };
    assert(body[0] == ls@[a as int]@);
    let mut acc = cleaned(ls[a].as_str(), 0, mm);
    let mut k: usize = 1;
    proof {
        reveal_strlit("\n");
    }
    while k < count
        invariant
            len == ls@.len(),
            lv == ls@.map_values(|l: String| l@),
            a < b <= len,
            count == b - a,
            body == lv.subrange(a as int, b as int),
            1 <= k <= count,
            acc@ == joined(body, k as int, mm as nat),
        decreases count - k,
    {
        let l = ls[a + k].as_str();
        assert(body[k as int] == l@);
        let c = cleaned(l, k, mm);
        proof {
            reveal_strlit("\n");
            assert("\n"@.len() == 1);
            assert("\n"@[0] == '\n');
            assert("\n"@ =~= seq!['\n']);
        }
        acc = acc.concat("\n").concat(c.as_str());
        k = k + 1;
    }
    acc
}

} // verus!
