//! Which files the workspace scan analyses, which packages of a virtual
//! environment are pytest plugins, and where a file comes from.

use vstd::prelude::*;
use crate::text::{contains, contains_seq, ends_with, has_prefix, has_suffix, starts_with};

verus! {

/// Characters after the last `/` of a path.
pub open spec fn file_name(p: Seq<char>) -> Seq<char>
    decreases p.len(),
{
    if p.len() == 0 {
        p
    } else if p.last() == '/' {
        Seq::empty()
    } else {
        file_name(p.drop_last()).push(p.last())
    }
}

/// Executable form of `file_name`.
pub fn file_name_of(p: &str) -> (r: String)
    ensures
        r@ == file_name(p@),
{
    let n = p.unicode_len();
    let mut k: usize = n;
    assert(p@.subrange(0, n as int) =~= p@);
    assert(file_name(p@) + p@.subrange(n as int, n as int) =~= file_name(p@));
    while k > 0 && p.get_char(k - 1) != '/'
        invariant
            n == p@.len(),
            k <= n,
            file_name(p@) == file_name(p@.subrange(0, k as int)) + p@.subrange(k as int, n as int),
        decreases k,
    {
        proof {
            let a = p@.subrange(0, k as int);
            assert(a.drop_last() =~= p@.subrange(0, k - 1));
            assert(a.last() == p@[k - 1]);
            assert(file_name(a) == file_name(a.drop_last()).push(a.last()));
            assert(file_name(a.drop_last()).push(a.last()) + p@.subrange(k as int, n as int)
                =~= file_name(a.drop_last()) + p@.subrange(k - 1, n as int));
        }
        k = k - 1;
    }
    proof {
        let a = p@.subrange(0, k as int);
        if k > 0 {
            assert(a.last() == p@[k - 1]);
        }
        assert(file_name(a) =~= Seq::<char>::empty());
        assert(Seq::<char>::empty() + p@.subrange(k as int, n as int) =~= p@.subrange(k as int, n as int));
    }
    p.substring_char(k, n).to_owned()
}

/// Files of the workspace that hold fixtures or tests: `conftest.py`,
/// `test_*.py` and `*_test.py`.
pub open spec fn is_test_file_name(n: Seq<char>) -> bool {
    n == "conftest.py"@ || (has_prefix(n, "test_"@) && has_suffix(n, ".py"@)) || has_suffix(n, "_test.py"@)
}

pub fn test_file_name(n: &str) -> (r: bool)
    ensures
        r == is_test_file_name(n@),
{
    proof {
        reveal_strlit("conftest.py");
        reveal_strlit("test_");
        reveal_strlit(".py");
        reveal_strlit("_test.py");
    }
    crate::text::str_eq(n, "conftest.py") || (starts_with(n, "test_") && ends_with(n, ".py")) || ends_with(n, "_test.py")
}

/// Directories that the workspace scan never enters: version control,
/// virtual environments, caches and build output.
pub open spec fn is_skipped_dir_name(n: Seq<char>) -> bool {
    n == ".git"@ || n == ".venv"@ || n == "venv"@ || n == "env"@ || n == "__pycache__"@ || n == "node_modules"@
        || n == ".tox"@ || n == "build"@ || n == "dist"@
}

pub fn skipped_dir_name(n: &str) -> (r: bool)
    ensures
        r == is_skipped_dir_name(n@),
{
    proof {
        reveal_strlit(".git");
        reveal_strlit(".venv");
        reveal_strlit("venv");
        reveal_strlit("env");
        reveal_strlit("__pycache__");
        reveal_strlit("node_modules");
        reveal_strlit(".tox");
        reveal_strlit("build");
        reveal_strlit("dist");
    }
    let eq = |a: &str| -> (b: bool) ensures b == (n@ == a@) { crate::text::str_eq(n, a) };
    eq(".git") || eq(".venv") || eq("venv") || eq("env") || eq("__pycache__") || eq("node_modules") || eq(".tox")
        || eq("build") || eq("dist")
}

/// Packages of site-packages that are scanned as pytest plugins: their name
/// contains `pytest`, and they are not distribution metadata.
pub open spec fn is_plugin_package_name(n: Seq<char>) -> bool {
    contains_seq(n, "pytest"@) && !has_suffix(n, ".dist-info"@) && !has_suffix(n, ".egg-info"@)
}

pub fn plugin_package_name(n: &str) -> (r: bool)
    ensures
        r == is_plugin_package_name(n@),
{
    proof {
        reveal_strlit("pytest");
        reveal_strlit(".dist-info");
        reveal_strlit(".egg-info");
    }
    contains(n, "pytest") && !ends_with(n, ".dist-info") && !ends_with(n, ".egg-info")
}

/// Python files inside a plugin package that are analysed: not tests and
/// not byte-code caches.
pub open spec fn is_plugin_source_name(n: Seq<char>) -> bool {
    has_suffix(n, ".py"@) && !has_prefix(n, "test_"@) && !has_suffix(n, "_test.py"@) && !contains_seq(n, "__pycache__"@)
}

pub fn plugin_source_name(n: &str) -> (r: bool)
    ensures
        r == is_plugin_source_name(n@),
{
    proof {
        reveal_strlit(".py");
        reveal_strlit("test_");
        reveal_strlit("__pycache__");
        reveal_strlit("_test.py");
    }
    ends_with(n, ".py") && !starts_with(n, "test_") && !ends_with(n, "_test.py") && !contains(n, "__pycache__")
}

/// Characters of `p` before its first `/`.
pub open spec fn first_component(p: Seq<char>) -> Seq<char>
    decreases p.len(),
{
    if p.len() == 0 || p[0] == '/' {
        Seq::empty()
    } else {
        seq![p[0]] + first_component(p.drop_first())
    }
}

/// A file under the virtual environment's package directory `site`.
pub open spec fn is_third_party_path(p: Seq<char>, site: Option<Seq<char>>) -> bool {
    match site {
        Some(s) => has_prefix(p, s + "/"@),
        None => false,
    }
}

/// A third-party file inside a package that follows the plugin naming.
pub open spec fn is_plugin_path(p: Seq<char>, site: Option<Seq<char>>) -> bool {
    match site {
        Some(s) => is_third_party_path(p, site) && is_plugin_package_name(
            first_component(p.subrange(s.len() + 1int, p.len() as int)),
        ),
        None => false,
    }
}

fn first_component_of(p: &str, from: usize) -> (r: String)
    requires
        from <= p@.len(),
    ensures
        r@ == first_component(p@.subrange(from as int, p@.len() as int)),
{
    let n = p.unicode_len();
    let mut k: usize = from;
    while k < n && p.get_char(k) != '/'
        invariant
            n == p@.len(),
            from <= k <= n,
            first_component(p@.subrange(from as int, n as int))
                == p@.subrange(from as int, k as int) + first_component(p@.subrange(k as int, n as int)),
            forall|j: int| from <= j < k ==> p@[j] != '/',
        decreases n - k,
    {
        proof {
            let t = p@.subrange(k as int, n as int);
            assert(t.drop_first() =~= p@.subrange(k + 1, n as int));
            assert(p@.subrange(from as int, k as int) + (seq![t[0]] + first_component(t.drop_first()))
                =~= p@.subrange(from as int, k + 1) + first_component(p@.subrange(k + 1, n as int)));
        }
        k = k + 1;
    }
    proof {
        let t = p@.subrange(k as int, n as int);
        assert(first_component(t) =~= Seq::<char>::empty());
        assert(p@.subrange(from as int, k as int) + Seq::<char>::empty() =~= p@.subrange(from as int, k as int));
    }
    p.substring_char(from, k).to_owned()
}

/// Provenance flags `(is_plugin, is_third_party)` of a file.
pub fn provenance(p: &str, site: &Option<String>) -> (r: (bool, bool))
    ensures
        r.0 == is_plugin_path(p@, crate::model::opt_str_view(*site)),
        r.1 == is_third_party_path(p@, crate::model::opt_str_view(*site)),
{
    proof {
        reveal_strlit("/");
    }
    match site {
        None => (false, false),
        Some(s) => {
            let dir = s.clone().concat("/");
            if !starts_with(p, dir.as_str()) {
                return (false, false);
            }
            assert(dir@ == s@ + "/"@);
            assert(s@.len() + 1 <= p@.len());
            let _pn = p.unicode_len();
            let from = s.as_str().unicode_len() + 1;
            let pkg = first_component_of(p, from);
            (plugin_package_name(pkg.as_str()), true)
        },
    }
}


/// Canonical forms of paths, each computed once: the cache only grows, and
/// a path that could not be canonicalised stands for itself.
pub struct CanonicalCache {
    pub entries: Vec<(String, String)>,
}

pub open spec fn entries_view(v: Seq<(String, String)>) -> Seq<(Seq<char>, Seq<char>)> {
    v.map_values(|e: (String, String)| (e.0@, e.1@))
}

/// The canonical form recorded for `raw`, the first one if several.
pub open spec fn cached(es: Seq<(Seq<char>, Seq<char>)>, raw: Seq<char>) -> Option<Seq<char>>
    decreases es.len(),
{
    if es.len() == 0 {
        None
    } else if es[0].0 == raw {
        Some(es[0].1)
    } else {
        cached(es.drop_first(), raw)
    }
}

impl CanonicalCache {
    pub open spec fn view_entries(&self) -> Seq<(Seq<char>, Seq<char>)> {
        entries_view(self.entries@)
    }

    pub fn new() -> (r: CanonicalCache)
        ensures
            r.view_entries() == Seq::<(Seq<char>, Seq<char>)>::empty(),
    {
        let r = CanonicalCache { entries: Vec::new() };
        assert(r.view_entries() =~= Seq::<(Seq<char>, Seq<char>)>::empty());
        r
    }

    /// The canonical form already recorded for `raw`.
    pub fn lookup(&self, raw: &str) -> (r: Option<String>)
        ensures
            crate::model::opt_str_view(r) == cached(self.view_entries(), raw@),
    {
        let ghost ev = self.view_entries();
        let mut i: usize = 0;
        assert(ev.subrange(0, ev.len() as int) =~= ev);
        while i < self.entries.len()
            invariant
                ev == self.view_entries(),
                i <= ev.len(),
                cached(ev, raw@) == cached(ev.subrange(i as int, ev.len() as int), raw@),
            decreases ev.len() - i,
        {
            let ghost rest = ev.subrange(i as int, ev.len() as int);
            assert(rest[0] == ev[i as int]);
            assert(rest.drop_first() =~= ev.subrange(i + 1, ev.len() as int));
            assert(ev[i as int] == (self.entries@[i as int].0@, self.entries@[i as int].1@));
            if crate::text::str_eq(self.entries[i].0.as_str(), raw) {
                return Some(self.entries[i].1.clone());
            }
            i = i + 1;
        }
        None
    }

    /// The canonical form of `raw`: the recorded one if there is one, else
    /// `resolved` (what the file system gave, if anything) or `raw` itself,
    /// which is then recorded.
    pub fn get_canonical_path(&mut self, raw: &str, resolved: Option<String>) -> (r: String)
        ensures
            match cached(old(self).view_entries(), raw@) {
                Some(c) => r@ == c && final(self).view_entries() == old(self).view_entries(),
                None => {
                    &&& r@ == (match resolved {
                        Some(p) => p@,
                        None => raw@,
                    })
                    &&& final(self).view_entries() == old(self).view_entries().push((raw@, r@))
                },
            },
    {
        match self.lookup(raw) {
            Some(c) => c,
            None => {
                let c = match resolved {
                    Some(p) => p,
                    None => raw.to_owned(),
                };
                let ghost before = self.view_entries();
                self.entries.push((raw.to_owned(), c.clone()));
                assert(self.view_entries() =~= before.push((raw@, c@)));
                c
            },
        }
    }
}

/// Once a path has a canonical form, recording other paths never changes
/// it: every later request for the path gets the same key.
pub proof fn lemma_canonical_stable(es: Seq<(Seq<char>, Seq<char>)>, e: (Seq<char>, Seq<char>), raw: Seq<char>)
    requires
        cached(es, raw) is Some,
    ensures
        cached(es.push(e), raw) == cached(es, raw),
    decreases es.len(),
{
    assert(es.push(e)[0] == es[0]);
    if es[0].0 != raw {
        assert(es.push(e).drop_first() =~= es.drop_first().push(e));
        lemma_canonical_stable(es.drop_first(), e, raw);
    }
}

} // verus!
