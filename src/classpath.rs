//! The classpath: every library archive, in a fixed order, then the version's
//! own archive, joined into one path list.
use vstd::prelude::*;
use crate::layout::{is_sep, Platform};
use crate::text::{
    lemma_lex_irreflexive, lemma_lex_total, lemma_lex_transitive, lemma_sorted_no_duplicates,
    lemma_sorted_unique, lex_lt, str_eq, str_less, strictly_sorted, strs,
};

verus! {

pub open spec fn jar_suffix() -> Seq<char> {
    seq!['.', 'j', 'a', 'r']
}

/// Whether the file at `path` has the extension `jar`: its name ends in
/// `.jar` and holds something before that suffix.
pub open spec fn is_archive(path: Seq<char>, p: Platform) -> bool {
    &&& path.len() > 4
    &&& path.subrange(path.len() - 4, path.len() as int) == jar_suffix()
    &&& !is_sep(path[path.len() - 5], p)
}

/// `e` with `x` put in its place in the order, unless it is already there.
pub open spec fn insert_sorted(e: Seq<Seq<char>>, x: Seq<char>) -> Seq<Seq<char>>
    decreases e.len(),
{
    if e.len() == 0 {
        seq![x]
    } else if lex_lt(x, e[0]) {
        seq![x] + e
    } else if x == e[0] {
        e
    } else {
        seq![e[0]] + insert_sorted(e.drop_first(), x)
    }
}

/// The archives among `files`, each once, in lexicographic order.
pub open spec fn sorted_archives(files: Seq<Seq<char>>, p: Platform) -> Seq<Seq<char>>
    decreases files.len(),
{
    if files.len() == 0 {
        Seq::empty()
    } else {
        let e = sorted_archives(files.drop_last(), p);
        if is_archive(files.last(), p) {
            insert_sorted(e, files.last())
        } else {
            e
        }
    }
}

/// The set of archives among `files`.
pub open spec fn archive_set(files: Seq<Seq<char>>, p: Platform) -> Set<Seq<char>> {
    Set::new(|f: Seq<char>| files.contains(f) && is_archive(f, p))
}

/// The classpath's entries: the library archives, then the version archive
/// where it exists and is not already listed.
pub open spec fn classpath_entries(files: Seq<Seq<char>>, jar: Seq<char>, jar_exists: bool, p: Platform) -> Seq<Seq<char>> {
    let e = sorted_archives(files, p);
    if jar_exists && !e.contains(jar) {
        e.push(jar)
    } else {
        e
    }
}

/// The entries of `v` with `sep` between each two.
pub open spec fn join_list(v: Seq<Seq<char>>, sep: Seq<char>) -> Seq<char>
    decreases v.len(),
{
    if v.len() == 0 {
        Seq::empty()
    } else if v.len() == 1 {
        v[0]
    } else {
        join_list(v.drop_last(), sep) + sep + v.last()
    }
}

/// The classpath as the runtime receives it.
pub open spec fn classpath_of(files: Seq<Seq<char>>, jar: Seq<char>, jar_exists: bool, p: Platform) -> Seq<char> {
    join_list(classpath_entries(files, jar, jar_exists, p), p.list_sep())
}

proof fn lemma_insert_sorted(e: Seq<Seq<char>>, x: Seq<char>)
    requires
        strictly_sorted(e),
    ensures
        strictly_sorted(insert_sorted(e, x)),
        insert_sorted(e, x).to_set() == e.to_set().insert(x),
    decreases e.len(),
{
    if e.len() == 0 {
        assert(seq![x].to_set() =~= e.to_set().insert(x)) by {
            assert(seq![x][0] == x);
            assert forall|y| #[trigger] seq![x].to_set().contains(y) implies y == x by {
                let k = choose|k: int| 0 <= k < 1 && seq![x][k] == y;
            }
        }
    } else if lex_lt(x, e[0]) {
        let r = seq![x] + e;
        assert forall|i: int, j: int| 0 <= i < j < r.len() implies lex_lt(#[trigger] r[i], #[trigger] r[j]) by {
            if i == 0 && j > 1 {
                assert(lex_lt(e[0], e[j - 1]));
                lemma_lex_transitive(x, e[0], e[j - 1]);
            }
        }
        assert(r.to_set() =~= e.to_set().insert(x)) by {
            assert forall|y| #[trigger] e.to_set().insert(x).contains(y) implies r.to_set().contains(y) by {
                if y != x {
                    let k = choose|k: int| 0 <= k < e.len() && e[k] == y;
                    assert(r[k + 1] == y);
                } else {
                    assert(r[0] == y);
                }
            }
            assert forall|y| r.to_set().contains(y) implies #[trigger] e.to_set().insert(x).contains(y) by {
                let k = choose|k: int| 0 <= k < r.len() && r[k] == y;
                if k > 0 {
                    assert(e[k - 1] == y);
                }
            }
        }
    } else if x == e[0] {
        assert(e.to_set().contains(x));
        assert(e.to_set() =~= e.to_set().insert(x));
    } else {
        let rest = e.drop_first();
        assert(strictly_sorted(rest)) by {
            assert forall|i: int, j: int| 0 <= i < j < rest.len() implies lex_lt(#[trigger] rest[i], #[trigger] rest[j]) by {
                assert(rest[i] == e[i + 1] && rest[j] == e[j + 1]);
            }
        }
        lemma_insert_sorted(rest, x);
        lemma_lex_total(x, e[0]);
        let t = insert_sorted(rest, x);
        let r = seq![e[0]] + t;
        assert forall|j: int| 0 <= j < t.len() implies lex_lt(e[0], #[trigger] t[j]) by {
            assert(t.to_set().contains(t[j]));
            if t[j] != x {
                assert(rest.to_set().contains(t[j]));
                let k = choose|k: int| 0 <= k < rest.len() && rest[k] == t[j];
                assert(e[k + 1] == t[j]);
            }
        }
        assert forall|i: int, j: int| 0 <= i < j < r.len() implies lex_lt(#[trigger] r[i], #[trigger] r[j]) by {
            if i == 0 {
                assert(r[j] == t[j - 1]);
            } else {
                assert(r[i] == t[i - 1] && r[j] == t[j - 1]);
            }
        }
        assert(r.to_set() =~= e.to_set().insert(x)) by {
            assert forall|y| #[trigger] e.to_set().insert(x).contains(y) implies r.to_set().contains(y) by {
                if y == e[0] {
                    assert(r[0] == y);
                } else if y == x {
                    assert(t.to_set().contains(y));
                    let k = choose|k: int| 0 <= k < t.len() && t[k] == y;
                    assert(r[k + 1] == y);
                } else {
                    let k = choose|k: int| 0 <= k < e.len() && e[k] == y;
                    assert(rest[k - 1] == y);
                    assert(rest.to_set().contains(y));
                    assert(t.to_set().contains(y));
                    let m = choose|m: int| 0 <= m < t.len() && t[m] == y;
                    assert(r[m + 1] == y);
                }
            }
            assert forall|y| r.to_set().contains(y) implies #[trigger] e.to_set().insert(x).contains(y) by {
                let k = choose|k: int| 0 <= k < r.len() && r[k] == y;
                if k > 0 {
                    assert(t[k - 1] == y);
                    assert(t.to_set().contains(y));
                    if y != x {
                        assert(rest.to_set().contains(y));
                        let m = choose|m: int| 0 <= m < rest.len() && rest[m] == y;
                        assert(e[m + 1] == y);
                    }
                } else {
                    assert(e[0] == y);
                }
            }
        }
    }
}

/// Where `x` goes in the sorted `e`, `insert_sorted` is a plain insertion.
proof fn lemma_insert_sorted_at(e: Seq<Seq<char>>, x: Seq<char>, k: int)
    requires
        strictly_sorted(e),
        0 <= k <= e.len(),
        forall|i: int| 0 <= i < k ==> lex_lt(#[trigger] e[i], x),
        k < e.len() ==> !lex_lt(e[k], x),
    ensures
        insert_sorted(e, x) == (if k < e.len() && e[k] == x {
            e
        } else {
            e.insert(k, x)
        }),
    decreases e.len(),
{
    if e.len() == 0 {
        assert(seq![x] =~= e.insert(0, x));
    } else if k == 0 {
        if x != e[0] {
            lemma_lex_total(x, e[0]);
            assert(seq![x] + e =~= e.insert(0, x));
        }
    } else {
        assert(lex_lt(e[0], x));
        lemma_lex_irreflexive(x);
        if lex_lt(x, e[0]) {
            lemma_lex_transitive(x, e[0], x);
        }
        let rest = e.drop_first();
        assert(strictly_sorted(rest)) by {
            assert forall|i: int, j: int| 0 <= i < j < rest.len() implies lex_lt(#[trigger] rest[i], #[trigger] rest[j]) by {
                assert(rest[i] == e[i + 1] && rest[j] == e[j + 1]);
            }
        }
        assert forall|i: int| 0 <= i < k - 1 implies lex_lt(#[trigger] rest[i], x) by {
            assert(rest[i] == e[i + 1]);
        }
        lemma_insert_sorted_at(rest, x, k - 1);
        if !(k < e.len() && e[k] == x) {
            assert(seq![e[0]] + rest.insert(k - 1, x) =~= e.insert(k, x));
        } else {
            assert(seq![e[0]] + rest =~= e);
        }
    }
}

/// The sorted archives of `files` are strictly sorted and are exactly its
/// archives.
pub proof fn lemma_sorted_archives(files: Seq<Seq<char>>, p: Platform)
    ensures
        strictly_sorted(sorted_archives(files, p)),
        sorted_archives(files, p).to_set() == archive_set(files, p),
    decreases files.len(),
{
    if files.len() == 0 {
        assert(archive_set(files, p) =~= Set::empty());
        assert(Seq::<Seq<char>>::empty().to_set() =~= Set::empty());
    } else {
        let init = files.drop_last();
        lemma_sorted_archives(init, p);
        let e = sorted_archives(init, p);
        if is_archive(files.last(), p) {
            lemma_insert_sorted(e, files.last());
        }
        assert(sorted_archives(files, p).to_set() =~= archive_set(files, p)) by {
            assert forall|f| #[trigger] archive_set(files, p).contains(f) implies sorted_archives(files, p).to_set().contains(f) by {
                let k = choose|k: int| 0 <= k < files.len() && files[k] == f;
                if k < files.len() - 1 {
                    assert(init[k] == f);
                    assert(archive_set(init, p).contains(f));
                }
            }
            assert forall|f| sorted_archives(files, p).to_set().contains(f) implies #[trigger] archive_set(files, p).contains(f) by {
                if f != files.last() || !is_archive(files.last(), p) {
                    assert(archive_set(init, p).contains(f));
                    let k = choose|k: int| 0 <= k < init.len() && init[k] == f;
                    assert(files[k] == f);
                }
                assert(files[files.len() - 1] == files.last());
            }
        }
    }
}

/// Whether `path` names a file with the extension `jar`.
pub fn is_archive_path(path: &str, p: Platform) -> (r: bool)
    ensures
        r == is_archive(path@, p),
{
    let n = path.unicode_len();
    if n <= 4 {
        return false;
    }
    let r = path.get_char(n - 4) == '.' && path.get_char(n - 3) == 'j' && path.get_char(n - 2) == 'a'
        && path.get_char(n - 1) == 'r' && !p.is_separator(path.get_char(n - 5));
    assert(r == is_archive(path@, p)) by {
        let tail = path@.subrange(n - 4, n as int);
        if tail == jar_suffix() {
            assert(tail[0] == path@[n - 4] && tail[1] == path@[n - 3]);
            assert(tail[2] == path@[n - 2] && tail[3] == path@[n - 1]);
        }
        if r {
            assert(tail =~= jar_suffix());
        }
    }
    r
}

/// Puts a copy of `s` in its place in the sorted list `v`, unless it is
/// already there.
fn insert_in_order(v: &mut Vec<String>, s: &str)
    requires
        strictly_sorted(strs(old(v)@)),
    ensures
        strs(final(v)@) == insert_sorted(strs(old(v)@), s@),
{
    let ghost e = strs(v@);
    let mut k: usize = 0;
    while k < v.len() && str_less(v[k].as_str(), s)
        invariant
            k <= v.len(),
            e == strs(v@),
            forall|i: int| 0 <= i < k ==> lex_lt(#[trigger] e[i], s@),
        decreases v.len() - k,
    {
        k = k + 1;
    }
    proof {
        lemma_insert_sorted_at(e, s@, k as int);
    }
    if k < v.len() && str_eq(v[k].as_str(), s) {
        return;
    }
    let ghost prev = v@;
    v.insert(k, s.to_owned());
    assert(strs(v@) =~= e.insert(k as int, s@)) by {
        assert(v@ == prev.insert(k as int, v@[k as int]));
    }
}

/// The archives among `files`, each once, in lexicographic order.
pub fn collect_archives(files: &Vec<String>, p: Platform) -> (r: Vec<String>)
    ensures
        strs(r@) == sorted_archives(strs(files@), p),
{
    let mut r: Vec<String> = Vec::new();
    let mut i: usize = 0;
    let ghost all = strs(files@);
    assert(all.subrange(0, 0) =~= Seq::<Seq<char>>::empty());
    assert(strs(r@) =~= Seq::<Seq<char>>::empty());
    while i < files.len()
        invariant
            i <= files.len(),
            all == strs(files@),
            strs(r@) == sorted_archives(all.subrange(0, i as int), p),
        decreases files.len() - i,
    {
        proof {
            lemma_sorted_archives(all.subrange(0, i as int), p);
        }
        let f = files[i].as_str();
        assert(all.subrange(0, i + 1).drop_last() =~= all.subrange(0, i as int));
        assert(all.subrange(0, i + 1).last() == f@);
        if is_archive_path(f, p) {
            insert_in_order(&mut r, f);
        }
        i = i + 1;
    }
    assert(all.subrange(0, files.len() as int) =~= all);
    r
}

/// Whether some string of `v` holds the characters of `s`.
fn contains_str(v: &Vec<String>, s: &str) -> (r: bool)
    ensures
        r == strs(v@).contains(s@),
{
    let mut i: usize = 0;
    while i < v.len()
        invariant
            i <= v.len(),
            forall|j: int| 0 <= j < i ==> strs(v@)[j] != s@,
        decreases v.len() - i,
    {
        if str_eq(v[i].as_str(), s) {
            assert(strs(v@)[i as int] == s@);
            return true;
        }
        i = i + 1;
    }
    false
}

/// The strings of `v` with `sep` between each two.
pub fn join_strings(v: &Vec<String>, sep: &str) -> (r: String)
    ensures
        r@ == join_list(strs(v@), sep@),
{
    let mut r = String::new();
    let mut i: usize = 0;
    assert(strs(v@).subrange(0, 0) =~= Seq::<Seq<char>>::empty());
    while i < v.len()
        invariant
            i <= v.len(),
            r@ == join_list(strs(v@).subrange(0, i as int), sep@),
        decreases v.len() - i,
    {
        let ghost before = strs(v@).subrange(0, i as int);
        let ghost after = strs(v@).subrange(0, i + 1);
        assert(after.drop_last() =~= before);
        if i > 0 {
            r.append(sep);
        }
        r.append(v[i].as_str());
        assert(r@ =~= join_list(after, sep@));
        i = i + 1;
    }
    assert(strs(v@).subrange(0, v.len() as int) =~= strs(v@));
    r
}

/// The classpath over the library files found by a scan, in whatever order
/// the scan found them, and the version archive `jar`.
pub fn classpath_string(lib_files: &Vec<String>, jar: &str, jar_exists: bool, p: Platform) -> (r: String)
    ensures
        r@ == classpath_of(strs(lib_files@), jar@, jar_exists, p),
{
    let mut entries = collect_archives(lib_files, p);
    if jar_exists && !contains_str(&entries, jar) {
        let ghost prev = entries@;
        entries.push(jar.to_owned());
        assert(strs(entries@) =~= strs(prev).push(jar@));
    }
    join_strings(&entries, p.list_separator())
}

/// The classpath does not depend on the order in which the library scan
/// met the files, nor on files met twice: two scans that found the same
/// files give the same classpath.
pub proof fn lemma_classpath_scan_order_irrelevant(
    a: Seq<Seq<char>>,
    b: Seq<Seq<char>>,
    jar: Seq<char>,
    jar_exists: bool,
    p: Platform,
)
    requires
        a.to_set() == b.to_set(),
    ensures
        classpath_entries(a, jar, jar_exists, p) == classpath_entries(b, jar, jar_exists, p),
        classpath_of(a, jar, jar_exists, p) == classpath_of(b, jar, jar_exists, p),
{
    lemma_sorted_archives(a, p);
    lemma_sorted_archives(b, p);
    assert(archive_set(a, p) =~= archive_set(b, p)) by {
        assert forall|f| a.contains(f) <==> b.contains(f) by {
            assert(a.to_set().contains(f) == a.contains(f));
            assert(b.to_set().contains(f) == b.contains(f));
        }
    }
    lemma_sorted_unique(sorted_archives(a, p), sorted_archives(b, p));
}

/// Over `n` distinct archive files and a version archive that exists and is
/// not among them, the classpath has exactly `n + 1` entries, each once: the
/// archives in lexicographic order, then the version archive.
pub proof fn lemma_classpath_entry_count(files: Seq<Seq<char>>, jar: Seq<char>, p: Platform)
    requires
        files.no_duplicates(),
        forall|i: int| 0 <= i < files.len() ==> is_archive(#[trigger] files[i], p),
        !files.contains(jar),
    ensures
        classpath_entries(files, jar, true, p).len() == files.len() + 1,
        classpath_entries(files, jar, true, p).no_duplicates(),
        classpath_entries(files, jar, true, p).last() == jar,
        classpath_entries(files, jar, true, p).drop_last() == sorted_archives(files, p),
        strictly_sorted(sorted_archives(files, p)),
        classpath_entries(files, jar, true, p).to_set() == files.to_set().insert(jar),
{
    lemma_sorted_archives(files, p);
    let e = sorted_archives(files, p);
    assert(archive_set(files, p) =~= files.to_set()) by {
        assert forall|f| #[trigger] files.to_set().contains(f) implies archive_set(files, p).contains(f) by {
            let k = choose|k: int| 0 <= k < files.len() && files[k] == f;
        }
    }
    lemma_sorted_no_duplicates(e);
    e.unique_seq_to_set();
    files.unique_seq_to_set();
    assert(!e.contains(jar)) by {
        if e.contains(jar) {
            let k = choose|k: int| 0 <= k < e.len() && e[k] == jar;
            assert(e.to_set().contains(jar));
        }
    }
    let c = e.push(jar);
    assert(c.drop_last() =~= e);
    assert(c.to_set() =~= e.to_set().insert(jar)) by {
        assert forall|y| #[trigger] e.to_set().insert(jar).contains(y) implies c.to_set().contains(y) by {
            if y == jar {
                assert(c[e.len() as int] == y);
            } else {
                let k = choose|k: int| 0 <= k < e.len() && e[k] == y;
                assert(c[k] == y);
            }
        }
        assert forall|y| c.to_set().contains(y) implies #[trigger] e.to_set().insert(jar).contains(y) by {
            let k = choose|k: int| 0 <= k < c.len() && c[k] == y;
            if k < e.len() {
                assert(e[k] == y);
            }
        }
    }
    assert forall|i: int, j: int| 0 <= i < c.len() && 0 <= j < c.len() && i != j implies c[i] != c[j] by {
        if i < e.len() && j < e.len() {
            assert(c[i] == e[i] && c[j] == e[j]);
        } else if i < e.len() {
            assert(c[i] == e[i]);
        } else {
            assert(c[j] == e[j]);
        }
    }
}

} // verus!
