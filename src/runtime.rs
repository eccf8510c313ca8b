//! Finding the runtime that starts the game: the bundled one where present,
//! else the first one that a system-wide lookup reports.
use vstd::prelude::*;
use crate::errors::LauncherError;
use crate::layout::{join, join_path, Platform};

verus! {

/// The runtime executable's file name on `p`.
pub open spec fn java_exe_name(p: Platform) -> Seq<char> {
    match p {
        Platform::Windows => seq!['j', 'a', 'v', 'a', '.', 'e', 'x', 'e'],
        Platform::Unix => seq!['j', 'a', 'v', 'a'],
    }
}

/// Where the bundled runtime executable lives under the runtime directory.
pub open spec fn bundled_exe_of(java_dir: Seq<char>, p: Platform) -> Seq<char> {
    join_path(join_path(java_dir, seq!['b', 'i', 'n'], p), java_exe_name(p), p)
}

/// The path of the bundled runtime executable under `java_dir`.
pub fn bundled_runtime_path(java_dir: &str, p: Platform) -> (r: String)
    ensures
        r@ == bundled_exe_of(java_dir@, p),
{
    proof {
        reveal_strlit("bin");
        reveal_strlit("java.exe");
        reveal_strlit("java");
    }
    let bin = join(java_dir, "bin", p);
    match p {
        Platform::Windows => join(bin.as_str(), "java.exe", p),
        Platform::Unix => join(bin.as_str(), "java", p),
    }
}

/// The first step of resolution.
#[derive(Clone, Debug, PartialEq, Eq)]
pub enum RuntimeStep {
    /// The bundled runtime is present: use it, and look no further.
    Found(String),
    /// Ask the system for a runtime.
    SystemLookup,
}

/// Decides from the bundled runtime alone whether a system lookup is needed.
pub fn resolve_step(bundled_exe: &str, bundled_exists: bool) -> (r: RuntimeStep)
    ensures
        bundled_exists ==> (r matches RuntimeStep::Found(path) && path@ == bundled_exe@),
        !bundled_exists ==> r == RuntimeStep::SystemLookup,
{
    if bundled_exists {
        RuntimeStep::Found(bundled_exe.to_owned())
    } else {
        RuntimeStep::SystemLookup
    }
}

/// What the system lookup (`where java` or its equivalent) printed.
#[derive(Clone, Debug, PartialEq, Eq)]
pub struct LookupOutput {
    /// Whether the lookup exited successfully.
    pub success: bool,
    pub stdout: String,
}

/// Whether `c` has the Unicode White_Space property.
pub open spec fn is_ws(c: char) -> bool {
    ('\u{9}' <= c && c <= '\u{d}') || c == ' ' || c == '\u{85}' || c == '\u{a0}' || c == '\u{1680}'
        || ('\u{2000}' <= c && c <= '\u{200a}') || c == '\u{2028}' || c == '\u{2029}' || c == '\u{202f}'
        || c == '\u{205f}' || c == '\u{3000}'
}

pub open spec fn trim_start(s: Seq<char>) -> Seq<char>
    decreases s.len(),
{
    if s.len() > 0 && is_ws(s[0]) {
        trim_start(s.drop_first())
    } else {
        s
    }
}

pub open spec fn trim_end(s: Seq<char>) -> Seq<char>
    decreases s.len(),
{
    if s.len() > 0 && is_ws(s.last()) {
        trim_end(s.drop_last())
    } else {
        s
    }
}

/// `s` without leading and trailing white space.
pub open spec fn trim(s: Seq<char>) -> Seq<char> {
    trim_end(trim_start(s))
}

/// The characters of `s` before its first line feed.
pub open spec fn first_line(s: Seq<char>) -> Seq<char>
    decreases s.len(),
{
    if s.len() == 0 {
        s
    } else if s[0] == '\n' {
        Seq::empty()
    } else {
        seq![s[0]] + first_line(s.drop_first())
    }
}

/// The runtime that a successful lookup names: its first line, trimmed, or
/// plain `java` where it printed nothing.
pub open spec fn lookup_result(stdout: Seq<char>) -> Seq<char> {
    if stdout.len() == 0 {
        seq!['j', 'a', 'v', 'a']
    } else {
        trim(first_line(stdout))
    }
}

fn is_white(c: char) -> (r: bool)
    ensures
        r == is_ws(c),
{
    ('\u{9}' <= c && c <= '\u{d}') || c == ' ' || c == '\u{85}' || c == '\u{a0}' || c == '\u{1680}'
        || ('\u{2000}' <= c && c <= '\u{200a}') || c == '\u{2028}' || c == '\u{2029}' || c == '\u{202f}'
        || c == '\u{205f}' || c == '\u{3000}'
}

/// `s` without leading and trailing white space.
pub fn trimmed(s: &str) -> (r: String)
    ensures
        r@ == trim(s@),
{
    let n = s.unicode_len();
    let mut i: usize = 0;
    assert(s@.subrange(0, n as int) =~= s@);
    while i < n && is_white(s.get_char(i))
        invariant
            i <= n,
            n == s@.len(),
            trim_start(s@) == trim_start(s@.subrange(i as int, n as int)),
        decreases n - i,
    {
        assert(s@.subrange(i as int, n as int).drop_first() =~= s@.subrange(i + 1, n as int));
        i = i + 1;
    }
    let t = s.substring_char(i, n);
    let m = t.unicode_len();
    let mut j: usize = m;
    assert(t@.subrange(0, m as int) =~= t@);
    while j > 0 && is_white(t.get_char(j - 1))
        invariant
            j <= m,
            m == t@.len(),
            trim_end(t@) == trim_end(t@.subrange(0, j as int)),
        decreases j,
    {
        assert(t@.subrange(0, j as int).drop_last() =~= t@.subrange(0, j - 1));
        j = j - 1;
    }
    t.substring_char(0, j).to_owned()
}

/// The characters of `s` before its first line feed.
pub fn first_line_of(s: &str) -> (r: String)
    ensures
        r@ == first_line(s@),
{
    let n = s.unicode_len();
    let mut k: usize = 0;
    assert(s@.skip(0) =~= s@);
    while k < n && s.get_char(k) != '\n'
        invariant
            k <= n,
            n == s@.len(),
            first_line(s@) == s@.subrange(0, k as int) + first_line(s@.skip(k as int)),
        decreases n - k,
    {
        let ghost rest = s@.skip(k as int);
        assert(rest.drop_first() =~= s@.skip(k + 1));
        assert(s@.subrange(0, k + 1) =~= s@.subrange(0, k as int) + seq![rest[0]]);
        k = k + 1;
    }
    s.substring_char(0, k).to_owned()
}

/// The runtime that the system lookup reported, or `JavaNotFound` where the
/// lookup could not run (`None`) or failed.
pub fn resolve_from_lookup(out: Option<LookupOutput>) -> (r: Result<String, LauncherError>)
    ensures
        match out {
            Some(o) => if o.success {
                r matches Ok(path) && path@ == lookup_result(o.stdout@)
            } else {
                r == Err::<String, LauncherError>(LauncherError::JavaNotFound)
            },
            None => r == Err::<String, LauncherError>(LauncherError::JavaNotFound),
        },
{
    match out {
        Some(o) => {
            if o.success {
                if o.stdout.as_str().unicode_len() == 0 {
                    proof {
                        reveal_strlit("java");
                    }
                    Ok("java".to_owned())
                } else {
                    let line = first_line_of(o.stdout.as_str());
                    Ok(trimmed(line.as_str()))
                }
            } else {
                Err(LauncherError::JavaNotFound)
            }
        },
        None => Err(LauncherError::JavaNotFound),
    }
}

} // verus!
