//! Directory layout under the launcher home, computed without touching the disk.
use vstd::prelude::*;

verus! {

/// The platform conventions that paths and path lists follow.
#[derive(Clone, Copy, Debug, PartialEq, Eq, Structural)]
pub enum Platform {
    Windows,
    Unix,
}

/// The separator that `join_path` inserts.
pub open spec fn sep_char(p: Platform) -> char {
    match p {
        Platform::Windows => '\\',
        Platform::Unix => '/',
    }
}

/// Whether `c` separates path components on `p`.
pub open spec fn is_sep(c: char, p: Platform) -> bool {
    c == '/' || (p == Platform::Windows && c == '\\')
}

/// Appends the relative component `name` to `base`, adding a separator only
/// where `base` is non-empty and does not already end in one.
pub open spec fn join_path(base: Seq<char>, name: Seq<char>, p: Platform) -> Seq<char> {
    if base.len() == 0 || is_sep(base.last(), p) {
        base + name
    } else {
        base + seq![sep_char(p)] + name
    }
}

/// Where the launcher keeps its files, given the user's home directory.
pub open spec fn launcher_dir_of(home: Option<Seq<char>>, p: Platform) -> Seq<char> {
    let h = match home {
        Some(h) => h,
        None => seq!['.'],
    };
    join_path(join_path(join_path(h, seq!['A', 'p', 'p', 'D', 'a', 't', 'a'], p), seq!['R', 'o', 'a', 'm', 'i', 'n', 'g'], p),
        seq!['.', 'b', 'e', 'a', 's', 't', 'm', 'i', 'n', 'e'], p)
}

impl Platform {
    /// The separator between the entries of a path list (a classpath).
    pub open spec fn list_sep(self) -> Seq<char> {
        match self {
            Platform::Windows => seq![';'],
            Platform::Unix => seq![':'],
        }
    }

    pub fn path_separator(self) -> (r: &'static str)
        ensures
            r@ == seq![sep_char(self)],
    {
        proof {
            reveal_strlit("\\");
            reveal_strlit("/");
        }
        match self {
            Platform::Windows => "\\",
            Platform::Unix => "/",
        }
    }

    pub fn list_separator(self) -> (r: &'static str)
        ensures
            r@ == self.list_sep(),
    {
        proof {
            reveal_strlit(";");
            reveal_strlit(":");
        }
        match self {
            Platform::Windows => ";",
            Platform::Unix => ":",
        }
    }

    pub fn is_separator(self, c: char) -> (r: bool)
        ensures
            r == is_sep(c, self),
    {
        c == '/' || (self == Platform::Windows && c == '\\')
    }
}

/// `base` joined with the relative component `name`.
pub fn join(base: &str, name: &str, p: Platform) -> (r: String)
    ensures
        r@ == join_path(base@, name@, p),
{
    let mut r = base.to_owned();
    let n = base.unicode_len();
    if n != 0 && !p.is_separator(base.get_char(n - 1)) {
        r.append(p.path_separator());
    }
    r.append(name);
    r
}

/// Relies on dirs::home_dir: the user's home directory, read from the
/// environment or the system's user database, if one is known.
#[verifier::external_body]
fn home_dir() -> (r: Option<String>) {
    dirs::home_dir().map(|h| h.to_string_lossy().to_string())
}

/// The launcher directory under `home`, or under `.` where no home is known.
pub fn launcher_dir_under(home: Option<&str>, p: Platform) -> (r: String)
    ensures
        r@ == launcher_dir_of(
            match home {
                Some(h) => Some(h@),
                None => None,
            },
            p,
        ),
{
    let a = match home {
        Some(h) => join(h, "AppData", p),
        None => join(".", "AppData", p),
    };
    proof {
        reveal_strlit(".");
        reveal_strlit("AppData");
        reveal_strlit("Roaming");
        reveal_strlit(".beastmine");
    }
    let b = join(a.as_str(), "Roaming", p);
    join(b.as_str(), ".beastmine", p)
}

/// The launcher directory of the current user.
pub fn get_launcher_dir(p: Platform) -> (r: String)
    ensures
        exists|h: Option<Seq<char>>| r@ == launcher_dir_of(h, p),
{
    let home = home_dir();
    match home {
        Some(h) => {
            let r = launcher_dir_under(Some(h.as_str()), p);
            assert(r@ == launcher_dir_of(Some(h@), p));
            r
        },
        None => {
            let r = launcher_dir_under(None, p);
            assert(r@ == launcher_dir_of(None, p));
            r
        },
    }
}

/// The launcher's subdirectory `name` under `root`.
pub open spec fn subdir(root: Seq<char>, name: Seq<char>, p: Platform) -> Seq<char> {
    join_path(root, name, p)
}

pub open spec fn versions_name() -> Seq<char> {
    seq!['v', 'e', 'r', 's', 'i', 'o', 'n', 's']
}

pub open spec fn java_name() -> Seq<char> {
    seq!['j', 'a', 'v', 'a']
}

pub open spec fn assets_name() -> Seq<char> {
    seq!['a', 's', 's', 'e', 't', 's']
}

pub open spec fn libraries_name() -> Seq<char> {
    seq!['l', 'i', 'b', 'r', 'a', 'r', 'i', 'e', 's']
}

pub open spec fn modpacks_name() -> Seq<char> {
    seq!['m', 'o', 'd', 'p', 'a', 'c', 'k', 's']
}

pub open spec fn skins_name() -> Seq<char> {
    seq!['s', 'k', 'i', 'n', 's']
}

/// Where installed versions live: one directory per version identifier.
pub fn get_versions_dir(launcher_dir: &str, p: Platform) -> (r: String)
    ensures
        r@ == subdir(launcher_dir@, versions_name(), p),
{
    proof {
        reveal_strlit("versions");
    }
    join(launcher_dir, "versions", p)
}

/// Where the bundled runtime lives.
pub fn get_java_dir(launcher_dir: &str, p: Platform) -> (r: String)
    ensures
        r@ == subdir(launcher_dir@, java_name(), p),
{
    proof {
        reveal_strlit("java");
    }
    join(launcher_dir, "java", p)
}

pub fn get_assets_dir(launcher_dir: &str, p: Platform) -> (r: String)
    ensures
        r@ == subdir(launcher_dir@, assets_name(), p),
{
    proof {
        reveal_strlit("assets");
    }
    join(launcher_dir, "assets", p)
}

pub fn get_libraries_dir(launcher_dir: &str, p: Platform) -> (r: String)
    ensures
        r@ == subdir(launcher_dir@, libraries_name(), p),
{
    proof {
        reveal_strlit("libraries");
    }
    join(launcher_dir, "libraries", p)
}

pub fn get_modpacks_dir(launcher_dir: &str, p: Platform) -> (r: String)
    ensures
        r@ == subdir(launcher_dir@, modpacks_name(), p),
{
    proof {
        reveal_strlit("modpacks");
    }
    join(launcher_dir, "modpacks", p)
}

pub fn get_skins_dir(launcher_dir: &str, p: Platform) -> (r: String)
    ensures
        r@ == subdir(launcher_dir@, skins_name(), p),
{
    proof {
        reveal_strlit("skins");
    }
    join(launcher_dir, "skins", p)
}

/// Each directory accessor is a function of the launcher directory alone:
/// asked twice, it names the same path, and that path lies below the root,
/// apart from every other accessor's path.
pub proof fn lemma_dir_accessors_stable(root: Seq<char>, p: Platform)
    ensures
        forall|n: Seq<char>| subdir(root, n, p) == #[trigger] join_path(root, n, p),
        root.is_prefix_of(subdir(root, versions_name(), p)),
        root.is_prefix_of(subdir(root, java_name(), p)),
        root.is_prefix_of(subdir(root, assets_name(), p)),
        root.is_prefix_of(subdir(root, libraries_name(), p)),
        root.is_prefix_of(subdir(root, modpacks_name(), p)),
        root.is_prefix_of(subdir(root, skins_name(), p)),
        ({
            let all = seq![versions_name(), java_name(), assets_name(), libraries_name(), modpacks_name(), skins_name()];
            forall|i: int, j: int|
                0 <= i < 6 && 0 <= j < 6 && i != j ==> subdir(root, #[trigger] all[i], p) != subdir(root, #[trigger] all[j], p)
        }),
{
    let all = seq![versions_name(), java_name(), assets_name(), libraries_name(), modpacks_name(), skins_name()];
    assert forall|i: int, j: int|
        0 <= i < 6 && 0 <= j < 6 && i != j implies subdir(root, #[trigger] all[i], p) != subdir(root, #[trigger] all[j], p) by {
        lemma_join_injective(root, all[i], all[j], p);
        assert(all[i] != all[j]) by {
            assert(all[i][0] != all[j][0] || all[i].len() != all[j].len() || all[i][1] != all[j][1]);
        }
    }
    assert forall|n: Seq<char>| root.is_prefix_of(#[trigger] join_path(root, n, p)) by {
        assert(join_path(root, n, p).subrange(0, root.len() as int) =~= root);
    }
}

/// Joining one base with two different names gives two different paths.
pub proof fn lemma_join_injective(base: Seq<char>, a: Seq<char>, b: Seq<char>, p: Platform)
    ensures
        join_path(base, a, p) == join_path(base, b, p) ==> a == b,
{
    let k = join_path(base, a, p).len() - a.len();
    if join_path(base, a, p) == join_path(base, b, p) {
        assert(a =~= join_path(base, a, p).subrange(k, join_path(base, a, p).len() as int));
        assert(b =~= join_path(base, b, p).subrange(k, join_path(base, b, p).len() as int));
    }
}

} // verus!
