//! File paths as text, with `/` between their parts.

use vstd::prelude::*;

use crate::text::begins;
use crate::text::chars_of;
use crate::text::starts_with;

verus! {

/// `rel` under `base`. An absolute `rel` stands for itself.
pub open spec fn joined(base: Seq<char>, rel: Seq<char>) -> Seq<char> {
    if begins(rel, "/"@) {
        rel
    } else if base.len() == 0 || base.last() == '/' {
        base + rel
    } else {
        base + "/"@ + rel
    }
}

/// `rel` under `base`.
pub fn join_path(base: &str, rel: &str) -> (p: String)
    ensures
        p@ == joined(base@, rel@),
{
    let r: Vec<char> = chars_of(rel);
    if starts_with(r.as_slice(), "/") {
        return rel.to_owned();
    }
    let b: Vec<char> = chars_of(base);
    let mut p: String = base.to_owned();
    if b.len() > 0 && b[b.len() - 1] != '/' {
        p.append("/");
    }
    p.append(rel);
    p
}

/// The directory under which the tool keeps `leaf`: the one set for it; else
/// that of the user behind `sudo`, so that a hook that runs as root reads and
/// writes the invoking user's cache; else that of the XDG cache; else that of
/// the home directory. None where nothing says.
pub open spec fn cache_dir_of(
    own: Option<Seq<char>>,
    sudo_user: Option<Seq<char>>,
    xdg_cache: Option<Seq<char>>,
    home: Option<Seq<char>>,
    leaf: Seq<char>,
) -> Option<Seq<char>> {
    match own {
        Some(dir) => Some(dir),
        None => match sudo_user {
            Some(user) => Some("/home/"@ + user + "/.cache/aur-guard/"@ + leaf),
            None => match xdg_cache {
                Some(dir) => Some(joined(dir, "aur-guard/"@ + leaf)),
                None => match home {
                    Some(dir) => Some(joined(dir, ".cache/aur-guard/"@ + leaf)),
                    None => None,
                },
            },
        },
    }
}

/// The text that an optional string slice holds.
pub open spec fn opt_str(s: Option<&str>) -> Option<Seq<char>> {
    match s {
        Some(t) => Some(t@),
        None => None,
    }
}

/// The directory under which the tool keeps `leaf`.
pub fn cache_dir(
    own: Option<&str>,
    sudo_user: Option<&str>,
    xdg_cache: Option<&str>,
    home: Option<&str>,
    leaf: &str,
) -> (d: Option<String>)
    ensures
        crate::report::opt_text(d) == cache_dir_of(
            opt_str(own),
            opt_str(sudo_user),
            opt_str(xdg_cache),
            opt_str(home),
            leaf@,
        ),
{
    if let Some(dir) = own {
        return Some(dir.to_owned());
    }
    if let Some(user) = sudo_user {
        let mut p: String = "/home/".to_owned();
        p.append(user);
        p.append("/.cache/aur-guard/");
        p.append(leaf);
        return Some(p);
    }
    if let Some(dir) = xdg_cache {
        let mut rel: String = "aur-guard/".to_owned();
        rel.append(leaf);
        return Some(join_path(dir, rel.as_str()));
    }
    if let Some(dir) = home {
        let mut rel: String = ".cache/aur-guard/".to_owned();
        rel.append(leaf);
        return Some(join_path(dir, rel.as_str()));
    }
    None
}

/// The file `name` with the given ending, under `dir`.
pub open spec fn entry_of(dir: Seq<char>, name: Seq<char>, ending: Seq<char>) -> Seq<char> {
    joined(dir, name + ending)
}

/// The file `name` with the given ending, under `dir`.
pub fn entry_path(dir: &str, name: &str, ending: &str) -> (p: String)
    ensures
        p@ == entry_of(dir@, name@, ending@),
{
    let mut file: String = name.to_owned();
    file.append(ending);
    join_path(dir, file.as_str())
}

/// The user behind `sudo` and root share a cache: which caches and homes are
/// set makes no difference where that user is known.
pub proof fn law_sudo_user_keeps_one_cache(
    user: Seq<char>,
    xdg_a: Option<Seq<char>>,
    home_a: Option<Seq<char>>,
    xdg_b: Option<Seq<char>>,
    home_b: Option<Seq<char>>,
    leaf: Seq<char>,
)
    ensures
        cache_dir_of(None, Some(user), xdg_a, home_a, leaf) == cache_dir_of(
            None,
            Some(user),
            xdg_b,
            home_b,
            leaf,
        ),
{
}

/// A directory that is set for the tool overrides everything else.
pub proof fn law_own_directory_overrides(
    dir: Seq<char>,
    sudo_user: Option<Seq<char>>,
    xdg_cache: Option<Seq<char>>,
    home: Option<Seq<char>>,
    leaf: Seq<char>,
)
    ensures
        cache_dir_of(Some(dir), sudo_user, xdg_cache, home, leaf) == Some(dir),
{
}

}
