//! The cache store's naming: where the cache lives, what each entry and its
//! temporary siblings are called, and which directory of an unpacked archive
//! holds the package.

use vstd::prelude::*;
use crate::text::{drop_leading, drop_trailing, trim_char};

verus! {

/// The range as the manifest gave it, without quote marks at either end.
pub open spec fn unquoted(raw: Seq<char>) -> Seq<char> {
    drop_trailing(drop_leading(raw, '"'), '"')
}

/// Strips the quote marks around a range read from the manifest.
pub fn unquote_range(raw: &str) -> (r: &str)
    ensures
        r@ == unquoted(raw@),
{
    trim_char(raw, '"')
}

/// The name of a package's cache entry: `<name>_<range>`, keyed by the raw
/// requested range rather than the version it resolves to.
pub open spec fn entry_name(name: Seq<char>, range: Seq<char>) -> Seq<char> {
    name + "_"@ + range
}

pub fn cache_entry_name(name: &str, range: &str) -> (r: String)
    ensures
        r@ == entry_name(name@, range@),
{
    let mut s = String::from_str(name);
    s.append("_");
    s.append(range);
    s
}

/// The temporary archive beside an entry.
pub open spec fn tarball_name(entry: Seq<char>) -> Seq<char> {
    entry + ".tgz"@
}

/// The scratch directory beside an entry, into which the archive is unpacked.
pub open spec fn scratch_name(entry: Seq<char>) -> Seq<char> {
    entry + ".tmp"@
}

pub fn cache_tarball_name(entry: &str) -> (r: String)
    ensures
        r@ == tarball_name(entry@),
{
    let mut s = String::from_str(entry);
    s.append(".tgz");
    s
}

pub fn cache_scratch_name(entry: &str) -> (r: String)
    ensures
        r@ == scratch_name(entry@),
{
    let mut s = String::from_str(entry);
    s.append(".tmp");
    s
}

/// The cache directory on Windows.
pub const WINDOWS_CACHE_DIR: &'static str = "C:\\snpm_cache";

/// The name of the cache directory under the home directory elsewhere.
pub const CACHE_DIR_NAME: &'static str = ".snpm_cache";

/// `child` joined below `base` with a `/`, unless `base` is empty or already ends in one.
pub open spec fn joined(base: Seq<char>, child: Seq<char>) -> Seq<char> {
    if base.len() == 0 || base.last() == '/' {
        base + child
    } else {
        base + "/"@ + child
    }
}

pub fn join_path(base: &str, child: &str) -> (r: String)
    ensures
        r@ == joined(base@, child@),
{
    let n = base.unicode_len();
    let mut s = String::from_str(base);
    if n > 0 && base.get_char(n - 1) != '/' {
        s.append("/");
    }
    s.append(child);
    s
}

/// Where the cache lives: a fixed path on Windows, else a directory below the
/// home directory, if that is known.
pub open spec fn cache_location(windows: bool, home: Option<Seq<char>>) -> Option<Seq<char>> {
    if windows {
        Some(WINDOWS_CACHE_DIR@)
    } else {
        match home {
            Some(h) => Some(joined(h, CACHE_DIR_NAME@)),
            None => None,
        }
    }
}

pub fn cache_directory(windows: bool, home: Option<&str>) -> (r: Option<String>)
    ensures
        opt_str_view(r) == cache_location(windows, opt_ref_view(home)),
{
    if windows {
        Some(String::from_str(WINDOWS_CACHE_DIR))
    } else {
        match home {
            Some(h) => Some(join_path(h, CACHE_DIR_NAME)),
            None => None,
        }
    }
}

pub open spec fn opt_str_view(o: Option<String>) -> Option<Seq<char>> {
    match o {
        Some(s) => Some(s@),
        None => None,
    }
}

pub open spec fn opt_ref_view(o: Option<&str>) -> Option<Seq<char>> {
    match o {
        Some(s) => Some(s@),
        None => None,
    }
}

/// Relies on `dirs::home_dir`: the current user's home directory, if one is
/// known and is valid Unicode; it depends on the environment, so nothing is
/// assumed of it.
#[verifier::external_body]
fn home_dir() -> Option<String> {
    dirs::home_dir().and_then(|p| p.into_os_string().into_string().ok())
}

/// The cache directory of this machine: the fixed path on Windows, else
/// `.snpm_cache` below the home directory; `None` where no home directory is known.
pub fn get_cache_directory(windows: bool) -> (r: Option<String>)
    ensures
        windows ==> opt_str_view(r) == Some(WINDOWS_CACHE_DIR@),
        !windows && r is Some ==> exists|h: Seq<char>| opt_str_view(r) == Some(joined(h, CACHE_DIR_NAME@)),
{
    if windows {
        cache_directory(true, None)
    } else {
        let home = home_dir();
        match home {
            Some(h) => cache_directory(false, Some(h.as_str())),
            None => None,
        }
    }
}

/// The one directory among the top-level entries of an unpacked archive,
/// given as (name, is directory).
pub open spec fn is_sole_directory(listing: Seq<(String, bool)>, i: int) -> bool {
    &&& 0 <= i < listing.len()
    &&& listing[i].1
    &&& forall|k: int| 0 <= k < listing.len() && k != i ==> !(#[trigger] listing[k]).1
}

/// Finds the package directory of an unpacked archive: registries wrap a
/// package in exactly one top-level directory, and anything else is refused.
pub fn package_root(listing: &Vec<(String, bool)>) -> (r: Option<usize>)
    ensures
        r matches Some(i) ==> is_sole_directory(listing@, i as int),
        r is None <==> !exists|i: int| is_sole_directory(listing@, i),
{
    let mut found: Option<usize> = None;
    let mut i: usize = 0;
    while i < listing.len()
        invariant
            i <= listing@.len(),
            found matches Some(f) ==> f < i && listing@[f as int].1
                && forall|k: int| 0 <= k < i && k != f ==> !(#[trigger] listing@[k]).1,
            found is None ==> forall|k: int| 0 <= k < i ==> !(#[trigger] listing@[k]).1,
        decreases listing@.len() - i,
    {
        if listing[i].1 {
            match found {
                Some(f) => {
                    proof {
                        assert forall|j: int| !is_sole_directory(listing@, j) by {
                            if is_sole_directory(listing@, j) {
                                if j != f as int {
                                    assert(listing@[f as int].1);
                                } else {
                                    assert(listing@[i as int].1);
                                }
                            }
                        }
                    }
                    return None;
                },
                None => { found = Some(i); },
            }
        }
        i = i + 1;
    }
    proof {
        if found is None {
            assert forall|j: int| !is_sole_directory(listing@, j) by {
                if is_sole_directory(listing@, j) {
                    assert(listing@[j].1);
                }
            }
        }
    }
    found
}

} // verus!
