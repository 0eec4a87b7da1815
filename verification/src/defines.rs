//! Application-wide names and the location of the on-disk cache record.

use vstd::prelude::*;
use crate::text::chars_of;
use vstd::string::StringExecFns;

verus! {

broadcast use vstd::string::group_string_axioms;

/// The application's display name.
pub fn app_name() -> (r: &'static str)
    ensures
        r@ == "Ventoy Toybox"@,
{
    "Ventoy Toybox"
}

/// The directory name the application keeps its cache under.
pub fn app_dir() -> (r: &'static str)
    ensures
        r@ == "com.github.nozwock.ventoy-toybox"@,
{
    "com.github.nozwock.ventoy-toybox"
}

/// Relies on `dirs::cache_dir`: the platform's per-user cache directory,
/// read from the environment. Nothing is assumed of the outcome; a path
/// that is not valid text counts as absent.
#[verifier::external_body]
fn os_cache_dir() -> Option<String> {
    dirs::cache_dir().and_then(|p| p.into_os_string().into_string().ok())
}

/// The application's cache directory under a given platform cache
/// directory: the application's directory name appended to it, resolved
/// exactly when the base is.
pub fn app_dir_under(base: Option<String>) -> (r: Option<String>)
    ensures
        r is Some <==> base is Some,
        base matches Some(b) ==> (r matches Some(d) && d@ == b@ + "/"@
            + "com.github.nozwock.ventoy-toybox"@),
{
    match base {
        Some(mut d) => {
            let ghost b = d@;
            d.append("/");
            d.append(app_dir());
            proof {
                assert(d@ == b + "/"@ + "com.github.nozwock.ventoy-toybox"@);
            }
            Some(d)
        },
        None => None,
    }
}

/// The path of the cache record under a given platform cache directory: the
/// file `cache.ron` inside the application's directory there, or the bare
/// file name when no base directory is given.
pub fn cache_path_under(base: Option<String>) -> (r: String)
    ensures
        base matches Some(b) ==> r@ == b@ + "/"@ + "com.github.nozwock.ventoy-toybox"@ + "/"@
            + "cache.ron"@,
        base is None ==> r@ == "cache.ron"@,
{
    let ghost base0 = base;
    match app_dir_under(base) {
        Some(mut d) => {
            d.append("/");
            d.append("cache.ron");
            proof {
                assert(d@ =~= base0->0@ + "/"@ + "com.github.nozwock.ventoy-toybox"@ + "/"@
                    + "cache.ron"@);
            }
            d
        },
        None => "cache.ron".to_owned(),
    }
}

/// The application's own cache directory: the platform cache directory with
/// the application's directory name appended, or nothing when the
/// environment defines no cache directory.
pub fn app_cache_dir() -> (r: Option<String>)
    ensures
        r matches Some(d) ==> exists|base: Seq<char>|
            d@ == base + "/"@ + "com.github.nozwock.ventoy-toybox"@,
{
    app_dir_under(os_cache_dir())
}

/// The path of the on-disk cache record: the file `cache.ron` inside the
/// application's cache directory, or bare when that directory is unknown.
pub fn app_cache_path() -> (r: String)
    ensures
        (exists|base: Seq<char>|
            r@ == base + "/"@ + "com.github.nozwock.ventoy-toybox"@ + "/"@ + "cache.ron"@) || r@
            == "cache.ron"@,
{
    cache_path_under(os_cache_dir())
}

/// The command that opens a directory in the platform's file browser, or
/// nothing on a platform without a known one.
pub fn open_command(os: &str) -> (r: Option<&'static str>)
    ensures
        os@ == "windows"@ ==> (r matches Some(c) && c@ == "explorer"@),
        os@ == "linux"@ ==> (r matches Some(c) && c@ == "xdg-open"@),
        r is None <==> os@ != "windows"@ && os@ != "linux"@,
{
    proof {
        reveal_strlit("windows");
        reveal_strlit("linux");
        assert("windows"@.len() == 7);
        assert("linux"@.len() == 5);
        assert("windows"@ != "linux"@);
    }
    if crate::text::str_eq(os, "windows") {
        Some("explorer")
    } else if crate::text::str_eq(os, "linux") {
        Some("xdg-open")
    } else {
        None
    }
}

/// Whether a character separates path components.
pub open spec fn is_sep(c: char) -> bool {
    c == '/' || c == '\\'
}

/// The position of the last path separator, if any.
pub open spec fn spec_rfind_sep(p: Seq<char>) -> Option<int>
    decreases p.len(),
{
    if p.len() == 0 {
        None
    } else if is_sep(p.last()) {
        Some(p.len() - 1)
    } else {
        spec_rfind_sep(p.drop_last())
    }
}

/// The directory part of a path: everything before the last separator, or
/// empty when the path has none.
pub open spec fn spec_path_parent(p: Seq<char>) -> Seq<char> {
    match spec_rfind_sep(p) {
        Some(k) => p.take(k),
        None => Seq::empty(),
    }
}

/// Computes the directory part of a path; see [`spec_path_parent`].
pub fn path_parent(p: &str) -> (r: String)
    ensures
        r@ == spec_path_parent(p@),
{
    let v = chars_of(p);
    let mut k = v.len();
    proof {
        assert(p@.take(k as int) =~= p@);
    }
    while k > 0
        invariant
            k <= v@.len(),
            v@ == p@,
            spec_rfind_sep(p@) == spec_rfind_sep(p@.take(k as int)),
        decreases k,
    {
        proof {
            assert(p@.take(k as int).drop_last() =~= p@.take(k - 1));
            assert(p@.take(k as int).last() == p@[k - 1]);
        }
        let c = v[k - 1];
        if c == '/' || c == '\\' {
            let parent = crate::text::string_of_chars_prefix(&v, k - 1);
            proof {
                assert(spec_rfind_sep(p@) == Some(k - 1));
            }
            return parent;
        }
        k = k - 1;
    }
    proof {
        assert(p@.take(0) =~= Seq::<char>::empty());
        assert(spec_rfind_sep(p@) is None);
    }
    String::new()
}

} // verus!
