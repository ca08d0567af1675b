//! Path text, as the platform's `std::path` treats it.
//!
//! Paths are held as text. Joining, splitting into components and extensions
//! are done by `std::path`; their results are named here and the library's
//! logic is proved against those names.

use vstd::prelude::*;
use crate::text::strings_view;

verus! {

/// The text of `Path::new(base).join(path)`.
pub uninterp spec fn spec_path_join(base: Seq<char>, path: Seq<char>) -> Seq<char>;

/// The components of `Path::new(path)`, each as the text of its `as_os_str()`.
pub uninterp spec fn spec_path_components(path: Seq<char>) -> Seq<Seq<char>>;

/// The text of `Path::new(path).extension()`.
pub uninterp spec fn spec_path_extension(path: Seq<char>) -> Option<Seq<char>>;

/// The text of `Path::new(path).with_added_extension(extension)`.
pub uninterp spec fn spec_path_with_added_extension(path: Seq<char>, extension: Seq<char>) -> Seq<
    char,
>;

/// Calls `std::path::Path::join`. Its result is named, not described: it is the
/// text of the joined path, a function of the two texts alone.
#[verifier::external_body]
pub(crate) fn path_join(base: &str, path: &str) -> (r: String)
    ensures
        r@ == spec_path_join(base@, path@),
{
    std::path::Path::new(base).join(path).to_string_lossy().into_owned()
}

/// Calls `std::path::Path::components`, turning each component into its text.
/// The result is named: the sequence of component texts of the path.
#[verifier::external_body]
pub(crate) fn path_components(path: &str) -> (r: Vec<String>)
    ensures
        strings_view(r@) == spec_path_components(path@),
{
    std::path::Path::new(path).components().map(
        |c| c.as_os_str().to_string_lossy().into_owned(),
    ).collect()
}

/// Calls `std::path::Path::extension`. The result is named: the text of the
/// extension of the path's file name, if it has one.
#[verifier::external_body]
pub(crate) fn path_extension(path: &str) -> (r: Option<String>)
    ensures
        match r {
            Some(e) => spec_path_extension(path@) == Some(e@),
            None => spec_path_extension(path@) is None,
        },
{
    std::path::Path::new(path).extension().map(|e| e.to_string_lossy().into_owned())
}

/// The text of `Path::new(path).file_name()`.
pub uninterp spec fn spec_path_file_name(path: Seq<char>) -> Option<Seq<char>>;

/// Calls `std::path::Path::file_name`. The result is named: the text of the
/// last component of the path, if it is a normal component.
#[verifier::external_body]
pub(crate) fn path_file_name(path: &str) -> (r: Option<String>)
    ensures
        match r {
            Some(n) => spec_path_file_name(path@) == Some(n@),
            None => spec_path_file_name(path@) is None,
        },
{
    std::path::Path::new(path).file_name().map(|n| n.to_string_lossy().into_owned())
}

/// Whether `std::path::is_separator` holds of `c`: whether `c` separates the
/// components of a path on this platform.
pub uninterp spec fn spec_is_separator(c: char) -> bool;

/// Calls `std::path::is_separator`. The result is named: whether the character
/// is a path separator of this platform.
#[verifier::external_body]
pub(crate) fn is_separator(c: char) -> (r: bool)
    ensures
        r == spec_is_separator(c),
{
    std::path::is_separator(c)
}

/// Some character of the text is a path separator.
pub open spec fn has_separator(s: Seq<char>) -> bool {
    exists|i: int| 0 <= i < s.len() && spec_is_separator(#[trigger] s[i])
}

/// Whether some character of `s` is a path separator.
pub fn contains_separator(s: &str) -> (r: bool)
    ensures
        r == has_separator(s@),
{
    let n = s.unicode_len();
    let mut i: usize = 0;
    while i < n
        invariant
            n == s@.len(),
            i <= n,
            forall|j: int| 0 <= j < i ==> !spec_is_separator(#[trigger] s@[j]),
        decreases n - i,
    {
        if is_separator(s.get_char(i)) {
            return true;
        }
        i += 1;
    }
    false
}

/// Calls `std::path::Path::with_added_extension`. The result is named: the
/// text of the path with the extension appended to its file name. The call
/// panics where the extension holds a path separator, which `requires` leaves
/// out.
#[verifier::external_body]
pub(crate) fn path_with_added_extension(path: &str, extension: &str) -> (r: String)
    requires
        !has_separator(extension@),
    ensures
        r@ == spec_path_with_added_extension(path@, extension@),
{
    std::path::Path::new(path).with_added_extension(extension).to_string_lossy().into_owned()
}

/// Whether two component sequences are equal, which is how `Path` compares paths.
pub fn components_eq(a: &Vec<String>, b: &Vec<String>) -> (r: bool)
    ensures
        r == (strings_view(a@) == strings_view(b@)),
{
    if a.len() != b.len() {
        return false;
    }
    let mut i: usize = 0;
    while i < a.len()
        invariant
            a.len() == b.len(),
            i <= a.len(),
            forall|j: int| 0 <= j < i ==> a@[j]@ == b@[j]@,
        decreases a.len() - i,
    {
        if a[i] != b[i] {
            assert(strings_view(a@)[i as int] != strings_view(b@)[i as int]);
            return false;
        }
        i += 1;
    }
    assert(strings_view(a@) =~= strings_view(b@));
    true
}

/// Whether two paths are the same path: whether their components are equal.
pub fn same_path(a: &str, b: &str) -> (r: bool)
    ensures
        r == (spec_path_components(a@) == spec_path_components(b@)),
{
    let ca = path_components(a);
    let cb = path_components(b);
    components_eq(&ca, &cb)
}

} // verus!
