//! USD scene paths, as `openusd::sdf::Path` takes them apart.

use crate::text::{last_place, opt_view};
use vstd::prelude::*;

verus! {

/// The text holds no `.` and no variant selection braces, and names something
/// after its last `/`.
pub open spec fn is_plain_prim(path: Seq<char>) -> bool {
    path.len() > 0 && path.last() != '/' && !path.contains('.') && !path.contains('{')
        && !path.contains('}')
}

/// A character that every property name may hold.
pub open spec fn is_name_char(c: char) -> bool {
    ('a' <= c && c <= 'z') || ('A' <= c && c <= 'Z') || ('0' <= c && c <= '9') || c == '_' || c
        == ':'
}

/// A non-empty property name of ASCII letters, digits, `_` and `:`.
pub open spec fn is_plain_name(name: Seq<char>) -> bool {
    name.len() > 0 && forall|i: int| 0 <= i < name.len() ==> is_name_char(#[trigger] name[i])
}

/// A result of texts, by the characters they hold.
pub open spec fn text_result(r: Result<String, String>) -> Result<Seq<char>, Seq<char>> {
    match r {
        Ok(s) => Ok(s@),
        Err(s) => Err(s@),
    }
}

/// An optional pair of texts, by the characters they hold.
pub open spec fn text_pair(r: Option<(String, String)>) -> Option<(Seq<char>, Seq<char>)> {
    match r {
        Some(p) => Some((p.0@, p.1@)),
        None => None,
    }
}

/// What `Path::append_property` returns: the longer path, or the error's text.
pub uninterp spec fn appended(path: Seq<char>, name: Seq<char>) -> Result<Seq<char>, Seq<char>>;

/// What `Path::split_property` returns: the owning prim and the property name.
pub uninterp spec fn property_split(path: Seq<char>) -> Option<(Seq<char>, Seq<char>)>;

/// What `Path::prim_path` returns.
pub uninterp spec fn owning_prim(path: Seq<char>) -> Seq<char>;

/// `openusd::sdf::Path::append_property`: the path, a dot and the name, or the
/// text of the error. An empty name is refused; a non-empty name other than a
/// single dot is taken on every path without a dot.
#[verifier::external_body]
pub(crate) fn append_property(path: &str, name: &str) -> (r: Result<String, String>)
    ensures
        text_result(r) == appended(path@, name@),
        r matches Ok(p) ==> p@ == path@ + seq!['.'] + name@ && name@.len() > 0 && name@ != seq!['.'],
        name@.len() == 0 ==> r is Err && r->Err_0@ == "Property name cannot be empty"@,
        !path@.contains('.') && name@.len() > 0 && name@ != seq!['.'] ==> r is Ok,
{
    openusd::sdf::Path::from(path).append_property(name).map(|p| p.as_str().to_string()).map_err(
        |e| format!("{e}"),
    )
}

/// `openusd::sdf::Path::split_property`: the prim that owns the property and
/// the property's name, or `None` for a path that is not a property path. On a
/// plain prim path, a dot and a plain name it gives back the two parts.
#[verifier::external_body]
pub(crate) fn split_property(path: &str) -> (r: Option<(String, String)>)
    ensures
        text_pair(r) == property_split(path@),
        !path@.contains('.') ==> r is None,
        forall|prim: Seq<char>, name: Seq<char>|
            is_plain_prim(prim) && is_plain_name(name) && path@ == #[trigger] (prim + seq!['.']
                + name) ==> text_pair(r) == Some((prim, name)),
{
    openusd::sdf::Path::from(path).split_property().map(
        |(prim, name)| (prim.as_str().to_string(), name.to_string()),
    )
}

/// `openusd::sdf::Path::prim_path`: the path without its property part. A plain
/// prim path is its own prim path.
#[verifier::external_body]
pub(crate) fn prim_path(path: &str) -> (r: String)
    ensures
        r@ == owning_prim(path@),
        is_plain_prim(path@) ==> r@ == path@,
        forall|prim: Seq<char>, name: Seq<char>|
            is_plain_prim(prim) && is_plain_name(name) && path@ == #[trigger] (prim + seq!['.']
                + name) ==> r@ == prim,
{
    openusd::sdf::Path::from(path).prim_path().as_str().to_string()
}

/// What `Path::parent` returns.
pub uninterp spec fn parent_path(path: Seq<char>) -> Option<Seq<char>>;

/// What `Path::name` returns.
pub uninterp spec fn leaf_name(path: Seq<char>) -> Option<Seq<char>>;

/// Every closing brace follows an opening one.
pub open spec fn braces_open_first(path: Seq<char>) -> bool {
    forall|i: int| 0 <= i < path.len() && #[trigger] path[i] == '}' ==> path.take(i).contains('{')
}

/// `openusd::sdf::Path::parent`: the path without its last element, which is a
/// prefix of it. The empty path and the root have none. The result is shorter
/// unless the path ends in a brace that nothing opens.
#[verifier::external_body]
pub(crate) fn parent(path: &str) -> (r: Option<String>)
    ensures
        opt_view(r) == parent_path(path@),
        path@.len() == 0 || path@ == seq!['/'] ==> r is None,
        r matches Some(p) ==> p@.is_prefix_of(path@),
        r matches Some(p) ==> (path@.last() != '}' || path@.contains('{')) ==> p@.len()
            < path@.len(),
{
    openusd::sdf::Path::from(path).parent().map(|p| p.as_str().to_string())
}

/// `openusd::sdf::Path::name`: the last element. Only the empty path and the
/// root have none; on a plain prim path it is what follows the last slash.
#[verifier::external_body]
pub(crate) fn name(path: &str) -> (r: Option<String>)
    ensures
        opt_view(r) == leaf_name(path@),
        r is None <==> path@.len() == 0 || path@ == seq!['/'],
        is_plain_prim(path@) ==> opt_view(r) == Some(path@.skip(last_place(path@, '/') + 1)),
{
    openusd::sdf::Path::from(path).name().map(|n| n.to_string())
}

/// What `Path::append_path` returns: the longer path, or the error's text.
pub uninterp spec fn child_path(path: Seq<char>, name: Seq<char>) -> Result<Seq<char>, Seq<char>>;

/// `openusd::sdf::Path::append_path`: the path of a child, or the text of the
/// error. On a plain prim path a name without a slash, other than a single
/// dot, follows a slash.
#[verifier::external_body]
pub(crate) fn append_path(path: &str, name: &str) -> (r: Result<String, String>)
    ensures
        text_result(r) == child_path(path@, name@),
        is_plain_prim(path@) && !name@.contains('/') && name@ != seq!['.'] ==> r is Ok && r->Ok_0@
            == path@ + seq!['/'] + name@,
{
    openusd::sdf::Path::from(path).append_path(name).map(|p| p.as_str().to_string()).map_err(
        |e| format!("{e}"),
    )
}

} // verus!
