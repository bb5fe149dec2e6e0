//! File paths with `/` between their components.

use crate::text::{after_last, cat, copy, last_place, opt_view, split, split_on, str_eq, views};
use vstd::prelude::*;

verus! {

/// `path` without slashes and `/.` at its end.
pub open spec fn without_tail(path: Seq<char>) -> Seq<char>
    decreases path.len(),
{
    if path.len() > 0 && path.last() == '/' {
        without_tail(path.drop_last())
    } else if path.len() > 1 && path.last() == '.' && path[path.len() - 2] == '/' {
        without_tail(path.drop_last())
    } else {
        path
    }
}

/// The final component, unless it is empty, `.` or `..`.
pub open spec fn file_name(path: Seq<char>) -> Option<Seq<char>> {
    let whole = without_tail(path);
    let name = whole.skip(last_place(whole, '/') + 1);
    if name.len() == 0 || name == "."@ || name == ".."@ {
        None
    } else {
        Some(name)
    }
}

/// What follows the last dot of the file name, unless that dot starts it.
pub open spec fn file_extension(path: Seq<char>) -> Option<Seq<char>> {
    match file_name(path) {
        None => None,
        Some(name) => if last_place(name, '.') <= 0 {
            None
        } else {
            Some(name.skip(last_place(name, '.') + 1))
        },
    }
}

/// The directory that holds `path`; empty for a bare name.
pub open spec fn directory(path: Seq<char>) -> Seq<char> {
    let whole = without_tail(path);
    let slash = last_place(whole, '/');
    if slash < 0 {
        Seq::empty()
    } else {
        let head = without_tail(whole.take(slash));
        if head.len() == 0 {
            seq!['/']
        } else {
            head
        }
    }
}

/// `name` inside `base`; an absolute name stands for itself.
pub open spec fn joined(base: Seq<char>, name: Seq<char>) -> Seq<char> {
    if base.len() == 0 || is_absolute(name) {
        name
    } else if base.last() == '/' {
        base + name
    } else {
        base + seq!['/'] + name
    }
}

/// The path starts at the root.
pub open spec fn is_absolute(path: Seq<char>) -> bool {
    path.len() > 0 && path[0] == '/'
}

/// The first `count` pieces without the empty ones and without `.`, which
/// counts only at the very start.
pub open spec fn kept_pieces(pieces: Seq<Seq<char>>, count: nat) -> Seq<Seq<char>>
    decreases count,
{
    if count == 0 {
        Seq::empty()
    } else {
        let rest = kept_pieces(pieces, (count - 1) as nat);
        let piece = pieces[count - 1];
        if piece.len() == 0 || (piece == "."@ && count > 1) {
            rest
        } else {
            rest.push(piece)
        }
    }
}

/// The components of a path.
pub open spec fn path_components(path: Seq<char>) -> Seq<Seq<char>> {
    kept_pieces(split_on(path, '/'), split_on(path, '/').len())
}

/// The two texts mean the same path: both start at the root or neither does,
/// and their components agree.
pub open spec fn same_path(a: Seq<char>, b: Seq<char>) -> bool {
    is_absolute(a) == is_absolute(b) && path_components(a) == path_components(b)
}

/// The path without slashes and `/.` at its end.
fn strip_tail(path: &str) -> (r: String)
    ensures
        r@ == without_tail(path@),
{
    let n: usize = path.unicode_len();
    let mut i: usize = n;
    assert(path@.take(n as int) =~= path@);
    while i > 0 && (path.get_char(i - 1) == '/' || (i > 1 && path.get_char(i - 1) == '.'
        && path.get_char(i - 2) == '/'))
        invariant
            n == path@.len(),
            i <= n,
            without_tail(path@) == without_tail(path@.take(i as int)),
        decreases i,
    {
        assert(path@.take(i as int).drop_last() =~= path@.take(i - 1));
        i = i - 1;
    }
    let out = path.substring_char(0, i).to_owned();
    assert(out@ =~= path@.take(i as int));
    out
}

/// Whether the path is empty or the root alone.
pub fn names_nothing(path: &str) -> (r: bool)
    ensures
        r == (without_tail(path@).len() == 0),
{
    strip_tail(path).as_str().unicode_len() == 0
}

/// The final component of the path.
pub fn name_of(path: &str) -> (r: Option<String>)
    ensures
        opt_view(r) == file_name(path@),
{
    let whole = strip_tail(path);
    let from: usize = after_last(whole.as_str(), '/');
    let n: usize = whole.as_str().unicode_len();
    let name = whole.as_str().substring_char(from, n).to_owned();
    assert(name@ =~= whole@.skip(last_place(whole@, '/') + 1));
    if name.as_str().unicode_len() == 0 || str_eq(name.as_str(), ".") || str_eq(
        name.as_str(),
        "..",
    ) {
        None
    } else {
        Some(name)
    }
}

/// What follows the last dot of the file name.
pub fn extension_of(path: &str) -> (r: Option<String>)
    ensures
        opt_view(r) == file_extension(path@),
{
    match name_of(path) {
        None => None,
        Some(name) => {
            let from: usize = after_last(name.as_str(), '.');
            let n: usize = name.as_str().unicode_len();
            if from <= 1 {
                None
            } else {
                let out = name.as_str().substring_char(from, n).to_owned();
                assert(out@ =~= name@.skip(last_place(name@, '.') + 1));
                Some(out)
            }
        },
    }
}

/// The directory that holds the path.
pub fn directory_of(path: &str) -> (r: String)
    ensures
        r@ == directory(path@),
{
    let whole = strip_tail(path);
    let from: usize = after_last(whole.as_str(), '/');
    if from == 0 {
        let out = String::new();
        assert(out@ =~= Seq::<char>::empty());
        return out;
    }
    let before = whole.as_str().substring_char(0, from - 1).to_owned();
    assert(before@ =~= whole@.take(last_place(whole@, '/')));
    let head = strip_tail(before.as_str());
    if head.as_str().unicode_len() == 0 {
        proof {
            reveal_strlit("/");
        }
        let out = copy("/");
        assert(out@ =~= seq!['/']);
        out
    } else {
        head
    }
}

/// `name` inside `base`; an absolute name stands for itself.
pub fn join_path(base: &str, name: &str) -> (r: String)
    ensures
        r@ == joined(base@, name@),
{
    let n: usize = base.unicode_len();
    if n == 0 || absolute(name) {
        return copy(name);
    }
    if base.get_char(n - 1) == '/' {
        return cat(base, name);
    }
    proof {
        reveal_strlit("/");
    }
    let mut out = copy(base);
    out.append("/");
    out.append(name);
    assert(out@ =~= joined(base@, name@));
    out
}

/// Whether the path starts at the root.
pub fn absolute(path: &str) -> (r: bool)
    ensures
        r == is_absolute(path@),
{
    path.unicode_len() > 0 && path.get_char(0) == '/'
}

fn components_of(path: &str) -> (r: Vec<String>)
    ensures
        views(r@) == path_components(path@),
{
    let pieces = split(path, '/');
    let ghost all = views(pieces@);
    let mut out: Vec<String> = Vec::new();
    assert(views(out@) =~= Seq::<Seq<char>>::empty());
    for i in 0..pieces.len()
        invariant
            all == views(pieces@),
            views(out@) == kept_pieces(all, i as nat),
    {
        let ghost sofar = views(out@);
        let piece = pieces[i].as_str();
        assert(all[i as int] == piece@);
        if !(piece.unicode_len() == 0 || (str_eq(piece, ".") && i > 0)) {
            out.push(copy(piece));
            assert(views(out@) =~= sofar.push(piece@));
        }
    }
    assert(all.len() == pieces@.len());
    out
}

/// Whether two lists of texts are the same.
pub fn same_texts(a: &Vec<String>, b: &Vec<String>) -> (r: bool)
    ensures
        r == (views(a@) == views(b@)),
{
    if a.len() != b.len() {
        assert(views(a@).len() != views(b@).len());
        return false;
    }
    for i in 0..a.len()
        invariant
            a@.len() == b@.len(),
            forall|k: int| 0 <= k < i ==> (#[trigger] a@[k])@ == b@[k]@,
    {
        if !str_eq(a[i].as_str(), b[i].as_str()) {
            assert(views(a@)[i as int] != views(b@)[i as int]);
            return false;
        }
    }
    assert(views(a@) =~= views(b@));
    true
}

/// Whether the two texts mean the same path.
pub fn paths_agree(a: &str, b: &str) -> (r: bool)
    ensures
        r == same_path(a@, b@),
{
    let x = components_of(a);
    let y = components_of(b);
    absolute(a) == absolute(b) && same_texts(&x, &y)
}

} // verus!
