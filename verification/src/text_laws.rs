//! What taking texts and file paths apart and putting them together promises,
//! and how floats compare and round by their bits.

use crate::completion::{published, publishing_is_bounded};
use crate::float::{
    below32, below64, is_nan32, is_nan64, mantissa64, nearest, places64, rank64, rounded64,
};
use crate::fspath::{
    directory, file_extension, file_name, joined, kept_pieces, path_components, same_path,
    without_tail,
};
use crate::incremental::{
    any_geometry_differs, newest_for, shaded_places, switch_view, MeshProbe, VariantSwitch,
};
use crate::assoc::pushed_members;
use crate::materialx::diagnostic::{history, history_keeps_the_newest, MaterialXDiagnostic};
use crate::read::rig_laws::last_characters_are_last;
use crate::text::{
    decimal, digit_char, hex, hex_char, is_space, join, last_place, opt_view, same_ignoring_case, same_letter, split_on,
    text_less, trim_back, trim_front, trimmed, views, without_leading,
};
use vstd::arithmetic::div_mod::lemma_fundamental_div_mod;
use vstd::arithmetic::power2::{lemma_pow2_pos, pow2};
use vstd::prelude::*;

verus! {

/// Trimming takes white space off both ends, all of it, and nothing else.
pub proof fn trimming_takes_only_space(text: Seq<char>)
    ensures
        trimmed(text).len() > 0 ==> !is_space(trimmed(text)[0]) && !is_space(trimmed(text).last()),
        exists|from: int, to: int|
            0 <= from <= to <= text.len() && trimmed(text) == #[trigger] text.subrange(from, to)
                && (forall|i: int| 0 <= i < from ==> is_space(#[trigger] text[i])) && (forall|i: int|
                to <= i < text.len() ==> is_space(#[trigger] text[i])),
{
    let from = front_space(text);
    let rest = text.skip(from);
    let to = back_space(rest);
    let kept = trimmed(text);
    assert(kept == rest.take(to));
    assert(kept =~= text.subrange(from, from + to));
    if kept.len() > 0 {
        assert(kept[0] == rest[0]);
    }
    assert forall|i: int| from + to <= i < text.len() implies is_space(#[trigger] text[i]) by {
        assert(rest[i - from] == text[i]);
    }
}

proof fn front_space(text: Seq<char>) -> (from: int)
    ensures
        0 <= from <= text.len(),
        trim_front(text) == text.skip(from),
        forall|i: int| 0 <= i < from ==> is_space(#[trigger] text[i]),
        from < text.len() ==> !is_space(text[from]),
    decreases text.len(),
{
    if text.len() > 0 && is_space(text[0]) {
        let rest = text.skip(1);
        let from = front_space(rest);
        assert(rest.skip(from) =~= text.skip(from + 1));
        assert forall|i: int| 0 <= i < from + 1 implies is_space(#[trigger] text[i]) by {
            if i > 0 {
                assert(rest[i - 1] == text[i]);
            }
        }
        if from < rest.len() {
            assert(rest[from] == text[from + 1]);
        }
        from + 1
    } else {
        assert(text.skip(0) =~= text);
        0
    }
}

proof fn back_space(text: Seq<char>) -> (to: int)
    ensures
        0 <= to <= text.len(),
        trim_back(text) == text.take(to),
        forall|i: int| to <= i < text.len() ==> is_space(#[trigger] text[i]),
        to > 0 ==> !is_space(text[to - 1]),
    decreases text.len(),
{
    if text.len() > 0 && is_space(text.last()) {
        let rest = text.drop_last();
        let to = back_space(rest);
        assert(rest.take(to) =~= text.take(to));
        assert forall|i: int| to <= i < text.len() implies is_space(#[trigger] text[i]) by {
            if i < rest.len() {
                assert(rest[i] == text[i]);
            }
        }
        if to > 0 {
            assert(rest[to - 1] == text[to - 1]);
        }
        to
    } else {
        assert(text.take(text.len() as int) =~= text);
        text.len() as int
    }
}

/// The pieces of a text joined by the separator are the text again, and no
/// piece holds the separator.
pub proof fn pieces_join_to_the_text(text: Seq<char>, sep: char)
    ensures
        split_on(text, sep).len() > 0,
        join(split_on(text, sep), seq![sep]) == text,
        forall|i: int|
            0 <= i < split_on(text, sep).len() ==> !(#[trigger] split_on(text, sep)[i]).contains(
                sep,
            ),
    decreases text.len(),
{
    let parts = split_on(text, sep);
    if text.len() == 0 {
        assert(text =~= Seq::<char>::empty());
    } else {
        let front = text.drop_last();
        let c = text.last();
        pieces_join_to_the_text(front, sep);
        let rest = split_on(front, sep);
        if c == sep {
            assert(parts.drop_last() =~= rest);
            assert(join(parts, seq![sep]) =~= text);
        } else {
            let head = rest.drop_last();
            let last = rest.last();
            assert(parts == head.push(last.push(c)));
            assert(parts.drop_last() =~= head);
            assert(rest =~= head.push(last));
            assert(join(parts, seq![sep]) =~= join(rest, seq![sep]).push(c));
            assert(text =~= front.push(c));
            assert forall|i: int| 0 <= i < parts.len() implies !(#[trigger] parts[i]).contains(
                sep,
            ) by {
                if i == head.len() {
                    assert(!rest[i].contains(sep));
                    if last.push(c).contains(sep) {
                        let k = choose|k: int|
                            0 <= k < last.push(c).len() && last.push(c)[k] == sep;
                        assert(last[k] == sep);
                    }
                } else {
                    assert(parts[i] == rest[i]);
                }
            }
        }
    }
}

/// What is left after the leading copies of a prefix does not start with it,
/// and only copies are taken off.
pub proof fn leading_copies_are_taken_off(text: Seq<char>, prefix: Seq<char>)
    requires
        prefix.len() > 0,
    ensures
        !prefix.is_prefix_of(without_leading(text, prefix)),
        without_leading(prefix + text, prefix) == without_leading(text, prefix),
        !prefix.is_prefix_of(text) ==> without_leading(text, prefix) == text,
    decreases text.len(),
{
    let longer = prefix + text;
    assert(prefix =~= longer.subrange(0, prefix.len() as int));
    assert(longer.skip(prefix.len() as int) =~= text);
    if prefix.is_prefix_of(text) {
        leading_copies_are_taken_off(text.skip(prefix.len() as int), prefix);
    }
}

/// Texts are the same up to case where each two letters are; case alone never
/// makes texts of different length the same.
pub proof fn case_is_all_that_may_differ(a: Seq<char>, b: Seq<char>)
    ensures
        same_ignoring_case(a, a),
        same_ignoring_case(a, b) ==> a.len() == b.len(),
        same_letter('a', 'A') && same_letter('Z', 'z'),
        !same_letter('a', 'b') && !same_letter('[', '{'),
{
}

spec fn room16(width: nat) -> nat
    decreases width,
{
    if width == 0 {
        1
    } else {
        16 * room16((width - 1) as nat)
    }
}

proof fn hex_tells_numbers_apart(a: nat, b: nat, width: nat)
    requires
        a < room16(width),
        b < room16(width),
        hex(a, width) == hex(b, width),
    ensures
        a == b,
    decreases width,
{
    if width > 0 {
        let x = hex(a, width);
        let y = hex(b, width);
        assert(x.drop_last() =~= hex(a / 16, (width - 1) as nat));
        assert(y.drop_last() =~= hex(b / 16, (width - 1) as nat));
        assert(x.last() == hex_char(a % 16));
        assert(y.last() == hex_char(b % 16));
        hex_tells_numbers_apart(a / 16, b / 16, (width - 1) as nat);
    }
}

proof fn hex_has_its_width(n: nat, width: nat)
    ensures
        hex(n, width).len() == width,
    decreases width,
{
    if width > 0 {
        hex_has_its_width(n / 16, (width - 1) as nat);
    }
}

/// Sixteen hexadecimal digits tell all 64-bit numbers apart.
pub proof fn keys_have_their_own_digits(a: u64, b: u64)
    ensures
        hex(a as nat, 16).len() == 16,
        hex(a as nat, 16) == hex(b as nat, 16) ==> a == b,
{
    hex_has_its_width(a as nat, 16);
    if hex(a as nat, 16) == hex(b as nat, 16) {
        reveal_with_fuel(room16, 17);
        assert(room16(16) == 0x1_0000_0000_0000_0000);
        hex_tells_numbers_apart(a as nat, b as nat, 16);
    }
}

/// The name of a file is what follows the last slash of its path.
pub proof fn files_are_named_after_the_last_slash(base: Seq<char>, name: Seq<char>)
    requires
        name.len() > 0,
        !name.contains('/'),
        name != "."@,
        name != ".."@,
    ensures
        file_name(name) == Some(name),
        file_name(base + seq!['/'] + name) == Some(name),
        file_name(base + seq!['/'] + name + seq!['/']) == Some(name),
{
    reveal_strlit(".");
    reveal_strlit("..");
    let path = base + seq!['/'] + name;
    bare_names_have_no_tail(name);
    last_characters_are_last(name, '/');
    if last_place(name, '/') >= 0 {
        assert(name.contains(name[last_place(name, '/')]));
    }
    assert(name.skip(0) =~= name);
    assert(without_tail(path) == path) by {
        assert(path.last() == name.last());
        assert(name.contains(name.last()));
        if path.last() == '.' && path[path.len() - 2] == '/' {
            if name.len() == 1 {
                assert(name =~= "."@);
            } else {
                assert(name[name.len() - 2] == '/');
                assert(name.contains('/'));
            }
        }
    }
    assert((path + seq!['/']).drop_last() =~= path);
    assert(without_tail(path + seq!['/']) == path);
    last_characters_are_last(path, '/');
    let n = base.len() as int;
    assert(path[n] == '/');
    let place = last_place(path, '/');
    if place < n {
        assert(path[n] != '/');
    } else if place > n {
        assert(path[place] == name[place - n - 1]);
        assert(name.contains(name[place - n - 1]));
    }
    assert(path.skip(n + 1) =~= name);
}

proof fn bare_names_have_no_tail(name: Seq<char>)
    requires
        !name.contains('/'),
    ensures
        without_tail(name) == name,
{
    if name.len() > 0 {
        assert(name.contains(name.last()));
    }
    if name.len() > 1 {
        assert(name.contains(name[name.len() - 2]));
    }
}

/// The extension of a file is what follows the last dot of its name, unless
/// that dot starts the name.
pub proof fn extensions_follow_the_last_dot(
    base: Seq<char>,
    stem: Seq<char>,
    extension: Seq<char>,
)
    requires
        stem.len() > 0,
        !stem.contains('/'),
        extension.len() > 0,
        !extension.contains('/'),
        !extension.contains('.'),
    ensures
        file_extension(base + seq!['/'] + (stem + seq!['.'] + extension)) == Some(extension),
        file_extension(stem + seq!['.'] + extension) == Some(extension),
{
    reveal_strlit(".");
    reveal_strlit("..");
    let name = stem + seq!['.'] + extension;
    assert(name.len() >= 3);
    if name.contains('/') {
        let k = choose|k: int| 0 <= k < name.len() && name[k] == '/';
        if k < stem.len() {
            assert(stem[k] == '/');
        } else if k > stem.len() {
            assert(extension[k - stem.len() - 1] == '/');
        }
    }
    files_are_named_after_the_last_slash(base, name);
    last_characters_are_last(name, '.');
    let n = stem.len() as int;
    assert(name[n] == '.');
    let place = last_place(name, '.');
    if place < n {
        assert(name[n] != '.');
    } else if place > n {
        assert(name[place] == extension[place - n - 1]);
        assert(extension.contains(extension[place - n - 1]));
    }
    assert(name.skip(n + 1) =~= extension);
}

/// A relative name is looked for inside the base; an absolute one, or one
/// without a base, stands for itself.
pub proof fn relative_names_go_inside_the_base(base: Seq<char>, name: Seq<char>)
    ensures
        name.len() > 0 && name[0] == '/' ==> joined(base, name) == name,
        base.len() == 0 ==> joined(base, name) == name,
        base.len() > 0 && base.last() != '/' && (name.len() == 0 || name[0] != '/') ==> joined(
            base,
            name,
        ) == base + seq!['/'] + name,
        base.len() > 0 && base.last() == '/' && (name.len() == 0 || name[0] != '/') ==> joined(
            base,
            name,
        ) == base + name,
{
}

/// The directory of a file in a directory is that directory.
pub proof fn files_lie_in_their_directory(base: Seq<char>, name: Seq<char>)
    requires
        base.len() > 0,
        base.last() != '/',
        base.last() != '.',
        name.len() > 0,
        !name.contains('/'),
        name != "."@,
    ensures
        directory(base + seq!['/'] + name) == base,
        directory(seq!['/'] + name) == seq!['/'],
        directory(name).len() == 0,
{
    reveal_strlit(".");
    files_end_without_a_tail(base, name);
    files_end_without_a_tail(Seq::empty(), name);
    assert(Seq::<char>::empty() + seq!['/'] + name =~= seq!['/'] + name);
    bare_names_have_no_tail(name);
    last_characters_are_last(name, '/');
    if last_place(name, '/') >= 0 {
        assert(name.contains(name[last_place(name, '/')]));
    }
    let path = base + seq!['/'] + name;
    assert(path.take(base.len() as int) =~= base);
    assert((seq!['/'] + name).take(0) =~= Seq::<char>::empty());
    assert(without_tail(base) == base);
}

proof fn files_end_without_a_tail(base: Seq<char>, name: Seq<char>)
    requires
        name.len() > 0,
        !name.contains('/'),
        name != "."@,
    ensures
        without_tail(base + seq!['/'] + name) == base + seq!['/'] + name,
        last_place(base + seq!['/'] + name, '/') == base.len(),
{
    reveal_strlit(".");
    let path = base + seq!['/'] + name;
    assert(path.last() == name.last());
    assert(name.contains(name.last()));
    if path.last() == '.' && path[path.len() - 2] == '/' {
        if name.len() == 1 {
            assert(name =~= "."@);
        } else {
            assert(name[name.len() - 2] == '/');
            assert(name.contains('/'));
        }
    }
    last_characters_are_last(path, '/');
    let n = base.len() as int;
    assert(path[n] == '/');
    let place = last_place(path, '/');
    if place < n {
        assert(path[n] != '/');
    } else if place > n {
        assert(path[place] == name[place - n - 1]);
        assert(name.contains(name[place - n - 1]));
    }
}

/// A path means the same as itself, never the same as a path of the other
/// kind, and the same as another exactly where the components agree.
pub proof fn same_paths_have_the_same_components(a: Seq<char>, b: Seq<char>)
    ensures
        same_path(a, a),
        same_path(a, b) == same_path(b, a),
        same_path(a, b) ==> (a.len() > 0 && a[0] == '/' <==> b.len() > 0 && b[0] == '/'),
        same_path(a, b) ==> path_components(a) == path_components(b),
        path_components(a) == path_components(b) && (a.len() > 0 && a[0] == '/' <==> b.len() > 0
            && b[0] == '/') ==> same_path(a, b),
{
}

/// No component of a path is empty or holds a slash.
pub proof fn components_are_names(path: Seq<char>, i: int)
    requires
        0 <= i < path_components(path).len(),
    ensures
        path_components(path)[i].len() > 0,
        !path_components(path)[i].contains('/'),
{
    pieces_join_to_the_text(path, '/');
    let pieces = split_on(path, '/');
    kept_pieces_are_pieces(pieces, pieces.len(), i);
}

proof fn kept_pieces_are_pieces(pieces: Seq<Seq<char>>, count: nat, i: int)
    requires
        count <= pieces.len(),
        0 <= i < kept_pieces(pieces, count).len(),
    ensures
        kept_pieces(pieces, count)[i].len() > 0,
        exists|k: int| 0 <= k < count && #[trigger] pieces[k] == kept_pieces(pieces, count)[i],
    decreases count,
{
    if count > 0 {
        let last = (count - 1) as nat;
        let rest = kept_pieces(pieces, last);
        if i < rest.len() {
            kept_pieces_are_pieces(pieces, last, i);
        }
    }
}

/// Floats compare as their values do: a NaN with nothing, a negative number is
/// less than a positive one, larger bits mean a larger magnitude, and the two
/// zeros are equal.
pub proof fn bits_compare_as_floats(a: u32, b: u32)
    ensures
        is_nan32(a) || is_nan32(b) ==> !below32(a, b),
        a < 0x8000_0000 && b < 0x8000_0000 && !is_nan32(a) && !is_nan32(b) ==> (below32(a, b)
            <==> a < b),
        a > 0x8000_0000 && b < 0x8000_0000 && !is_nan32(a) && !is_nan32(b) ==> below32(a, b),
        a >= 0x8000_0000 && b >= 0x8000_0000 && !is_nan32(a) && !is_nan32(b) ==> (below32(a, b)
            <==> b < a),
        a < 0x8000_0000 && b >= 0x8000_0000 ==> !below32(a, b),
        !below32(0, 0x8000_0000) && !below32(0x8000_0000, 0),
        is_nan32(a) <==> (a > 0x7f80_0000 && a < 0x8000_0000) || a > 0xff80_0000,
{
}

/// Doubles compare as their values do, in the same way.
pub proof fn wide_bits_compare_as_floats(a: u64, b: u64)
    ensures
        is_nan64(a) || is_nan64(b) ==> !below64(a, b),
        a < 0x8000_0000_0000_0000 && b < 0x8000_0000_0000_0000 && !is_nan64(a) && !is_nan64(b) ==> (
        below64(a, b) <==> a < b),
        a > 0x8000_0000_0000_0000 && b < 0x8000_0000_0000_0000 && !is_nan64(a) && !is_nan64(b)
            ==> below64(a, b),
        a >= 0x8000_0000_0000_0000 && b >= 0x8000_0000_0000_0000 && !is_nan64(a) && !is_nan64(b)
            ==> (below64(a, b) <==> b < a),
        a < 0x8000_0000_0000_0000 && b >= 0x8000_0000_0000_0000 ==> !below64(a, b),
        is_nan64(a) <==> (a > 0x7ff0_0000_0000_0000 && a < 0x8000_0000_0000_0000) || a
            > 0xfff0_0000_0000_0000,
        rank64(a) < rank64(b) && !is_nan64(a) && !is_nan64(b) <==> below64(a, b),
{
}

/// Rounding gives the nearest whole number: it is at most half away, and a
/// half goes up.
pub proof fn rounding_is_to_the_nearest(mantissa: nat, places: nat)
    requires
        places > 0,
    ensures
        nearest(mantissa, places) * pow2(places) <= mantissa + pow2((places - 1) as nat),
        mantissa + pow2((places - 1) as nat) < (nearest(mantissa, places) + 1) * pow2(places),
{
    lemma_pow2_pos(places);
    let x = (mantissa + pow2((places - 1) as nat)) as int;
    let d = pow2(places) as int;
    lemma_fundamental_div_mod(x, d);
    let q = nearest(mantissa, places) as int;
    assert(x == d * q + x % d);
    assert(0 <= x % d < d);
    assert(d * q == q * d) by (nonlinear_arith);
    assert((q + 1) * d == q * d + d) by (nonlinear_arith);
}

/// Rounding to 32 bits stays in range: negative numbers and NaNs give zero,
/// large ones and infinity the largest.
pub proof fn rounding_stays_in_range(bits: u64)
    ensures
        rounded64(bits) <= u32::MAX,
        bits >= 0x8000_0000_0000_0000 ==> rounded64(bits) == 0,
        is_nan64(bits) ==> rounded64(bits) == 0,
        0x41f0_0000_0000_0000 <= bits <= 0x7ff0_0000_0000_0000 ==> rounded64(bits) == u32::MAX,
{
}

/// The places of the shaded meshes are those of all meshes with a material, in
/// order, and of no other.
pub proof fn shaded_meshes_are_all_listed(probes: Seq<MeshProbe>, count: nat)
    requires
        count <= probes.len() <= usize::MAX,
    ensures
        forall|i: usize|
            #[trigger] shaded_places(probes, count).contains(i) <==> i < count && probes[i as int].shaded,
        forall|a: int, b: int|
            0 <= a < b < shaded_places(probes, count).len() ==> (#[trigger] shaded_places(
                probes,
                count,
            )[a]) < (#[trigger] shaded_places(probes, count)[b]),
    decreases count,
{
    if count > 0 {
        let last = (count - 1) as nat;
        shaded_meshes_are_all_listed(probes, last);
        let rest = shaded_places(probes, last);
        let all = shaded_places(probes, count);
        assert forall|i: usize| #[trigger] all.contains(i) <==> i < count
            && probes[i as int].shaded by {
            pushed_members(rest, last as usize, i);
            assert(rest.contains(i) <==> i < last && probes[i as int].shaded);
        }
        assert forall|a: int, b: int| 0 <= a < b < all.len() implies (#[trigger] all[a]) < (
        #[trigger] all[b]) by {
            assert(rest.contains(rest[a]));
            assert(all[a] == rest[a]);
            if b < rest.len() {
                assert(all[b] == rest[b]);
            }
        }
    }
}

/// The newest material for a path is the last one listed for it.
pub proof fn the_last_material_counts(paths: Seq<Seq<char>>, path: Seq<char>)
    ensures
        newest_for(paths, path) matches Some(i) ==> 0 <= i < paths.len() && paths[i] == path
            && forall|k: int| i < k < paths.len() ==> #[trigger] paths[k] != path,
        newest_for(paths, path) is None ==> forall|k: int|
            0 <= k < paths.len() ==> #[trigger] paths[k] != path,
    decreases paths.len(),
{
    if paths.len() > 0 && paths.last() != path {
        let front = paths.drop_last();
        the_last_material_counts(front, path);
        assert forall|k: int| 0 <= k < front.len() implies front[k] == #[trigger] paths[k] by {}
    }
}

/// What a frame publishes is in the order of the jobs, and each is a finished
/// one.
pub proof fn published_jobs_keep_their_order<T>(
    jobs: Seq<T>,
    done: Seq<bool>,
    budget: nat,
    count: nat,
) -> (place: Seq<int>)
    requires
        count <= jobs.len(),
        jobs.len() == done.len(),
    ensures
        place.len() == published(jobs, done, budget, count).len(),
        forall|k: int|
            0 <= k < place.len() ==> 0 <= #[trigger] place[k] < count && done[place[k]]
                && jobs[place[k]] == published(jobs, done, budget, count)[k],
        forall|k: int, l: int|
            0 <= k < l < place.len() ==> #[trigger] place[k] < #[trigger] place[l],
    decreases count,
{
    if count == 0 {
        Seq::empty()
    } else {
        let before = published_jobs_keep_their_order(jobs, done, budget, (count - 1) as nat);
        if published(jobs, done, budget, count).len() == before.len() {
            before
        } else {
            before.push(count - 1)
        }
    }
}

/// A double of the next exponent has the same mantissa with its point one place
/// further right, so its value is twice as large; one has the mantissa two to
/// the 52nd with 52 places.
pub proof fn exponents_double_the_value(bits: u64)
    requires
        0x10_0000_0000_0000 <= bits < 0x41e0_0000_0000_0000,
    ensures
        mantissa64((bits + 0x10_0000_0000_0000) as u64) == mantissa64(bits),
        places64((bits + 0x10_0000_0000_0000) as u64) + 1 == places64(bits),
        mantissa64(0x3ff0_0000_0000_0000) == 0x10_0000_0000_0000,
        places64(0x3ff0_0000_0000_0000) == 52,
        bits % 0x10_0000_0000_0000 != 0xf_ffff_ffff_ffff ==> mantissa64((bits + 1) as u64)
            == mantissa64(bits) + 1,
{
}

/// Rounding is the nearest whole number to the value wherever that fits.
pub proof fn doubles_round_to_the_nearest(bits: u64)
    requires
        !is_nan64(bits),
        bits < 0x41e0_0000_0000_0000,
        nearest(mantissa64(bits), places64(bits)) <= u32::MAX,
    ensures
        rounded64(bits) == nearest(mantissa64(bits), places64(bits)),
{
}

/// A scene is loaded again exactly where some live mesh and its recomposed prim
/// both tell their number of points and the two differ.
pub proof fn only_differing_geometry_reloads(probes: Seq<MeshProbe>)
    ensures
        any_geometry_differs(probes) <==> exists|i: int|
            0 <= i < probes.len() && (#[trigger] probes[i]).vertices is Some && probes[i].points
                is Some && probes[i].vertices->0 != probes[i].points->0,
{
    if any_geometry_differs(probes) {
        let i = choose|i: int|
            0 <= i < probes.len() && crate::incremental::geometry_differs(#[trigger] probes[i]);
        assert(probes[i].vertices is Some);
    }
    if exists|i: int|
        0 <= i < probes.len() && (#[trigger] probes[i]).vertices is Some && probes[i].points
            is Some && probes[i].vertices->0 != probes[i].points->0 {
        let i = choose|i: int|
            0 <= i < probes.len() && (#[trigger] probes[i]).vertices is Some && probes[i].points
                is Some && probes[i].vertices->0 != probes[i].points->0;
        assert(crate::incremental::geometry_differs(probes[i]));
    }
}

/// Letters decide between texts at the first place where they differ, and a
/// text comes before its own continuations.
pub proof fn texts_are_ordered_by_their_first_difference(
    head: Seq<char>,
    a: char,
    b: char,
    x: Seq<char>,
    y: Seq<char>,
)
    requires
        a < b,
    ensures
        text_less(head + seq![a] + x, head + seq![b] + y),
        !text_less(head + seq![b] + y, head + seq![a] + x),
        text_less(head, head + seq![a] + x),
        !text_less(head, head),
    decreases head.len(),
{
    if head.len() == 0 {
        assert((head + seq![a] + x)[0] == a);
        assert((head + seq![b] + y)[0] == b);
    } else {
        let rest = head.skip(1);
        texts_are_ordered_by_their_first_difference(rest, a, b, x, y);
        assert((head + seq![a] + x).skip(1) =~= rest + seq![a] + x);
        assert((head + seq![b] + y).skip(1) =~= rest + seq![b] + y);
        assert((head + seq![a] + x)[0] == head[0]);
        assert((head + seq![b] + y)[0] == head[0]);
    }
}

/// A list of texts is seen text by text, in order.
pub proof fn texts_are_seen_in_order(list: Seq<String>, one: Option<String>, i: int)
    ensures
        views(list).len() == list.len(),
        0 <= i < list.len() ==> views(list)[i] == list[i]@,
        one matches Some(text) ==> opt_view(one) == Some(text@),
        one is None ==> opt_view(one) is None,
{
}

/// Two switches are the same only where prim, variant set and option all are.
pub proof fn switches_are_told_apart(a: VariantSwitch, b: VariantSwitch)
    ensures
        switch_view(a) == switch_view(b) <==> a.prim_path@ == b.prim_path@ && a.set_name@
            == b.set_name@ && a.option@ == b.option@,
{
}

/// A frame publishes at most two decoded images and at most four converted
/// meshes, and so many where as many have finished.
pub proof fn frames_publish_within_their_budget<T>(jobs: Seq<T>, done: Seq<bool>)
    requires
        jobs.len() == done.len(),
    ensures
        published(
            jobs,
            done,
            crate::materialx::material::MAX_COMPLETIONS_PER_FRAME as nat,
            jobs.len(),
        ).len() <= 2,
        published(
            jobs,
            done,
            crate::route::cache::MAX_COMPLETIONS_PER_FRAME as nat,
            jobs.len(),
        ).len() <= 4,
        jobs.len() >= 4 && done[0] && done[1] && done[2] && done[3] ==> published(
            jobs,
            done,
            crate::materialx::material::MAX_COMPLETIONS_PER_FRAME as nat,
            jobs.len(),
        ).len() == 2 && published(
            jobs,
            done,
            crate::route::cache::MAX_COMPLETIONS_PER_FRAME as nat,
            jobs.len(),
        ).len() == 4,
{
    publishing_is_bounded(jobs, done, 2, jobs.len());
    publishing_is_bounded(jobs, done, 4, jobs.len());
    if jobs.len() >= 4 && done[0] && done[1] && done[2] && done[3] {
        reveal_with_fuel(published, 5);
        publishing_goes_on(jobs, done, 2, 4, jobs.len());
        publishing_goes_on(jobs, done, 4, 4, jobs.len());
    }
}

proof fn publishing_goes_on<T>(jobs: Seq<T>, done: Seq<bool>, budget: nat, from: nat, to: nat)
    requires
        from <= to <= jobs.len(),
        jobs.len() == done.len(),
    ensures
        published(jobs, done, budget, from).len() <= published(jobs, done, budget, to).len(),
    decreases to,
{
    if from < to {
        publishing_goes_on(jobs, done, budget, from, (to - 1) as nat);
    }
}

/// The history of diagnostics holds the last 256.
pub proof fn histories_hold_the_last_256(pushed: Seq<MaterialXDiagnostic>, i: int)
    ensures
        pushed.len() <= 256 ==> history(pushed) == pushed,
        pushed.len() > 256 ==> history(pushed).len() == 256,
        pushed.len() > 256 && 0 <= i < 256 ==> history(pushed)[i] == pushed[pushed.len() - 256 + i],
{
    history_keeps_the_newest(pushed);
}

/// The ten digits print as themselves, and so do the letters of hexadecimal
/// numbers.
pub proof fn digits_print_as_themselves(d: nat)
    requires
        d < 16,
    ensures
        d < 10 ==> digit_char(d) as u32 == 48 + d,
        d < 10 ==> hex_char(d) == digit_char(d),
        d < 10 ==> decimal(d) == seq![digit_char(d)],
        d >= 10 ==> hex_char(d) as u32 == 87 + d,
{
}

/// A number of several digits is the number without its last digit, and that
/// digit.
pub proof fn digits_follow_each_other(n: nat, d: nat)
    requires
        n > 0,
        d < 10,
    ensures
        decimal(10 * n + d) == decimal(n) + seq![digit_char(d)],
{
    assert((10 * n + d) / 10 == n && (10 * n + d) % 10 == d);
    assert(decimal(n).push(digit_char(d)) =~= decimal(n) + seq![digit_char(d)]);
}

/// Blanks, tabs and line ends are white space; letters, digits, dots and commas
/// are not.
pub proof fn white_space_is_known(c: char)
    ensures
        is_space(' ') && is_space('\t') && is_space('\n') && is_space('\r'),
        33 <= c as u32 <= 126 ==> !is_space(c),
{
}

/// A piece in the middle of a path counts unless it is empty or a single dot,
/// which mean the same directory.
pub proof fn empty_pieces_do_not_count(pieces: Seq<Seq<char>>, piece: Seq<char>)
    requires
        pieces.len() > 0,
    ensures
        piece.len() == 0 || piece == seq!['.'] ==> kept_pieces(
            pieces.push(piece),
            pieces.len() + 1,
        ) == kept_pieces(pieces, pieces.len()),
        piece.len() > 0 && piece != seq!['.'] ==> kept_pieces(pieces.push(piece), pieces.len() + 1)
            == kept_pieces(pieces, pieces.len()).push(piece),
{
    reveal_strlit(".");
    assert("."@ =~= seq!['.']);
    earlier_pieces_decide(pieces, piece, pieces.len());
    assert(pieces.push(piece)[pieces.len() as int] == piece);
}

proof fn earlier_pieces_decide(pieces: Seq<Seq<char>>, piece: Seq<char>, count: nat)
    requires
        count <= pieces.len(),
    ensures
        kept_pieces(pieces.push(piece), count) == kept_pieces(pieces, count),
    decreases count,
{
    if count > 0 {
        earlier_pieces_decide(pieces, piece, (count - 1) as nat);
        assert(pieces.push(piece)[count - 1] == pieces[count - 1]);
    }
}

} // verus!
