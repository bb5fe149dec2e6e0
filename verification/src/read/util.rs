//! Shared attribute and relationship plumbing for the readers.
//!
//! Each reader takes the owning prim's path and the property name and returns
//! the decoded value: `None` or an empty list where nothing is authored or the
//! type does not fit, and the error of a property that could not be read.

use crate::stage::{Pair, Quad, Scalar, Stage, Triple, Value};
use crate::text::{copy, copy_all, opt_view, str_eq, views};
use vstd::prelude::*;

verus! {

/// The error of reading a property: a relationship where the flag is set, an
/// attribute otherwise.
pub open spec fn property_problem(stage: Stage, prim: Seq<char>, probe: (bool, Seq<char>)) -> Option<
    Seq<char>,
> {
    if probe.0 {
        match stage.related(prim, probe.1) {
            Ok(_) => None,
            Err(e) => Some(e),
        }
    } else {
        match stage.default_value(prim, probe.1) {
            Ok(_) => None,
            Err(e) => Some(e),
        }
    }
}

/// The error of the first property in the list that cannot be read.
pub open spec fn first_problem(stage: Stage, prim: Seq<char>, probes: Seq<(bool, Seq<char>)>) -> Option<
    Seq<char>,
>
    decreases probes.len(),
{
    if probes.len() == 0 {
        None
    } else {
        match property_problem(stage, prim, probes[0]) {
            Some(e) => Some(e),
            None => first_problem(stage, prim, probes.skip(1)),
        }
    }
}

/// What a list of properties names.
pub open spec fn probe_views(probes: Seq<(bool, &str)>) -> Seq<(bool, Seq<char>)> {
    probes.map_values(|p: (bool, &str)| (p.0, p.1@))
}

/// The error of the first property in the list that cannot be read.
pub fn first_error(stage: &Stage, prim: &str, probes: &Vec<(bool, &str)>) -> (r: Option<String>)
    ensures
        opt_view(r) == first_problem(*stage, prim@, probe_views(probes@)),
{
    let ghost all = probe_views(probes@);
    let mut i: usize = 0;
    assert(all.skip(0) =~= all);
    while i < probes.len()
        invariant
            i <= probes@.len(),
            all == probe_views(probes@),
            first_problem(*stage, prim@, all) == first_problem(*stage, prim@, all.skip(i as int)),
        decreases probes@.len() - i,
    {
        let (relation, name) = probes[i];
        assert(all.skip(i as int)[0] == (relation, name@));
        if relation {
            if let Some(found) = stage.relationship(prim, name) {
                if let Err(e) = &found.targets {
                    return Some(copy(e.as_str()));
                }
            }
        } else {
            if let Some(found) = stage.attribute(prim, name) {
                if let Err(e) = &found.at_default {
                    return Some(copy(e.as_str()));
                }
            }
        }
        assert(all.skip(i as int).skip(1) =~= all.skip(i as int + 1));
        i = i + 1;
    }
    None
}

/// A float, double or int.
pub open spec fn as_number(value: Option<Value>) -> Option<Scalar> {
    match value {
        Some(Value::Float(v)) => Some(Scalar::F32(v)),
        Some(Value::Double(v)) => Some(Scalar::F64(v)),
        Some(Value::Int(v)) => Some(Scalar::Int(v as i64)),
        _ => None,
    }
}

/// A double, float, int or time code.
pub open spec fn as_time(value: Option<Value>) -> Option<Scalar> {
    match value {
        Some(Value::TimeCode(v)) => Some(Scalar::F64(v)),
        other => as_number(other),
    }
}

/// An int; a wider one is cut to 32 bits.
pub open spec fn as_int(value: Option<Value>) -> Option<i32> {
    match value {
        Some(Value::Int(v)) => Some(v),
        Some(Value::Int64(v)) => Some(cut(v)),
        _ => None,
    }
}

/// The lower 32 bits of an integer.
pub open spec fn cut(v: i64) -> i32 {
    #[verifier::truncate]
    (v as i32)
}

/// A boolean.
pub open spec fn as_bool(value: Option<Value>) -> Option<bool> {
    match value {
        Some(Value::Bool(v)) => Some(v),
        _ => None,
    }
}

/// A token or a string.
pub open spec fn as_text(value: Option<Value>) -> Option<Seq<char>> {
    match value {
        Some(Value::Token(v)) => Some(v@),
        Some(Value::Text(v)) => Some(v@),
        _ => None,
    }
}

/// An asset path as authored, a string or a token.
pub open spec fn as_asset(value: Option<Value>) -> Option<Seq<char>> {
    match value {
        Some(Value::Asset { authored, resolved: _ }) => Some(authored@),
        other => as_text(other),
    }
}

/// Three floats or doubles.
pub open spec fn as_triple(value: Option<Value>) -> Option<Triple> {
    match value {
        Some(Value::Vec3f(x, y, z)) => Some(
            Triple { x: Scalar::F32(x), y: Scalar::F32(y), z: Scalar::F32(z) },
        ),
        Some(Value::Vec3d(x, y, z)) => Some(
            Triple { x: Scalar::F64(x), y: Scalar::F64(y), z: Scalar::F64(z) },
        ),
        _ => None,
    }
}

/// Two floats or doubles.
pub open spec fn as_pair(value: Option<Value>) -> Option<Pair> {
    match value {
        Some(Value::Vec2f(x, y)) => Some(Pair { x: Scalar::F32(x), y: Scalar::F32(y) }),
        Some(Value::Vec2d(x, y)) => Some(Pair { x: Scalar::F64(x), y: Scalar::F64(y) }),
        _ => None,
    }
}

/// Two ints.
pub open spec fn as_int_pair(value: Option<Value>) -> Option<(i32, i32)> {
    match value {
        Some(Value::Vec2i(x, y)) => Some((x, y)),
        _ => None,
    }
}

/// Tokens or strings.
pub open spec fn as_texts(value: Option<Value>) -> Seq<Seq<char>> {
    match value {
        Some(Value::TokenVec(v)) => views(v@),
        Some(Value::TextVec(v)) => views(v@),
        _ => Seq::empty(),
    }
}

/// Ints; wider ones are cut to 32 bits.
pub open spec fn as_ints(value: Option<Value>) -> Option<Seq<i32>> {
    match value {
        Some(Value::IntVec(v)) => Some(v@),
        Some(Value::Int64Vec(v)) => Some(v@.map_values(|x: i64| cut(x))),
        _ => None,
    }
}

/// Floats or doubles.
pub open spec fn as_numbers(value: Option<Value>) -> Option<Seq<Scalar>> {
    match value {
        Some(Value::FloatVec(v)) => Some(v@.map_values(|x: u32| Scalar::F32(x))),
        Some(Value::DoubleVec(v)) => Some(v@.map_values(|x: u64| Scalar::F64(x))),
        _ => None,
    }
}

/// Triples of floats.
pub open spec fn as_triples(value: Option<Value>) -> Seq<Triple> {
    match value {
        Some(Value::Vec3fVec(v)) => v@,
        _ => Seq::empty(),
    }
}

/// Pairs of floats.
pub open spec fn as_pairs(value: Option<Value>) -> Seq<Pair> {
    match value {
        Some(Value::Vec2fVec(v)) => v@,
        _ => Seq::empty(),
    }
}

/// Pairs of doubles.
pub open spec fn as_double_pairs(value: Option<Value>) -> Seq<Pair> {
    match value {
        Some(Value::Vec2dVec(v)) => v@,
        _ => Seq::empty(),
    }
}

/// Quaternions of floats.
pub open spec fn as_quads(value: Option<Value>) -> Seq<Quad> {
    match value {
        Some(Value::QuatfVec(v)) => v@,
        _ => Seq::empty(),
    }
}

/// The number in a property, where one can be read.
pub fn number_at(stage: &Stage, prim: &str, name: &str) -> (r: Option<Scalar>)
    ensures
        r == as_number(stage.value_of(prim@, name@)),
{
    match stage.value(prim, name) {
        Some(Value::Float(v)) => Some(Scalar::F32(*v)),
        Some(Value::Double(v)) => Some(Scalar::F64(*v)),
        Some(Value::Int(v)) => Some(Scalar::Int(*v as i64)),
        _ => None,
    }
}

/// The time in a property, where one can be read.
pub fn time_at(stage: &Stage, prim: &str, name: &str) -> (r: Option<Scalar>)
    ensures
        r == as_time(stage.value_of(prim@, name@)),
{
    match stage.value(prim, name) {
        Some(Value::TimeCode(v)) => Some(Scalar::F64(*v)),
        _ => number_at(stage, prim, name),
    }
}

/// The integer in a property, where one can be read.
pub fn int_at(stage: &Stage, prim: &str, name: &str) -> (r: Option<i32>)
    ensures
        r == as_int(stage.value_of(prim@, name@)),
{
    match stage.value(prim, name) {
        Some(Value::Int(v)) => Some(*v),
        Some(Value::Int64(v)) => Some(cut_int(*v)),
        _ => None,
    }
}

fn cut_int(v: i64) -> (r: i32)
    ensures
        r == cut(v),
{
    #[verifier::truncate]
    (v as i32)
}

/// The boolean in a property, where one can be read.
pub fn bool_at(stage: &Stage, prim: &str, name: &str) -> (r: Option<bool>)
    ensures
        r == as_bool(stage.value_of(prim@, name@)),
{
    match stage.value(prim, name) {
        Some(Value::Bool(v)) => Some(*v),
        _ => None,
    }
}

/// The token or string in a property, where one can be read.
pub fn text_at(stage: &Stage, prim: &str, name: &str) -> (r: Option<String>)
    ensures
        opt_view(r) == as_text(stage.value_of(prim@, name@)),
{
    match stage.value(prim, name) {
        Some(Value::Token(v)) => Some(copy(v.as_str())),
        Some(Value::Text(v)) => Some(copy(v.as_str())),
        _ => None,
    }
}

/// The asset path, string or token in a property, where one can be read.
pub fn asset_at(stage: &Stage, prim: &str, name: &str) -> (r: Option<String>)
    ensures
        opt_view(r) == as_asset(stage.value_of(prim@, name@)),
{
    match stage.value(prim, name) {
        Some(Value::Asset { authored, resolved: _ }) => Some(copy(authored.as_str())),
        _ => text_at(stage, prim, name),
    }
}

/// The triple in a property, where one can be read.
pub fn triple_at(stage: &Stage, prim: &str, name: &str) -> (r: Option<Triple>)
    ensures
        r == as_triple(stage.value_of(prim@, name@)),
{
    match stage.value(prim, name) {
        Some(Value::Vec3f(x, y, z)) => Some(
            Triple { x: Scalar::F32(*x), y: Scalar::F32(*y), z: Scalar::F32(*z) },
        ),
        Some(Value::Vec3d(x, y, z)) => Some(
            Triple { x: Scalar::F64(*x), y: Scalar::F64(*y), z: Scalar::F64(*z) },
        ),
        _ => None,
    }
}

/// The pair in a property, where one can be read.
pub fn pair_at(stage: &Stage, prim: &str, name: &str) -> (r: Option<Pair>)
    ensures
        r == as_pair(stage.value_of(prim@, name@)),
{
    match stage.value(prim, name) {
        Some(Value::Vec2f(x, y)) => Some(Pair { x: Scalar::F32(*x), y: Scalar::F32(*y) }),
        Some(Value::Vec2d(x, y)) => Some(Pair { x: Scalar::F64(*x), y: Scalar::F64(*y) }),
        _ => None,
    }
}

/// The pair of ints in a property, where one can be read.
pub fn int_pair_at(stage: &Stage, prim: &str, name: &str) -> (r: Option<(i32, i32)>)
    ensures
        r == as_int_pair(stage.value_of(prim@, name@)),
{
    match stage.value(prim, name) {
        Some(Value::Vec2i(x, y)) => Some((*x, *y)),
        _ => None,
    }
}

/// The tokens or strings in a property, where they can be read.
pub fn texts_at(stage: &Stage, prim: &str, name: &str) -> (r: Vec<String>)
    ensures
        views(r@) == as_texts(stage.value_of(prim@, name@)),
{
    match stage.value(prim, name) {
        Some(Value::TokenVec(v)) => copy_all(v),
        Some(Value::TextVec(v)) => copy_all(v),
        _ => {
            let none: Vec<String> = Vec::new();
            assert(views(none@) =~= Seq::<Seq<char>>::empty());
            none
        },
    }
}

/// The ints in a property, where they can be read.
pub fn ints_at(stage: &Stage, prim: &str, name: &str) -> (r: Option<Vec<i32>>)
    ensures
        match r {
            Some(v) => as_ints(stage.value_of(prim@, name@)) == Some(v@),
            None => as_ints(stage.value_of(prim@, name@)) is None,
        },
{
    match stage.value(prim, name) {
        Some(Value::IntVec(v)) => {
            let mut out: Vec<i32> = Vec::new();
            for i in 0..v.len()
                invariant
                    out@ == v@.take(i as int),
            {
                out.push(v[i]);
                assert(out@ =~= v@.take(i as int + 1));
            }
            assert(v@.take(v@.len() as int) =~= v@);
            Some(out)
        },
        Some(Value::Int64Vec(v)) => {
            let mut out: Vec<i32> = Vec::new();
            for i in 0..v.len()
                invariant
                    out@ == v@.take(i as int).map_values(|x: i64| cut(x)),
            {
                out.push(cut_int(v[i]));
                assert(out@ =~= v@.take(i as int + 1).map_values(|x: i64| cut(x)));
            }
            assert(v@.take(v@.len() as int) =~= v@);
            Some(out)
        },
        _ => None,
    }
}

/// The numbers in a property, where they can be read.
pub fn numbers_at(stage: &Stage, prim: &str, name: &str) -> (r: Option<Vec<Scalar>>)
    ensures
        match r {
            Some(v) => as_numbers(stage.value_of(prim@, name@)) == Some(v@),
            None => as_numbers(stage.value_of(prim@, name@)) is None,
        },
{
    match stage.value(prim, name) {
        Some(Value::FloatVec(v)) => {
            let mut out: Vec<Scalar> = Vec::new();
            for i in 0..v.len()
                invariant
                    out@ == v@.take(i as int).map_values(|x: u32| Scalar::F32(x)),
            {
                out.push(Scalar::F32(v[i]));
                assert(out@ =~= v@.take(i as int + 1).map_values(|x: u32| Scalar::F32(x)));
            }
            assert(v@.take(v@.len() as int) =~= v@);
            Some(out)
        },
        Some(Value::DoubleVec(v)) => {
            let mut out: Vec<Scalar> = Vec::new();
            for i in 0..v.len()
                invariant
                    out@ == v@.take(i as int).map_values(|x: u64| Scalar::F64(x)),
            {
                out.push(Scalar::F64(v[i]));
                assert(out@ =~= v@.take(i as int + 1).map_values(|x: u64| Scalar::F64(x)));
            }
            assert(v@.take(v@.len() as int) =~= v@);
            Some(out)
        },
        _ => None,
    }
}

/// A copy of the items.
pub fn copy_items<T: Copy>(list: &Vec<T>) -> (r: Vec<T>)
    ensures
        r@ == list@,
{
    let mut out: Vec<T> = Vec::new();
    for i in 0..list.len()
        invariant
            out@ == list@.take(i as int),
    {
        out.push(list[i]);
        assert(out@ =~= list@.take(i as int + 1));
    }
    assert(list@.take(list@.len() as int) =~= list@);
    out
}

/// The triples in a property, where they can be read.
pub fn triples_at(stage: &Stage, prim: &str, name: &str) -> (r: Vec<Triple>)
    ensures
        r@ == as_triples(stage.value_of(prim@, name@)),
{
    match stage.value(prim, name) {
        Some(Value::Vec3fVec(v)) => copy_items(v),
        _ => {
            let none: Vec<Triple> = Vec::new();
            assert(none@ =~= Seq::<Triple>::empty());
            none
        },
    }
}

/// The targets of a relationship, where they can be read.
pub open spec fn targets_of(stage: Stage, prim: Seq<char>, name: Seq<char>) -> Seq<Seq<char>> {
    match stage.related(prim, name) {
        Ok(list) => list,
        Err(_) => Seq::empty(),
    }
}

/// The first item, if there is one.
pub open spec fn first_of(list: Seq<Seq<char>>) -> Option<Seq<char>> {
    if list.len() == 0 {
        None
    } else {
        Some(list[0])
    }
}

/// The targets of a relationship, where they can be read.
pub fn targets_at(stage: &Stage, prim: &str, name: &str) -> (r: Vec<String>)
    ensures
        views(r@) == targets_of(*stage, prim@, name@),
{
    let none: Vec<String> = Vec::new();
    assert(views(none@) =~= Seq::<Seq<char>>::empty());
    match stage.relationship(prim, name) {
        None => none,
        Some(found) => match &found.targets {
            Ok(list) => copy_all(list),
            Err(_) => none,
        },
    }
}

/// The first target of a relationship, where it can be read.
pub fn first_target_at(stage: &Stage, prim: &str, name: &str) -> (r: Option<String>)
    ensures
        opt_view(r) == first_of(targets_of(*stage, prim@, name@)),
{
    let list = targets_at(stage, prim, name);
    assert(views(list@).len() == list@.len());
    if list.len() == 0 {
        None
    } else {
        assert(views(list@)[0] == list@[0]@);
        Some(copy(list[0].as_str()))
    }
}

/// The outcome of reading one attribute: its error, or what was decoded.
pub open spec fn read_outcome<T>(
    stage: Stage,
    prim: Seq<char>,
    name: Seq<char>,
    r: Result<T, String>,
    decoded: T,
) -> bool {
    match stage.default_value(prim, name) {
        Err(e) => r matches Err(text) && text@ == e,
        Ok(_) => r == Ok::<T, String>(decoded),
    }
}

fn attribute_error(stage: &Stage, prim: &str, name: &str) -> (r: Option<String>)
    ensures
        match stage.default_value(prim@, name@) {
            Err(e) => r matches Some(text) && text@ == e,
            Ok(_) => r is None,
        },
{
    match stage.attribute(prim, name) {
        None => None,
        Some(found) => match &found.at_default {
            Err(e) => Some(copy(e.as_str())),
            Ok(_) => None,
        },
    }
}

pub fn read_f32(stage: &Stage, prim: &str, name: &str) -> (r: Result<Option<Scalar>, String>)
    ensures
        read_outcome(*stage, prim@, name@, r, as_number(stage.value_of(prim@, name@))),
{
    match attribute_error(stage, prim, name) {
        Some(e) => Err(e),
        None => Ok(number_at(stage, prim, name)),
    }
}

pub fn read_double(stage: &Stage, prim: &str, name: &str) -> (r: Result<Option<Scalar>, String>)
    ensures
        read_outcome(*stage, prim@, name@, r, as_number(stage.value_of(prim@, name@))),
{
    match attribute_error(stage, prim, name) {
        Some(e) => Err(e),
        None => Ok(number_at(stage, prim, name)),
    }
}

pub fn read_int(stage: &Stage, prim: &str, name: &str) -> (r: Result<Option<i32>, String>)
    ensures
        read_outcome(*stage, prim@, name@, r, as_int(stage.value_of(prim@, name@))),
{
    match attribute_error(stage, prim, name) {
        Some(e) => Err(e),
        None => Ok(int_at(stage, prim, name)),
    }
}

pub fn read_bool(stage: &Stage, prim: &str, name: &str) -> (r: Result<Option<bool>, String>)
    ensures
        read_outcome(*stage, prim@, name@, r, as_bool(stage.value_of(prim@, name@))),
{
    match attribute_error(stage, prim, name) {
        Some(e) => Err(e),
        None => Ok(bool_at(stage, prim, name)),
    }
}

/// The outcome of reading a text attribute.
pub open spec fn text_outcome(
    stage: Stage,
    prim: Seq<char>,
    name: Seq<char>,
    r: Result<Option<String>, String>,
    decoded: Option<Seq<char>>,
) -> bool {
    match stage.default_value(prim, name) {
        Err(e) => r matches Err(text) && text@ == e,
        Ok(_) => r matches Ok(text) && opt_view(text) == decoded,
    }
}

/// A `token` or `string` scalar.
pub fn read_token_or_string(stage: &Stage, prim: &str, name: &str) -> (r: Result<
    Option<String>,
    String,
>)
    ensures
        text_outcome(*stage, prim@, name@, r, as_text(stage.value_of(prim@, name@))),
{
    match attribute_error(stage, prim, name) {
        Some(e) => Err(e),
        None => Ok(text_at(stage, prim, name)),
    }
}

/// An `asset`, `string`, or `token` scalar (asset path or plain text).
pub fn read_asset_path(stage: &Stage, prim: &str, name: &str) -> (r: Result<Option<String>, String>)
    ensures
        text_outcome(*stage, prim@, name@, r, as_asset(stage.value_of(prim@, name@))),
{
    match attribute_error(stage, prim, name) {
        Some(e) => Err(e),
        None => Ok(asset_at(stage, prim, name)),
    }
}

pub fn read_vec3f(stage: &Stage, prim: &str, name: &str) -> (r: Result<Option<Triple>, String>)
    ensures
        read_outcome(*stage, prim@, name@, r, as_triple(stage.value_of(prim@, name@))),
{
    match attribute_error(stage, prim, name) {
        Some(e) => Err(e),
        None => Ok(triple_at(stage, prim, name)),
    }
}

pub fn read_vec2f(stage: &Stage, prim: &str, name: &str) -> (r: Result<Option<Pair>, String>)
    ensures
        read_outcome(*stage, prim@, name@, r, as_pair(stage.value_of(prim@, name@))),
{
    match attribute_error(stage, prim, name) {
        Some(e) => Err(e),
        None => Ok(pair_at(stage, prim, name)),
    }
}

/// The outcome of reading a list attribute.
pub open spec fn list_outcome<T>(
    stage: Stage,
    prim: Seq<char>,
    name: Seq<char>,
    r: Result<Vec<T>, String>,
    decoded: Seq<T>,
) -> bool {
    match stage.default_value(prim, name) {
        Err(e) => r matches Err(text) && text@ == e,
        Ok(_) => r matches Ok(list) && list@ == decoded,
    }
}

pub fn read_token_vec(stage: &Stage, prim: &str, name: &str) -> (r: Result<Vec<String>, String>)
    ensures
        match stage.default_value(prim@, name@) {
            Err(e) => r matches Err(text) && text@ == e,
            Ok(_) => r matches Ok(list) && views(list@) == as_texts(stage.value_of(prim@, name@)),
        },
{
    match attribute_error(stage, prim, name) {
        Some(e) => Err(e),
        None => Ok(texts_at(stage, prim, name)),
    }
}

/// The list, or none.
pub open spec fn or_empty<T>(list: Option<Seq<T>>) -> Seq<T> {
    match list {
        Some(v) => v,
        None => Seq::empty(),
    }
}

pub fn read_int_vec(stage: &Stage, prim: &str, name: &str) -> (r: Result<Vec<i32>, String>)
    ensures
        list_outcome(
            *stage,
            prim@,
            name@,
            r,
            or_empty(as_ints(stage.value_of(prim@, name@))),
        ),
{
    match attribute_error(stage, prim, name) {
        Some(e) => Err(e),
        None => match ints_at(stage, prim, name) {
            Some(v) => Ok(v),
            None => {
                let none: Vec<i32> = Vec::new();
                assert(none@ =~= Seq::<i32>::empty());
                Ok(none)
            },
        },
    }
}

pub fn read_float_vec(stage: &Stage, prim: &str, name: &str) -> (r: Result<Vec<Scalar>, String>)
    ensures
        list_outcome(
            *stage,
            prim@,
            name@,
            r,
            or_empty(as_numbers(stage.value_of(prim@, name@))),
        ),
{
    match attribute_error(stage, prim, name) {
        Some(e) => Err(e),
        None => match numbers_at(stage, prim, name) {
            Some(v) => Ok(v),
            None => {
                let none: Vec<Scalar> = Vec::new();
                assert(none@ =~= Seq::<Scalar>::empty());
                Ok(none)
            },
        },
    }
}

pub fn read_double_vec(stage: &Stage, prim: &str, name: &str) -> (r: Result<Vec<Scalar>, String>)
    ensures
        list_outcome(
            *stage,
            prim@,
            name@,
            r,
            or_empty(as_numbers(stage.value_of(prim@, name@))),
        ),
{
    read_float_vec(stage, prim, name)
}

pub fn read_vec3f_vec(stage: &Stage, prim: &str, name: &str) -> (r: Result<Vec<Triple>, String>)
    ensures
        list_outcome(*stage, prim@, name@, r, as_triples(stage.value_of(prim@, name@))),
{
    match attribute_error(stage, prim, name) {
        Some(e) => Err(e),
        None => Ok(triples_at(stage, prim, name)),
    }
}

pub fn read_vec2f_vec(stage: &Stage, prim: &str, name: &str) -> (r: Result<Vec<Pair>, String>)
    ensures
        list_outcome(*stage, prim@, name@, r, as_pairs(stage.value_of(prim@, name@))),
{
    match attribute_error(stage, prim, name) {
        Some(e) => Err(e),
        None => match stage.value(prim, name) {
            Some(Value::Vec2fVec(v)) => Ok(copy_items(v)),
            _ => {
                let none: Vec<Pair> = Vec::new();
                assert(none@ =~= Seq::<Pair>::empty());
                Ok(none)
            },
        },
    }
}

pub fn read_vec2d_vec(stage: &Stage, prim: &str, name: &str) -> (r: Result<Vec<Pair>, String>)
    ensures
        list_outcome(*stage, prim@, name@, r, as_double_pairs(stage.value_of(prim@, name@))),
{
    match attribute_error(stage, prim, name) {
        Some(e) => Err(e),
        None => match stage.value(prim, name) {
            Some(Value::Vec2dVec(v)) => Ok(copy_items(v)),
            _ => {
                let none: Vec<Pair> = Vec::new();
                assert(none@ =~= Seq::<Pair>::empty());
                Ok(none)
            },
        },
    }
}

pub fn read_quatf_vec(stage: &Stage, prim: &str, name: &str) -> (r: Result<Vec<Quad>, String>)
    ensures
        list_outcome(*stage, prim@, name@, r, as_quads(stage.value_of(prim@, name@))),
{
    match attribute_error(stage, prim, name) {
        Some(e) => Err(e),
        None => match stage.value(prim, name) {
            Some(Value::QuatfVec(v)) => Ok(copy_items(v)),
            _ => {
                let none: Vec<Quad> = Vec::new();
                assert(none@ =~= Seq::<Quad>::empty());
                Ok(none)
            },
        },
    }
}

/// Composed relationship target paths, in authored order.
pub fn read_rel_targets(stage: &Stage, prim: &str, rel_name: &str) -> (r: Result<
    Vec<String>,
    String,
>)
    ensures
        match r {
            Ok(list) => stage.related(prim@, rel_name@) == Ok::<Seq<Seq<char>>, Seq<char>>(
                views(list@),
            ),
            Err(e) => stage.related(prim@, rel_name@) == Err::<Seq<Seq<char>>, Seq<char>>(e@),
        },
{
    match stage.relationship(prim, rel_name) {
        None => {
            let none: Vec<String> = Vec::new();
            assert(views(none@) =~= Seq::<Seq<char>>::empty());
            Ok(none)
        },
        Some(found) => match &found.targets {
            Ok(list) => Ok(copy_all(list)),
            Err(e) => Err(copy(e.as_str())),
        },
    }
}

/// The first composed relationship target (strongest), if any.
pub fn read_rel_first_target(stage: &Stage, prim: &str, rel_name: &str) -> (r: Result<
    Option<String>,
    String,
>)
    ensures
        match stage.related(prim@, rel_name@) {
            Err(e) => r matches Err(text) && text@ == e,
            Ok(list) => r matches Ok(target) && opt_view(target) == first_of(list),
        },
{
    match read_rel_targets(stage, prim, rel_name) {
        Err(e) => Err(e),
        Ok(list) => {
            assert(views(list@).len() == list@.len());
            if list.len() == 0 {
                Ok(None)
            } else {
                assert(views(list@)[0] == list@[0]@);
                Ok(Some(copy(list[0].as_str())))
            }
        },
    }
}

/// Whether the prim has the type `expected`, or the error of reading its type.
pub fn has_type(stage: &Stage, prim: &str, expected: &str) -> (r: Result<bool, String>)
    ensures
        match stage.type_of(prim@) {
            Err(e) => r matches Err(text) && text@ == e,
            Ok(found) => r == Ok::<bool, String>(found == Some(expected@)),
        },
{
    match stage.prim_type(prim) {
        Err(e) => Err(e),
        Ok(Some(found)) => Ok(str_eq(found.as_str(), expected)),
        Ok(None) => Ok(false),
    }
}

} // verus!
