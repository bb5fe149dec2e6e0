//! A composed USD stage as plain values: the prims with what their attributes
//! and relationships resolve to at the time that the host sampled.

use crate::text::{copy, opt_view, str_eq, views};
use vstd::prelude::*;

verus! {

/// One number: the bit pattern of a float of some width, or an integer.
#[derive(Debug, Clone, Copy, PartialEq, Eq, Structural)]
pub enum Scalar {
    F16(u16),
    F32(u32),
    F64(u64),
    Int(i64),
}

/// Two numbers.
#[derive(Debug, Clone, Copy, PartialEq, Eq, Structural)]
pub struct Pair {
    pub x: Scalar,
    pub y: Scalar,
}

/// Three numbers.
#[derive(Debug, Clone, Copy, PartialEq, Eq, Structural)]
pub struct Triple {
    pub x: Scalar,
    pub y: Scalar,
    pub z: Scalar,
}

/// A quaternion, real part first.
#[derive(Debug, Clone, Copy, PartialEq, Eq, Structural)]
pub struct Quad {
    pub w: Scalar,
    pub x: Scalar,
    pub y: Scalar,
    pub z: Scalar,
}

/// One resolved attribute value. Floating-point components are kept as their
/// IEEE 754 bit patterns.
#[derive(Debug)]
pub enum Value {
    Bool(bool),
    Int(i32),
    Int64(i64),
    Float(u32),
    Double(u64),
    TimeCode(u64),
    Vec2i(i32, i32),
    Vec2f(u32, u32),
    Vec2d(u64, u64),
    Vec3f(u32, u32, u32),
    Vec3d(u64, u64, u64),
    Vec4f(u32, u32, u32, u32),
    Vec4d(u64, u64, u64, u64),
    /// Real part first.
    Quatf(u32, u32, u32, u32),
    Token(String),
    Text(String),
    Asset { authored: String, resolved: Option<String> },
    TokenVec(Vec<String>),
    TextVec(Vec<String>),
    IntVec(Vec<i32>),
    Int64Vec(Vec<i64>),
    FloatVec(Vec<u32>),
    DoubleVec(Vec<u64>),
    Vec2fVec(Vec<Pair>),
    Vec2dVec(Vec<Pair>),
    Vec3fVec(Vec<Triple>),
    Vec3dVec(Vec<Triple>),
    Vec3hVec(Vec<Triple>),
    QuatfVec(Vec<Quad>),
    QuatdVec(Vec<Quad>),
    QuathVec(Vec<Quad>),
    /// Sixteen doubles for each matrix, row by row.
    Matrix4dVec(Vec<Vec<u64>>),
    Other,
}

/// A value together with the text that the host prints for it in messages.
#[derive(Debug)]
pub struct Authored {
    pub value: Value,
    pub shown: String,
}

/// One time sample: the time, as the bits of a double, and the value.
#[derive(Debug)]
pub struct Sample {
    pub time: u64,
    pub value: Value,
}

/// One attribute of a prim. `at_default` is the value without a time,
/// `at_time` the value at the sampled time, `samples` the authored time
/// samples in order; an error is its printed text. `interpolation` and
/// `element_size` are metadata.
#[derive(Debug)]
pub struct Attribute {
    pub name: String,
    pub connections: Result<Vec<String>, String>,
    pub at_default: Result<Option<Authored>, String>,
    pub at_time: Result<Option<Authored>, String>,
    pub samples: Result<Vec<Sample>, String>,
    pub interpolation: Result<Option<String>, String>,
    pub element_size: Result<Option<i32>, String>,
}

/// One relationship of a prim, with its composed targets in order.
#[derive(Debug)]
pub struct Relationship {
    pub name: String,
    pub targets: Result<Vec<String>, String>,
}

/// One prim of the stage, with its child names and applied schemas in order.
#[derive(Debug)]
pub struct Prim {
    pub path: String,
    pub prim_type: Result<Option<String>, String>,
    pub attributes: Vec<Attribute>,
    pub relationships: Vec<Relationship>,
    pub api_schemas: Result<Vec<String>, String>,
    pub child_names: Vec<String>,
}

/// The sampled stage, its prims in traversal order. `absent_files` lists the
/// file names among its values that the host did not find.
#[derive(Debug)]
pub struct Stage {
    pub prims: Vec<Prim>,
    pub absent_files: Vec<String>,
}

impl Attribute {
    /// An attribute without values or connections.
    pub fn new(name: &str) -> (r: Attribute)
        ensures
            r.name@ == name@,
            r.connections matches Ok(list) && list@.len() == 0,
            r.at_default == Ok::<Option<Authored>, String>(None),
            r.at_time == Ok::<Option<Authored>, String>(None),
            r.samples matches Ok(list) && list@.len() == 0,
            r.interpolation == Ok::<Option<String>, String>(None),
            r.element_size == Ok::<Option<i32>, String>(None),
    {
        Attribute {
            name: copy(name),
            connections: Ok(Vec::new()),
            at_default: Ok(None),
            at_time: Ok(None),
            samples: Ok(Vec::new()),
            interpolation: Ok(None),
            element_size: Ok(None),
        }
    }
}

impl Prim {
    /// A prim without properties.
    pub fn new(path: &str, prim_type: Option<String>) -> (r: Prim)
        ensures
            r.path@ == path@,
            r.prim_type == Ok::<Option<String>, String>(prim_type),
            r.attributes@.len() == 0,
            r.relationships@.len() == 0,
            r.api_schemas matches Ok(list) && list@.len() == 0,
            r.child_names@.len() == 0,
    {
        Prim {
            path: copy(path),
            prim_type: Ok(prim_type),
            attributes: Vec::new(),
            relationships: Vec::new(),
            api_schemas: Ok(Vec::new()),
            child_names: Vec::new(),
        }
    }
}

/// The first prim at `path`.
pub open spec fn find_prim(prims: Seq<Prim>, path: Seq<char>) -> Option<Prim>
    decreases prims.len(),
{
    if prims.len() == 0 {
        None
    } else if prims[0].path@ == path {
        Some(prims[0])
    } else {
        find_prim(prims.skip(1), path)
    }
}

/// The first attribute called `name`.
pub open spec fn find_attribute(attributes: Seq<Attribute>, name: Seq<char>) -> Option<Attribute>
    decreases attributes.len(),
{
    if attributes.len() == 0 {
        None
    } else if attributes[0].name@ == name {
        Some(attributes[0])
    } else {
        find_attribute(attributes.skip(1), name)
    }
}

/// The connection targets of one attribute, or the text of the read error.
pub open spec fn attribute_targets(attribute: Attribute) -> Result<Seq<Seq<char>>, Seq<char>> {
    match attribute.connections {
        Ok(list) => Ok(views(list@)),
        Err(e) => Err(e@),
    }
}

/// A value read, with the error by its characters.
pub open spec fn read_view(read: Result<Option<Authored>, String>) -> Result<
    Option<Authored>,
    Seq<char>,
> {
    match read {
        Ok(v) => Ok(v),
        Err(e) => Err(e@),
    }
}

/// The first relationship called `name`.
pub open spec fn find_relationship(list: Seq<Relationship>, name: Seq<char>) -> Option<Relationship>
    decreases list.len(),
{
    if list.len() == 0 {
        None
    } else if list[0].name@ == name {
        Some(list[0])
    } else {
        find_relationship(list.skip(1), name)
    }
}

impl Stage {
    /// The value without a time, where one can be read.
    pub open spec fn value_of(self, prim: Seq<char>, name: Seq<char>) -> Option<Value> {
        match self.default_value(prim, name) {
            Ok(Some(authored)) => Some(authored.value),
            _ => None,
        }
    }

    /// The targets of a relationship; an absent one has none.
    pub open spec fn related(self, prim: Seq<char>, name: Seq<char>) -> Result<
        Seq<Seq<char>>,
        Seq<char>,
    > {
        match find_prim(self.prims@, prim) {
            Some(p) => match find_relationship(p.relationships@, name) {
                Some(found) => match found.targets {
                    Ok(list) => Ok(views(list@)),
                    Err(e) => Err(e@),
                },
                None => Ok(Seq::empty()),
            },
            None => Ok(Seq::empty()),
        }
    }

    /// The applied schemas of a prim; an absent prim has none.
    pub open spec fn applied(self, prim: Seq<char>) -> Result<Seq<Seq<char>>, Seq<char>> {
        match find_prim(self.prims@, prim) {
            Some(p) => match p.api_schemas {
                Ok(list) => Ok(views(list@)),
                Err(e) => Err(e@),
            },
            None => Ok(Seq::empty()),
        }
    }

    /// The attribute `name` of the prim at `prim`, if there is one.
    pub open spec fn attribute_of(self, prim: Seq<char>, name: Seq<char>) -> Option<Attribute> {
        match find_prim(self.prims@, prim) {
            Some(p) => find_attribute(p.attributes@, name),
            None => None,
        }
    }

    /// The composed connection targets; an absent attribute has none.
    pub open spec fn targets(self, prim: Seq<char>, name: Seq<char>) -> Result<
        Seq<Seq<char>>,
        Seq<char>,
    > {
        match self.attribute_of(prim, name) {
            Some(a) => attribute_targets(a),
            None => Ok(Seq::empty()),
        }
    }

    /// The value without a time; an absent attribute has none.
    pub open spec fn default_value(self, prim: Seq<char>, name: Seq<char>) -> Result<
        Option<Authored>,
        Seq<char>,
    > {
        match self.attribute_of(prim, name) {
            Some(a) => read_view(a.at_default),
            None => Ok(None),
        }
    }

    /// The value at the sampled time; an absent attribute has none.
    pub open spec fn timed_value(self, prim: Seq<char>, name: Seq<char>) -> Result<
        Option<Authored>,
        Seq<char>,
    > {
        match self.attribute_of(prim, name) {
            Some(a) => read_view(a.at_time),
            None => Ok(None),
        }
    }

    /// The authored type of the prim; an absent prim has none.
    pub open spec fn type_of(self, prim: Seq<char>) -> Result<Option<Seq<char>>, Seq<char>> {
        match find_prim(self.prims@, prim) {
            Some(p) => match p.prim_type {
                Ok(Some(t)) => Ok(Some(t@)),
                Ok(None) => Ok(None),
                Err(e) => Err(e@),
            },
            None => Ok(None),
        }
    }

    /// The prim at `path`.
    pub fn prim(&self, path: &str) -> (r: Option<&Prim>)
        ensures
            r == (match find_prim(self.prims@, path@) {
                Some(p) => Some(&p),
                None => None,
            }),
    {
        let mut i: usize = 0;
        assert(self.prims@.skip(0) =~= self.prims@);
        while i < self.prims.len()
            invariant
                i <= self.prims@.len(),
                find_prim(self.prims@, path@) == find_prim(self.prims@.skip(i as int), path@),
            decreases self.prims@.len() - i,
        {
            if str_eq(self.prims[i].path.as_str(), path) {
                return Some(&self.prims[i]);
            }
            assert(self.prims@.skip(i as int).skip(1) =~= self.prims@.skip(i as int + 1));
            i = i + 1;
        }
        None
    }

    /// The attribute `name` of the prim at `prim`.
    pub fn attribute(&self, prim: &str, name: &str) -> (r: Option<&Attribute>)
        ensures
            r == (match self.attribute_of(prim@, name@) {
                Some(a) => Some(&a),
                None => None,
            }),
    {
        match self.prim(prim) {
            None => None,
            Some(p) => {
                let mut i: usize = 0;
                assert(p.attributes@.skip(0) =~= p.attributes@);
                while i < p.attributes.len()
                    invariant
                        i <= p.attributes@.len(),
                        find_attribute(p.attributes@, name@) == find_attribute(
                            p.attributes@.skip(i as int),
                            name@,
                        ),
                        self.attribute_of(prim@, name@) == find_attribute(p.attributes@, name@),
                    decreases p.attributes@.len() - i,
                {
                    if str_eq(p.attributes[i].name.as_str(), name) {
                        return Some(&p.attributes[i]);
                    }
                    assert(p.attributes@.skip(i as int).skip(1) =~= p.attributes@.skip(
                        i as int + 1,
                    ));
                    i = i + 1;
                }
                None
            },
        }
    }

    /// The value of an attribute without a time, where one can be read.
    pub fn value(&self, prim: &str, name: &str) -> (r: Option<&Value>)
        ensures
            r == (match self.value_of(prim@, name@) {
                Some(v) => Some(&v),
                None => None,
            }),
    {
        match self.attribute(prim, name) {
            None => None,
            Some(attribute) => match &attribute.at_default {
                Ok(Some(authored)) => Some(&authored.value),
                _ => None,
            },
        }
    }

    /// The relationship `name` of the prim at `prim`.
    pub fn relationship(&self, prim: &str, name: &str) -> (r: Option<&Relationship>)
        ensures
            r == (match find_prim(self.prims@, prim@) {
                Some(p) => match find_relationship(p.relationships@, name@) {
                    Some(found) => Some(&found),
                    None => None,
                },
                None => None,
            }),
    {
        match self.prim(prim) {
            None => None,
            Some(p) => {
                let mut i: usize = 0;
                let ghost all = p.relationships@;
                assert(all.skip(0) =~= all);
                while i < p.relationships.len()
                    invariant
                        i <= all.len(),
                        all == p.relationships@,
                        find_relationship(all, name@) == find_relationship(
                            all.skip(i as int),
                            name@,
                        ),
                        find_prim(self.prims@, prim@) == Some(*p),
                    decreases all.len() - i,
                {
                    if str_eq(p.relationships[i].name.as_str(), name) {
                        return Some(&p.relationships[i]);
                    }
                    assert(all.skip(i as int).skip(1) =~= all.skip(i as int + 1));
                    i = i + 1;
                }
                None
            },
        }
    }

    /// The authored type of the prim at `prim`, or the error of reading it.
    pub fn prim_type(&self, prim: &str) -> (r: Result<Option<String>, String>)
        ensures
            match r {
                Ok(t) => self.type_of(prim@) == Ok::<Option<Seq<char>>, Seq<char>>(opt_view(t)),
                Err(e) => self.type_of(prim@) == Err::<Option<Seq<char>>, Seq<char>>(e@),
            },
    {
        match self.prim(prim) {
            None => Ok(None),
            Some(p) => match &p.prim_type {
                Ok(Some(t)) => Ok(Some(copy(t.as_str()))),
                Ok(None) => Ok(None),
                Err(e) => Err(copy(e.as_str())),
            },
        }
    }

    /// Whether the host reported `file` missing.
    pub fn is_absent(&self, file: &str) -> (r: bool)
        ensures
            r == views(self.absent_files@).contains(file@),
    {
        for i in 0..self.absent_files.len()
            invariant
                forall|k: int| 0 <= k < i ==> (#[trigger] views(self.absent_files@)[k]) != file@,
        {
            if str_eq(self.absent_files[i].as_str(), file) {
                assert(views(self.absent_files@)[i as int] == file@);
                return true;
            }
        }
        false
    }
}

} // verus!
