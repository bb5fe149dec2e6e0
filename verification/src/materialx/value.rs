//! Uniform values: what an authored value or a NodeDef default puts into the
//! four lanes of a material's uniform slot.

use crate::stage::{Authored, Value};
use crate::text::{
    copy, decimal, number, quote, quoted, split, split_on, str_eq, trim, trimmed, views,
};
use vstd::prelude::*;

verus! {

/// One lane of a uniform slot, before it is rounded to 32 bits: the bits of a
/// 32-bit or 64-bit float, an integer, or a decimal literal.
#[derive(Debug, Clone, PartialEq, Eq)]
pub enum Lane {
    Bits32(u32),
    Bits64(u64),
    Int(i64),
    Literal(String),
}

/// A lane, with its literal as a character sequence.
#[verifier::ext_equal]
pub enum LaneView {
    Bits32(u32),
    Bits64(u64),
    Int(i64),
    Literal(Seq<char>),
}

impl View for Lane {
    type V = LaneView;

    open spec fn view(&self) -> LaneView {
        match *self {
            Lane::Bits32(b) => LaneView::Bits32(b),
            Lane::Bits64(b) => LaneView::Bits64(b),
            Lane::Int(n) => LaneView::Int(n),
            Lane::Literal(s) => LaneView::Literal(s@),
        }
    }
}

/// The four lanes of one uniform slot.
#[derive(Debug, Clone, PartialEq, Eq)]
pub struct Slot {
    pub x: Lane,
    pub y: Lane,
    pub z: Lane,
    pub w: Lane,
}

/// A slot, lane by lane.
#[verifier::ext_equal]
pub struct SlotView {
    pub x: LaneView,
    pub y: LaneView,
    pub z: LaneView,
    pub w: LaneView,
}

impl View for Slot {
    type V = SlotView;

    open spec fn view(&self) -> SlotView {
        SlotView { x: self.x@, y: self.y@, z: self.z@, w: self.w@ }
    }
}

/// What a list of slots holds.
pub open spec fn slot_views(list: Seq<Slot>) -> Seq<SlotView> {
    list.map_values(|s: Slot| s@)
}

/// The 32-bit pattern of `1.0`.
pub const ONE_BITS: u32 = 0x3f80_0000;

/// A lane that holds zero.
pub open spec fn zero_lane() -> LaneView {
    LaneView::Bits32(0)
}

/// A slot with one lane set.
pub open spec fn slot1(x: LaneView) -> SlotView {
    SlotView { x, y: zero_lane(), z: zero_lane(), w: zero_lane() }
}

/// A lane that holds one for `true` and zero for `false`.
pub open spec fn bool_lane(value: bool) -> LaneView {
    if value {
        LaneView::Bits32(ONE_BITS)
    } else {
        LaneView::Bits32(0)
    }
}

/// How many components a numeric MaterialX type has.
pub open spec fn components(materialx_type: Seq<char>) -> Option<nat> {
    if materialx_type == "integer"@ || materialx_type == "float"@ {
        Some(1)
    } else if materialx_type == "vector2"@ {
        Some(2)
    } else if materialx_type == "vector3"@ || materialx_type == "color3"@ {
        Some(3)
    } else if materialx_type == "vector4"@ || materialx_type == "color4"@ {
        Some(4)
    } else {
        None
    }
}

/// The slot that an authored value fills for an input of the given MaterialX
/// type, or the message of a type mismatch.
pub open spec fn authored_slot(materialx_type: Seq<char>, authored: Authored) -> Result<
    SlotView,
    Seq<char>,
> {
    let mismatch = Err::<SlotView, Seq<char>>(
        "expected MaterialX "@ + materialx_type + ", got authored USD value "@ + authored.shown@,
    );
    match authored.value {
        Value::Bool(b) => if materialx_type == "boolean"@ {
            Ok(slot1(bool_lane(b)))
        } else {
            mismatch
        },
        Value::Int(n) => if materialx_type == "integer"@ {
            Ok(slot1(LaneView::Int(n as i64)))
        } else {
            mismatch
        },
        Value::Int64(n) => if materialx_type == "integer"@ {
            Ok(slot1(LaneView::Int(n)))
        } else {
            mismatch
        },
        Value::Float(b) => if materialx_type == "float"@ {
            Ok(slot1(LaneView::Bits32(b)))
        } else {
            mismatch
        },
        Value::Double(b) => if materialx_type == "float"@ {
            Ok(slot1(LaneView::Bits64(b)))
        } else {
            mismatch
        },
        Value::Vec2f(x, y) => if materialx_type == "vector2"@ {
            Ok(
                SlotView {
                    x: LaneView::Bits32(x),
                    y: LaneView::Bits32(y),
                    z: zero_lane(),
                    w: zero_lane(),
                },
            )
        } else {
            mismatch
        },
        Value::Vec2d(x, y) => if materialx_type == "vector2"@ {
            Ok(
                SlotView {
                    x: LaneView::Bits64(x),
                    y: LaneView::Bits64(y),
                    z: zero_lane(),
                    w: zero_lane(),
                },
            )
        } else {
            mismatch
        },
        Value::Vec3f(x, y, z) => if materialx_type == "color3"@ || materialx_type == "vector3"@ {
            Ok(
                SlotView {
                    x: LaneView::Bits32(x),
                    y: LaneView::Bits32(y),
                    z: LaneView::Bits32(z),
                    w: zero_lane(),
                },
            )
        } else {
            mismatch
        },
        Value::Vec3d(x, y, z) => if materialx_type == "color3"@ || materialx_type == "vector3"@ {
            Ok(
                SlotView {
                    x: LaneView::Bits64(x),
                    y: LaneView::Bits64(y),
                    z: LaneView::Bits64(z),
                    w: zero_lane(),
                },
            )
        } else {
            mismatch
        },
        Value::Vec4f(x, y, z, w) => if materialx_type == "color4"@ || materialx_type
            == "vector4"@ {
            Ok(
                SlotView {
                    x: LaneView::Bits32(x),
                    y: LaneView::Bits32(y),
                    z: LaneView::Bits32(z),
                    w: LaneView::Bits32(w),
                },
            )
        } else {
            mismatch
        },
        Value::Vec4d(x, y, z, w) => if materialx_type == "color4"@ || materialx_type
            == "vector4"@ {
            Ok(
                SlotView {
                    x: LaneView::Bits64(x),
                    y: LaneView::Bits64(y),
                    z: LaneView::Bits64(z),
                    w: LaneView::Bits64(w),
                },
            )
        } else {
            mismatch
        },
        _ => mismatch,
    }
}

/// A decimal digit.
pub open spec fn is_digit(c: char) -> bool {
    '0' <= c && c <= '9'
}

/// The first place at or after `from` that holds no digit.
pub open spec fn digits_end(s: Seq<char>, from: int) -> int
    decreases s.len() - from,
{
    if 0 <= from < s.len() && is_digit(s[from]) {
        digits_end(s, from + 1)
    } else {
        from
    }
}

/// The place after an optional sign at `from`.
pub open spec fn sign_end(s: Seq<char>, from: int) -> int {
    if 0 <= from < s.len() && (s[from] == '+' || s[from] == '-') {
        from + 1
    } else {
        from
    }
}

/// From `from` on, `s` holds digits with at most one dot among or around them,
/// at least one digit, and then nothing or an exponent.
pub open spec fn is_number(s: Seq<char>, from: int) -> bool {
    let whole = digits_end(s, from);
    let dotted = whole < s.len() && s[whole] == '.';
    let end = if dotted {
        digits_end(s, whole + 1)
    } else {
        whole
    };
    let count = if dotted {
        end - from - 1
    } else {
        end - from
    };
    count > 0 && (end == s.len() || (s[end] == 'e' || s[end] == 'E') && {
        let power = sign_end(s, end + 1);
        power < s.len() && digits_end(s, power) == s.len()
    })
}

/// From `from` on, `s` spells the word, each letter in either case.
pub open spec fn is_word(s: Seq<char>, from: int, lower: Seq<char>, upper: Seq<char>) -> bool {
    s.len() - from == lower.len() && forall|i: int|
        0 <= i < lower.len() ==> (#[trigger] s[from + i]) == lower[i] || s[from + i] == upper[i]
}

/// The text is a float literal: an optional sign, then a number or one of the
/// words `inf`, `infinity` and `nan`.
pub open spec fn is_float(s: Seq<char>) -> bool {
    let from = sign_end(s, 0);
    ||| is_number(s, from)
    ||| is_word(s, from, "inf"@, "INF"@)
    ||| is_word(s, from, "infinity"@, "INFINITY"@)
    ||| is_word(s, from, "nan"@, "NAN"@)
}

/// Why a text is no float literal, as messages say it.
pub open spec fn float_problem(s: Seq<char>) -> Seq<char> {
    if s.len() == 0 {
        "cannot parse float from empty string"@
    } else {
        "invalid float literal"@
    }
}

/// The first piece that is no float literal once its white space is off.
pub open spec fn first_bad(parts: Seq<Seq<char>>) -> Option<Seq<char>>
    decreases parts.len(),
{
    if parts.len() == 0 {
        None
    } else if !is_float(trimmed(parts[0])) {
        Some(trimmed(parts[0]))
    } else {
        first_bad(parts.skip(1))
    }
}

/// The lane of piece `i`, or zero past the last piece.
pub open spec fn part_lane(parts: Seq<Seq<char>>, i: int) -> LaneView {
    if i < parts.len() {
        LaneView::Literal(trimmed(parts[i]))
    } else {
        zero_lane()
    }
}

/// The slot that a NodeDef default fills, or why it fills none.
pub open spec fn default_slot(materialx_type: Seq<char>, value: Seq<char>) -> Result<
    SlotView,
    Seq<char>,
> {
    if materialx_type == "boolean"@ {
        Ok(slot1(bool_lane(trimmed(value) == "true"@ || trimmed(value) == "1"@)))
    } else {
        match components(materialx_type) {
            None => Err(
                "MaterialX default type "@ + materialx_type + " is not GPU-uniform compatible"@,
            ),
            Some(expected) => {
                let parts = split_on(value, ',');
                match first_bad(parts) {
                    Some(bad) => Err(
                        "invalid "@ + materialx_type + " default "@ + quoted(value) + ": "@
                            + float_problem(bad),
                    ),
                    None => if parts.len() != expected {
                        Err(
                            materialx_type + " default expects "@ + decimal(expected)
                                + " component(s), got "@ + decimal(parts.len()) + " in "@ + quoted(
                                value,
                            ),
                        )
                    } else {
                        Ok(
                            SlotView {
                                x: part_lane(parts, 0),
                                y: part_lane(parts, 1),
                                z: part_lane(parts, 2),
                                w: part_lane(parts, 3),
                            },
                        )
                    },
                }
            },
        }
    }
}

/// A slot result, by what it holds.
pub open spec fn slot_result(r: Result<Slot, String>) -> Result<SlotView, Seq<char>> {
    match r {
        Ok(s) => Ok(s@),
        Err(e) => Err(e@),
    }
}

/// How many components a numeric MaterialX type has.
pub fn component_count(materialx_type: &str) -> (r: Option<usize>)
    ensures
        match r {
            Some(n) => components(materialx_type@) == Some(n as nat) && 1 <= n <= 4,
            None => components(materialx_type@) is None,
        },
{
    if str_eq(materialx_type, "integer") || str_eq(materialx_type, "float") {
        Some(1)
    } else if str_eq(materialx_type, "vector2") {
        Some(2)
    } else if str_eq(materialx_type, "vector3") || str_eq(materialx_type, "color3") {
        Some(3)
    } else if str_eq(materialx_type, "vector4") || str_eq(materialx_type, "color4") {
        Some(4)
    } else {
        None
    }
}

fn zero() -> (r: Lane)
    ensures
        r@ == zero_lane(),
{
    Lane::Bits32(0)
}

fn single(x: Lane) -> (r: Slot)
    ensures
        r@ == slot1(x@),
{
    Slot { x, y: zero(), z: zero(), w: zero() }
}

fn truth(value: bool) -> (r: Lane)
    ensures
        r@ == bool_lane(value),
{
    if value {
        Lane::Bits32(ONE_BITS)
    } else {
        Lane::Bits32(0)
    }
}

/// The slot that an authored value fills for an input of the given type.
pub fn value_to_uniform(materialx_type: &str, authored: &Authored) -> (r: Result<Slot, String>)
    ensures
        slot_result(r) == authored_slot(materialx_type@, *authored),
{
    match &authored.value {
        Value::Bool(b) => if str_eq(materialx_type, "boolean") {
            return Ok(single(truth(*b)));
        },
        Value::Int(n) => if str_eq(materialx_type, "integer") {
            return Ok(single(Lane::Int(*n as i64)));
        },
        Value::Int64(n) => if str_eq(materialx_type, "integer") {
            return Ok(single(Lane::Int(*n)));
        },
        Value::Float(b) => if str_eq(materialx_type, "float") {
            return Ok(single(Lane::Bits32(*b)));
        },
        Value::Double(b) => if str_eq(materialx_type, "float") {
            return Ok(single(Lane::Bits64(*b)));
        },
        Value::Vec2f(x, y) => if str_eq(materialx_type, "vector2") {
            return Ok(Slot { x: Lane::Bits32(*x), y: Lane::Bits32(*y), z: zero(), w: zero() });
        },
        Value::Vec2d(x, y) => if str_eq(materialx_type, "vector2") {
            return Ok(Slot { x: Lane::Bits64(*x), y: Lane::Bits64(*y), z: zero(), w: zero() });
        },
        Value::Vec3f(x, y, z) => if str_eq(materialx_type, "color3") || str_eq(
            materialx_type,
            "vector3",
        ) {
            return Ok(
                Slot {
                    x: Lane::Bits32(*x),
                    y: Lane::Bits32(*y),
                    z: Lane::Bits32(*z),
                    w: zero(),
                },
            );
        },
        Value::Vec3d(x, y, z) => if str_eq(materialx_type, "color3") || str_eq(
            materialx_type,
            "vector3",
        ) {
            return Ok(
                Slot {
                    x: Lane::Bits64(*x),
                    y: Lane::Bits64(*y),
                    z: Lane::Bits64(*z),
                    w: zero(),
                },
            );
        },
        Value::Vec4f(x, y, z, w) => if str_eq(materialx_type, "color4") || str_eq(
            materialx_type,
            "vector4",
        ) {
            return Ok(
                Slot {
                    x: Lane::Bits32(*x),
                    y: Lane::Bits32(*y),
                    z: Lane::Bits32(*z),
                    w: Lane::Bits32(*w),
                },
            );
        },
        Value::Vec4d(x, y, z, w) => if str_eq(materialx_type, "color4") || str_eq(
            materialx_type,
            "vector4",
        ) {
            return Ok(
                Slot {
                    x: Lane::Bits64(*x),
                    y: Lane::Bits64(*y),
                    z: Lane::Bits64(*z),
                    w: Lane::Bits64(*w),
                },
            );
        },
        _ => {},
    }
    let mut message = copy("expected MaterialX ");
    message.append(materialx_type);
    message.append(", got authored USD value ");
    message.append(authored.shown.as_str());
    Err(message)
}

fn digit(c: char) -> (r: bool)
    ensures
        r == is_digit(c),
{
    '0' <= c && c <= '9'
}

fn skip_digits(s: &Vec<char>, from: usize) -> (r: usize)
    requires
        from <= s@.len(),
    ensures
        r == digits_end(s@, from as int),
        from <= r <= s@.len(),
{
    let mut i: usize = from;
    while i < s.len() && digit(s[i])
        invariant
            from <= i <= s@.len(),
            digits_end(s@, from as int) == digits_end(s@, i as int),
        decreases s@.len() - i,
    {
        i = i + 1;
    }
    i
}

fn skip_sign(s: &Vec<char>, from: usize) -> (r: usize)
    requires
        from <= s@.len(),
    ensures
        r == sign_end(s@, from as int),
        from <= r <= s@.len(),
{
    if from < s.len() && (s[from] == '+' || s[from] == '-') {
        from + 1
    } else {
        from
    }
}

fn spells(s: &Vec<char>, from: usize, lower: &str, upper: &str) -> (r: bool)
    requires
        from <= s@.len(),
        lower@.len() == upper@.len(),
    ensures
        r == is_word(s@, from as int, lower@, upper@),
{
    let n: usize = lower.unicode_len();
    let total: usize = s.len();
    if total - from != n {
        return false;
    }
    for i in 0..n
        invariant
            total == s@.len(),
            n == lower@.len() == upper@.len(),
            s@.len() == from + n,
            forall|k: int|
                0 <= k < i ==> (#[trigger] s@[from + k]) == lower@[k] || s@[from + k] == upper@[k],
    {
        let c: char = s[from + i];
        if c != lower.get_char(i) && c != upper.get_char(i) {
            assert(s@[from + i] == c);
            return false;
        }
    }
    true
}

fn is_number_at(s: &Vec<char>, from: usize) -> (r: bool)
    requires
        from <= s@.len(),
    ensures
        r == is_number(s@, from as int),
{
    let whole: usize = skip_digits(s, from);
    let dotted = whole < s.len() && s[whole] == '.';
    let end: usize = if dotted {
        skip_digits(s, whole + 1)
    } else {
        whole
    };
    let count: usize = if dotted {
        end - from - 1
    } else {
        end - from
    };
    if count == 0 {
        return false;
    }
    if end == s.len() {
        return true;
    }
    if s[end] == 'e' || s[end] == 'E' {
        let power: usize = skip_sign(s, end + 1);
        power < s.len() && skip_digits(s, power) == s.len()
    } else {
        false
    }
}

/// Whether the text is a float literal.
pub fn float_literal(text: &str) -> (r: bool)
    ensures
        r == is_float(text@),
{
    let s = crate::text::chars_of(text);
    let from: usize = skip_sign(&s, 0);
    proof {
        reveal_strlit("inf");
        reveal_strlit("INF");
        reveal_strlit("infinity");
        reveal_strlit("INFINITY");
        reveal_strlit("nan");
        reveal_strlit("NAN");
    }
    is_number_at(&s, from) || spells(&s, from, "inf", "INF") || spells(
        &s,
        from,
        "infinity",
        "INFINITY",
    ) || spells(&s, from, "nan", "NAN")
}

fn lane_at(parts: &Vec<String>, i: usize) -> (r: Lane)
    ensures
        r@ == part_lane(views(parts@), i as int),
{
    if i < parts.len() {
        Lane::Literal(trim(parts[i].as_str()))
    } else {
        zero()
    }
}

/// The slot that a NodeDef default of the given type fills.
pub fn parse_default(materialx_type: &str, value: &str) -> (r: Result<Slot, String>)
    ensures
        slot_result(r) == default_slot(materialx_type@, value@),
{
    if str_eq(materialx_type, "boolean") {
        let word = trim(value);
        return Ok(single(truth(str_eq(word.as_str(), "true") || str_eq(word.as_str(), "1"))));
    }
    match component_count(materialx_type) {
        None => {
            let mut message = copy("MaterialX default type ");
            message.append(materialx_type);
            message.append(" is not GPU-uniform compatible");
            Err(message)
        },
        Some(expected) => {
            let parts = split(value, ',');
            let ghost all = views(parts@);
            assert(all.skip(0) =~= all);
            for i in 0..parts.len()
                invariant
                    all == views(parts@),
                    all == split_on(value@, ','),
                    materialx_type@ != "boolean"@,
                    components(materialx_type@) is Some,
                    first_bad(all) == first_bad(all.skip(i as int)),
            {
                let part = trim(parts[i].as_str());
                assert(all.skip(i as int)[0] == parts@[i as int]@);
                assert(all.skip(i as int).skip(1) =~= all.skip(i as int + 1));
                if !float_literal(part.as_str()) {
                    let mut message = copy("invalid ");
                    message.append(materialx_type);
                    message.append(" default ");
                    message.append(quote(value).as_str());
                    message.append(": ");
                    if part.as_str().unicode_len() == 0 {
                        message.append("cannot parse float from empty string");
                    } else {
                        message.append("invalid float literal");
                    }
                    return Err(message);
                }
            }
            assert(first_bad(all) is None);
            if parts.len() != expected {
                let mut message = copy(materialx_type);
                message.append(" default expects ");
                message.append(number(expected as u64).as_str());
                message.append(" component(s), got ");
                message.append(number(parts.len() as u64).as_str());
                message.append(" in ");
                message.append(quote(value).as_str());
                return Err(message);
            }
            Ok(
                Slot {
                    x: lane_at(&parts, 0),
                    y: lane_at(&parts, 1),
                    z: lane_at(&parts, 2),
                    w: lane_at(&parts, 3),
                },
            )
        },
    }
}

/// A default that fills a slot fills exactly the lanes its type has: the
/// lanes past them are zero.
pub proof fn default_fills_its_components(materialx_type: Seq<char>, value: Seq<char>)
    ensures
        default_slot(materialx_type, value) matches Ok(s) ==> {
            let n = if materialx_type == "boolean"@ {
                1
            } else {
                components(materialx_type)->0
            };
            (n <= 1 ==> s.y == zero_lane()) && (n <= 2 ==> s.z == zero_lane()) && (n <= 3 ==> s.w
                == zero_lane())
        },
{
}

} // verus!
