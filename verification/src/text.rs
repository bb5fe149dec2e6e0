//! Plain text: comparison, searching, splitting and number printing over
//! sequences of characters.

use vstd::prelude::*;
use vstd::string::*;

verus! {

/// The characters of a list of strings.
pub open spec fn views(list: Seq<String>) -> Seq<Seq<char>> {
    list.map_values(|s: String| s@)
}

/// The characters of an optional string.
pub open spec fn opt_view(value: Option<String>) -> Option<Seq<char>> {
    match value {
        Some(s) => Some(s@),
        None => None,
    }
}

/// `a` comes before `b` when characters are compared by code point, and a
/// proper prefix comes first.
pub open spec fn text_less(a: Seq<char>, b: Seq<char>) -> bool
    decreases a.len(),
{
    if b.len() == 0 {
        false
    } else if a.len() == 0 {
        true
    } else if a[0] != b[0] {
        a[0] < b[0]
    } else {
        text_less(a.skip(1), b.skip(1))
    }
}

/// `needle` stands in `text` at `at`.
pub open spec fn occurs_at(text: Seq<char>, needle: Seq<char>, at: int) -> bool {
    0 <= at && at + needle.len() <= text.len() && text.subrange(at, at + needle.len()) == needle
}

/// `needle` stands somewhere in `text`.
pub open spec fn occurs(text: Seq<char>, needle: Seq<char>) -> bool {
    exists|at: int| occurs_at(text, needle, at)
}

/// The decimal digit of `d`.
pub open spec fn digit_char(d: nat) -> char {
    if d == 0 {
        '0'
    } else if d == 1 {
        '1'
    } else if d == 2 {
        '2'
    } else if d == 3 {
        '3'
    } else if d == 4 {
        '4'
    } else if d == 5 {
        '5'
    } else if d == 6 {
        '6'
    } else if d == 7 {
        '7'
    } else if d == 8 {
        '8'
    } else {
        '9'
    }
}

/// The decimal numeral of `n`, without leading zeros.
pub open spec fn decimal(n: nat) -> Seq<char>
    decreases n,
{
    if n < 10 {
        seq![digit_char(n)]
    } else {
        decimal(n / 10).push(digit_char(n % 10))
    }
}

/// The value that a numeral stands for.
pub open spec fn numeral_value(digits: Seq<char>) -> nat
    decreases digits.len(),
{
    if digits.len() == 0 {
        0
    } else {
        numeral_value(digits.drop_last()) * 10 + digit_value(digits.last())
    }
}

/// The value of one decimal digit.
pub open spec fn digit_value(c: char) -> nat {
    if c == '1' {
        1
    } else if c == '2' {
        2
    } else if c == '3' {
        3
    } else if c == '4' {
        4
    } else if c == '5' {
        5
    } else if c == '6' {
        6
    } else if c == '7' {
        7
    } else if c == '8' {
        8
    } else if c == '9' {
        9
    } else {
        0
    }
}

/// Reading a printed number gives the number back.
pub proof fn decimal_reads_back(n: nat)
    ensures
        numeral_value(decimal(n)) == n,
    decreases n,
{
    reveal_with_fuel(numeral_value, 2);
    if n < 10 {
        assert(decimal(n).drop_last() =~= Seq::<char>::empty());
    } else {
        decimal_reads_back(n / 10);
        assert(decimal(n).drop_last() =~= decimal(n / 10));
    }
}

/// Two different numbers print differently.
pub proof fn decimal_is_injective(a: nat, b: nat)
    requires
        decimal(a) == decimal(b),
    ensures
        a == b,
{
    decimal_reads_back(a);
    decimal_reads_back(b);
}

/// White space as Unicode defines it.
pub open spec fn is_space(c: char) -> bool {
    let n = c as u32;
    ||| 0x9 <= n <= 0xd
    ||| n == 0x20
    ||| n == 0x85
    ||| n == 0xa0
    ||| n == 0x1680
    ||| 0x2000 <= n <= 0x200a
    ||| n == 0x2028
    ||| n == 0x2029
    ||| n == 0x202f
    ||| n == 0x205f
    ||| n == 0x3000
}

/// `text` without the white space at its start.
pub open spec fn trim_front(text: Seq<char>) -> Seq<char>
    decreases text.len(),
{
    if text.len() > 0 && is_space(text[0]) {
        trim_front(text.skip(1))
    } else {
        text
    }
}

/// `text` without the white space at its end.
pub open spec fn trim_back(text: Seq<char>) -> Seq<char>
    decreases text.len(),
{
    if text.len() > 0 && is_space(text.last()) {
        trim_back(text.drop_last())
    } else {
        text
    }
}

/// `text` without the white space around it.
pub open spec fn trimmed(text: Seq<char>) -> Seq<char> {
    trim_back(trim_front(text))
}

/// The pieces of `text` between occurrences of `sep`; always at least one.
pub open spec fn split_on(text: Seq<char>, sep: char) -> Seq<Seq<char>>
    decreases text.len(),
{
    if text.len() == 0 {
        seq![Seq::<char>::empty()]
    } else {
        let rest = split_on(text.drop_last(), sep);
        if text.last() == sep {
            rest.push(Seq::<char>::empty())
        } else {
            rest.drop_last().push(rest.last().push(text.last()))
        }
    }
}

/// A text without the separator is one piece.
pub proof fn unsplit(text: Seq<char>, sep: char)
    requires
        !text.contains(sep),
    ensures
        split_on(text, sep) == seq![text],
    decreases text.len(),
{
    if text.len() > 0 {
        let rest = text.drop_last();
        assert(text[text.len() - 1] != sep);
        assert forall|i: int| 0 <= i < rest.len() implies rest[i] != sep by {
            assert(text[i] != sep);
        }
        unsplit(rest, sep);
        assert(rest.push(text.last()) =~= text);
        assert(split_on(text, sep) =~= seq![text]);
    } else {
        assert(text =~= Seq::<char>::empty());
    }
}

/// A text splits at its last separator.
pub proof fn splits_at_last(text: Seq<char>, sep: char, place: int)
    requires
        0 <= place < text.len(),
        text[place] == sep,
        !text.skip(place + 1).contains(sep),
    ensures
        split_on(text, sep) == split_on(text.take(place), sep).push(text.skip(place + 1)),
    decreases text.len(),
{
    let rest = text.drop_last();
    let head = split_on(text.take(place), sep);
    if place == text.len() - 1 {
        assert(rest =~= text.take(place));
        assert(text.skip(place + 1) =~= Seq::<char>::empty());
    } else {
        let tail = text.skip(place + 1);
        assert(tail[tail.len() - 1] != sep);
        assert(rest.take(place) =~= text.take(place));
        assert(rest.skip(place + 1) =~= tail.drop_last());
        let less = rest.skip(place + 1);
        assert forall|i: int| 0 <= i < less.len() implies less[i] != sep by {
            assert(tail[i] != sep);
        }
        splits_at_last(rest, sep, place);
        assert(tail.drop_last().push(text.last()) =~= tail);
        assert(split_on(text, sep) =~= head.push(tail));
    }
}

/// The pieces joined with `sep` between neighbours.
pub open spec fn join(parts: Seq<Seq<char>>, sep: Seq<char>) -> Seq<char>
    decreases parts.len(),
{
    if parts.len() == 0 {
        Seq::empty()
    } else if parts.len() == 1 {
        parts[0]
    } else {
        join(parts.drop_last(), sep) + sep + parts.last()
    }
}

/// `text` after every leading copy of `prefix` is taken off.
pub open spec fn without_leading(text: Seq<char>, prefix: Seq<char>) -> Seq<char>
    decreases text.len(),
{
    if prefix.len() > 0 && prefix.is_prefix_of(text) {
        without_leading(text.skip(prefix.len() as int), prefix)
    } else {
        text
    }
}

/// The text as `{:?}` prints it: in double quotes, with escapes.
pub uninterp spec fn quoted(text: Seq<char>) -> Seq<char>;

/// `format!` with `{:?}` on a `str`. Which characters std escapes is left to
/// the name.
#[verifier::external_body]
pub(crate) fn quote(text: &str) -> (r: String)
    ensures
        r@ == quoted(text@),
{
    format!("{text:?}")
}

/// Whether two texts hold the same characters.
pub fn str_eq(a: &str, b: &str) -> (r: bool)
    ensures
        r == (a@ == b@),
{
    a.to_owned() == b.to_owned()
}

/// A copy of the text.
pub fn copy(s: &str) -> (r: String)
    ensures
        r@ == s@,
{
    s.to_owned()
}

/// A copy of each text.
pub fn copy_all(list: &Vec<String>) -> (r: Vec<String>)
    ensures
        views(r@) == views(list@),
{
    let mut out: Vec<String> = Vec::new();
    for i in 0..list.len()
        invariant
            out@.len() == i,
            forall|k: int| 0 <= k < i ==> (#[trigger] out@[k])@ == list@[k]@,
    {
        out.push(copy(list[i].as_str()));
    }
    assert(views(out@) =~= views(list@));
    out
}

/// A copy of an optional text.
pub fn copy_opt(value: &Option<String>) -> (r: Option<String>)
    ensures
        opt_view(r) == opt_view(*value),
{
    match value {
        Some(s) => Some(copy(s.as_str())),
        None => None,
    }
}

/// The two texts, one after the other.
pub fn cat(a: &str, b: &str) -> (r: String)
    ensures
        r@ == a@ + b@,
{
    let mut out = a.to_owned();
    out.append(b);
    out
}

/// The characters of a text.
pub fn chars_of(s: &str) -> (r: Vec<char>)
    ensures
        r@ == s@,
{
    let n: usize = s.unicode_len();
    let mut out: Vec<char> = Vec::new();
    for i in 0..n
        invariant
            n == s@.len(),
            out@ == s@.take(i as int),
    {
        out.push(s.get_char(i));
        assert(s@.take(i as int + 1) =~= s@.take(i as int).push(s@[i as int]));
    }
    assert(s@.take(n as int) =~= s@);
    out
}

/// Whether `text` starts with `prefix`.
pub fn starts_with(text: &str, prefix: &str) -> (r: bool)
    ensures
        r == prefix@.is_prefix_of(text@),
{
    let n: usize = text.unicode_len();
    let k: usize = prefix.unicode_len();
    if k > n {
        return false;
    }
    let head = text.substring_char(0, k);
    str_eq(head, prefix)
}

/// Whether `text` ends with `suffix`.
pub fn ends_with(text: &str, suffix: &str) -> (r: bool)
    ensures
        r == suffix@.is_suffix_of(text@),
{
    let n: usize = text.unicode_len();
    let k: usize = suffix.unicode_len();
    if k > n {
        return false;
    }
    let tail = text.substring_char(n - k, n);
    str_eq(tail, suffix)
}

/// Whether `needle` stands somewhere in `text`.
pub fn contains(text: &str, needle: &str) -> (r: bool)
    ensures
        r == occurs(text@, needle@),
{
    let n: usize = text.unicode_len();
    let k: usize = needle.unicode_len();
    if k > n {
        assert(forall|at: int| !occurs_at(text@, needle@, at));
        return false;
    }
    for i in 0..(n - k)
        invariant
            n == text@.len(),
            k == needle@.len(),
            k <= n,
            forall|at: int| 0 <= at < i ==> !occurs_at(text@, needle@, at),
    {
        if str_eq(text.substring_char(i, i + k), needle) {
            assert(occurs_at(text@, needle@, i as int));
            return true;
        }
    }
    let last = str_eq(text.substring_char(n - k, n), needle);
    assert(last == occurs_at(text@, needle@, n - k));
    last
}

/// Whether `a` comes before `b` by code point.
pub fn less(a: &str, b: &str) -> (r: bool)
    ensures
        r == text_less(a@, b@),
{
    let n: usize = a.unicode_len();
    let m: usize = b.unicode_len();
    let mut i: usize = 0;
    assert(a@.skip(0) =~= a@);
    assert(b@.skip(0) =~= b@);
    while i < n && i < m
        invariant
            n == a@.len(),
            m == b@.len(),
            i <= n,
            i <= m,
            text_less(a@, b@) == text_less(a@.skip(i as int), b@.skip(i as int)),
        decreases n - i,
    {
        let x: char = a.get_char(i);
        let y: char = b.get_char(i);
        if x != y {
            return x < y;
        }
        assert(a@.skip(i as int).skip(1) =~= a@.skip(i as int + 1));
        assert(b@.skip(i as int).skip(1) =~= b@.skip(i as int + 1));
        i = i + 1;
    }
    i < m
}

/// The decimal numeral of `n`.
pub fn number(n: u64) -> (r: String)
    ensures
        r@ == decimal(n as nat),
    decreases n,
{
    let d: u64 = n % 10;
    let last = if d == 0 {
        "0"
    } else if d == 1 {
        "1"
    } else if d == 2 {
        "2"
    } else if d == 3 {
        "3"
    } else if d == 4 {
        "4"
    } else if d == 5 {
        "5"
    } else if d == 6 {
        "6"
    } else if d == 7 {
        "7"
    } else if d == 8 {
        "8"
    } else {
        "9"
    };
    proof {
        reveal_strlit("0");
        reveal_strlit("1");
        reveal_strlit("2");
        reveal_strlit("3");
        reveal_strlit("4");
        reveal_strlit("5");
        reveal_strlit("6");
        reveal_strlit("7");
        reveal_strlit("8");
        reveal_strlit("9");
    }
    assert(last@ =~= seq![digit_char(d as nat)]);
    if n < 10 {
        copy(last)
    } else {
        let head = number(n / 10);
        let out = cat(head.as_str(), last);
        assert(out@ =~= decimal((n / 10) as nat).push(digit_char(d as nat)));
        out
    }
}

/// Whether the character is white space.
pub fn space(c: char) -> (r: bool)
    ensures
        r == is_space(c),
{
    let n: u32 = c as u32;
    (0x9 <= n && n <= 0xd) || n == 0x20 || n == 0x85 || n == 0xa0 || n == 0x1680 || (0x2000 <= n
        && n <= 0x200a) || n == 0x2028 || n == 0x2029 || n == 0x202f || n == 0x205f || n == 0x3000
}

/// The text without the white space around it.
pub fn trim(text: &str) -> (r: String)
    ensures
        r@ == trimmed(text@),
{
    let n: usize = text.unicode_len();
    let mut i: usize = 0;
    assert(text@.skip(0) =~= text@);
    while i < n && space(text.get_char(i))
        invariant
            n == text@.len(),
            i <= n,
            trim_front(text@) == trim_front(text@.skip(i as int)),
        decreases n - i,
    {
        assert(text@.skip(i as int).skip(1) =~= text@.skip(i as int + 1));
        i = i + 1;
    }
    let mut j: usize = n;
    assert(text@.skip(i as int) =~= text@.subrange(i as int, n as int));
    while j > i && space(text.get_char(j - 1))
        invariant
            n == text@.len(),
            i <= j <= n,
            trim_front(text@) == text@.skip(i as int),
            trim_back(text@.skip(i as int)) == trim_back(text@.subrange(i as int, j as int)),
        decreases j,
    {
        assert(text@.subrange(i as int, j as int).drop_last() =~= text@.subrange(
            i as int,
            j as int - 1,
        ));
        j = j - 1;
    }
    text.substring_char(i, j).to_owned()
}

/// The pieces of the text between occurrences of `sep`.
pub fn split(text: &str, sep: char) -> (r: Vec<String>)
    ensures
        views(r@) == split_on(text@, sep),
        r@.len() >= 1,
{
    let n: usize = text.unicode_len();
    let mut out: Vec<String> = Vec::new();
    let mut start: usize = 0;
    assert(text@.take(0) =~= Seq::<char>::empty());
    assert(split_on(text@.take(0), sep) =~= seq![Seq::<char>::empty()]);
    for i in 0..n
        invariant
            n == text@.len(),
            start <= i <= n,
            views(out@).push(text@.subrange(start as int, i as int)) == split_on(
                text@.take(i as int),
                sep,
            ),
    {
        let c: char = text.get_char(i);
        let ghost before = split_on(text@.take(i as int), sep);
        assert(text@.take(i as int + 1).drop_last() =~= text@.take(i as int));
        if c == sep {
            out.push(text.substring_char(start, i).to_owned());
            start = i + 1;
            assert(views(out@) =~= before);
            assert(text@.subrange(start as int, i as int + 1) =~= Seq::<char>::empty());
        } else {
            assert(before.drop_last() =~= views(out@));
            assert(text@.subrange(start as int, i as int + 1) =~= text@.subrange(
                start as int,
                i as int,
            ).push(c));
        }
    }
    out.push(text.substring_char(start, n).to_owned());
    assert(text@.take(n as int) =~= text@);
    assert(views(out@) =~= split_on(text@, sep));
    assert(views(out@).len() == out@.len());
    out
}

/// The text after every leading copy of `prefix` is taken off.
pub fn strip_leading(text: &str, prefix: &str) -> (r: String)
    ensures
        r@ == without_leading(text@, prefix@),
{
    let n: usize = text.unicode_len();
    let k: usize = prefix.unicode_len();
    if k == 0 {
        return copy(text);
    }
    let mut i: usize = 0;
    assert(text@.skip(0) =~= text@);
    while k <= n && i <= n - k
        invariant
            n == text@.len(),
            k == prefix@.len(),
            k > 0,
            i <= n,
            without_leading(text@, prefix@) == without_leading(text@.skip(i as int), prefix@),
        ensures
            !prefix@.is_prefix_of(text@.skip(i as int)),
        decreases n - i,
    {
        if !str_eq(text.substring_char(i, i + k), prefix) {
            assert(text@.subrange(i as int, i + k) =~= text@.skip(i as int).subrange(0, k as int));
            break;
        }
        assert(text@.subrange(i as int, i + k) =~= text@.skip(i as int).subrange(0, k as int));
        assert(text@.skip(i as int).skip(k as int) =~= text@.skip(i + k));
        i = i + k;
    }
    let out = text.substring_char(i, n).to_owned();
    assert(out@ =~= text@.skip(i as int));
    out
}

/// The two characters are the same up to the case of an ASCII letter.
pub open spec fn same_letter(a: char, b: char) -> bool {
    ||| a == b
    ||| ('A' <= a && a <= 'Z' && b as u32 == a as u32 + 32)
    ||| ('A' <= b && b <= 'Z' && a as u32 == b as u32 + 32)
}

/// The two texts are the same up to the case of ASCII letters.
pub open spec fn same_ignoring_case(a: Seq<char>, b: Seq<char>) -> bool {
    a.len() == b.len() && forall|i: int| 0 <= i < a.len() ==> same_letter(#[trigger] a[i], b[i])
}

proof fn letters_agree(x: char, y: char, z: char)
    requires
        same_letter(x, y),
        same_letter(x, z),
    ensures
        same_letter(y, z),
        same_letter(y, x),
{
    assert((y as u32) == (z as u32) ==> y == z);
}

/// Texts that are the same up to case are the same as any third text up to
/// case.
pub proof fn case_does_not_matter(a: Seq<char>, b: Seq<char>, word: Seq<char>)
    requires
        same_ignoring_case(a, b),
    ensures
        same_ignoring_case(a, word) == same_ignoring_case(b, word),
{
    if same_ignoring_case(a, word) {
        assert forall|i: int| 0 <= i < b.len() implies same_letter(#[trigger] b[i], word[i]) by {
            assert(same_letter(a[i], word[i]));
            letters_agree(a[i], b[i], word[i]);
        }
    }
    if same_ignoring_case(b, word) {
        assert forall|i: int| 0 <= i < a.len() implies same_letter(#[trigger] a[i], word[i]) by {
            assert(same_letter(b[i], word[i]));
            letters_agree(a[i], b[i], a[i]);
            letters_agree(b[i], a[i], word[i]);
        }
    }
}

/// Whether the two texts are the same up to the case of ASCII letters.
pub fn eq_ignore_case(a: &str, b: &str) -> (r: bool)
    ensures
        r == same_ignoring_case(a@, b@),
{
    let n: usize = a.unicode_len();
    if n != b.unicode_len() {
        return false;
    }
    for i in 0..n
        invariant
            n == a@.len() == b@.len(),
            forall|k: int| 0 <= k < i ==> same_letter(#[trigger] a@[k], b@[k]),
    {
        let x: char = a.get_char(i);
        let y: char = b.get_char(i);
        let m: u32 = x as u32;
        let k: u32 = y as u32;
        if !(x == y || ('A' <= x && x <= 'Z' && k == m + 32) || ('A' <= y && y <= 'Z' && m == k
            + 32)) {
            assert(!same_letter(a@[i as int], b@[i as int]));
            return false;
        }
    }
    true
}

/// The last place of `c` in `text`, or -1.
pub open spec fn last_place(text: Seq<char>, c: char) -> int
    decreases text.len(),
{
    if text.len() == 0 {
        -1
    } else if text.last() == c {
        text.len() - 1
    } else {
        last_place(text.drop_last(), c)
    }
}

/// How many characters stand up to and with the last `c`; zero without one.
pub fn after_last(text: &str, c: char) -> (r: usize)
    ensures
        r == last_place(text@, c) + 1,
        r <= text@.len(),
{
    let n: usize = text.unicode_len();
    let mut i: usize = n;
    assert(text@.take(n as int) =~= text@);
    while i > 0 && text.get_char(i - 1) != c
        invariant
            n == text@.len(),
            i <= n,
            last_place(text@, c) == last_place(text@.take(i as int), c),
        decreases i,
    {
        assert(text@.take(i as int).drop_last() =~= text@.take(i - 1));
        i = i - 1;
    }
    i
}

/// The hexadecimal digit of `d`.
pub open spec fn hex_char(d: nat) -> char {
    if d < 10 {
        digit_char(d)
    } else if d == 10 {
        'a'
    } else if d == 11 {
        'b'
    } else if d == 12 {
        'c'
    } else if d == 13 {
        'd'
    } else if d == 14 {
        'e'
    } else {
        'f'
    }
}

/// The last `width` hexadecimal digits of `n`, with leading zeros.
pub open spec fn hex(n: nat, width: nat) -> Seq<char>
    decreases width,
{
    if width == 0 {
        Seq::empty()
    } else {
        hex(n / 16, (width - 1) as nat).push(hex_char(n % 16))
    }
}

/// The last `width` hexadecimal digits of `n`.
pub fn hex_number(n: u64, width: usize) -> (r: String)
    ensures
        r@ == hex(n as nat, width as nat),
    decreases width,
{
    if width == 0 {
        let out = String::new();
        assert(out@ =~= Seq::<char>::empty());
        return out;
    }
    let head = hex_number(n / 16, width - 1);
    let d: u64 = n % 16;
    let last = if d < 10 {
        number(d)
    } else if d == 10 {
        copy("a")
    } else if d == 11 {
        copy("b")
    } else if d == 12 {
        copy("c")
    } else if d == 13 {
        copy("d")
    } else if d == 14 {
        copy("e")
    } else {
        copy("f")
    };
    proof {
        reveal_strlit("a");
        reveal_strlit("b");
        reveal_strlit("c");
        reveal_strlit("d");
        reveal_strlit("e");
        reveal_strlit("f");
    }
    assert(last@ =~= seq![hex_char(d as nat)]);
    let out = cat(head.as_str(), last.as_str());
    assert(out@ =~= hex((n / 16) as nat, (width - 1) as nat).push(hex_char(d as nat)));
    out
}

/// The text as `str::to_lowercase` gives it.
pub uninterp spec fn lowered(text: Seq<char>) -> Seq<char>;

/// `str::to_lowercase`: the lowercase equivalent by Unicode's rules, which are
/// left to the name.
#[verifier::external_body]
pub(crate) fn lowercase(text: &str) -> (r: String)
    ensures
        r@ == lowered(text@),
{
    text.to_lowercase()
}

} // verus!
