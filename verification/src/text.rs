//! Text: building strings, decimal numbers, blank text.

use vstd::prelude::*;
use vstd::std_specs::iter::IteratorSpec;
use vstd::string::StringExecFns;

verus! {

broadcast use vstd::string::next_postcondition, vstd::string::axiom_spec_iter;

/// `String::push` of std: the character is appended.
pub assume_specification[ String::push ](s: &mut String, c: char)
    ensures
        final(s)@ == old(s)@.push(c),
;

/// `char::is_whitespace` of std: whether the character has the Unicode property
/// `White_Space`.
pub assume_specification[ char::is_whitespace ](c: char) -> (r: bool)
    ensures
        r == white_space(c),
;

/// The characters with the Unicode property `White_Space`.
pub open spec fn white_space(c: char) -> bool {
    let u = c as u32;
    ||| 0x09 <= u <= 0x0d
    ||| u == 0x20
    ||| u == 0x85
    ||| u == 0xa0
    ||| u == 0x1680
    ||| 0x2000 <= u <= 0x200a
    ||| u == 0x2028
    ||| u == 0x2029
    ||| u == 0x202f
    ||| u == 0x205f
    ||| u == 0x3000
}

/// Nothing but white space.
pub open spec fn blank(s: Seq<char>) -> bool {
    forall|i: int| 0 <= i < s.len() ==> white_space(#[trigger] s[i])
}

/// The digit for a number below ten.
pub open spec fn digit(d: int) -> char {
    seq!['0', '1', '2', '3', '4', '5', '6', '7', '8', '9'][d]
}

/// A number in decimal notation.
pub open spec fn decimal(n: nat) -> Seq<char>
    decreases n,
{
    if n < 10 {
        seq![digit(n as int)]
    } else {
        decimal(n / 10).push(digit((n % 10) as int))
    }
}

/// The characters of a text.
pub fn chars_of(s: &str) -> (v: Vec<char>)
    ensures
        v@ == s@,
{
    let mut v: Vec<char> = Vec::new();
    let mut it = s.chars();
    loop
        invariant
            it.obeys_prophetic_iter_laws(),
            it.decrease() is Some,
            v@ + it.remaining() == s@,
        ensures
            v@ == s@,
        decreases it.decrease()->0,
    {
        let ghost before = v@;
        let ghost rest = it.remaining();
        match it.next() {
            Some(c) => {
                v.push(c);
                proof {
                    assert(v@ + it.remaining() =~= before + rest);
                }
            },
            None => {
                proof {
                    assert(rest.len() == 0);
                    assert(before + rest =~= before);
                }
                break ;
            },
        }
    }
    v
}

/// The text with these characters.
pub fn text_of(chars: &[char]) -> (s: String)
    ensures
        s@ == chars@,
{
    let mut s: String = String::new();
    let mut i: usize = 0;
    proof {
        assert(s@ =~= chars@.take(0));
    }
    while i < chars.len()
        invariant
            i <= chars@.len(),
            s@ == chars@.take(i as int),
        decreases chars@.len() - i,
    {
        s.push(chars[i]);
        i += 1;
        proof {
            assert(s@ =~= chars@.take(i as int));
        }
    }
    proof {
        assert(chars@.take(i as int) =~= chars@);
    }
    s
}

/// Whether the text is empty or white space only.
pub fn is_blank(s: &str) -> (r: bool)
    ensures
        r == blank(s@),
{
    let v = chars_of(s);
    let mut i: usize = 0;
    while i < v.len()
        invariant
            i <= v@.len(),
            v@ == s@,
            forall|j: int| 0 <= j < i ==> white_space(#[trigger] v@[j]),
        decreases v@.len() - i,
    {
        if !v[i].is_whitespace() {
            return false;
        }
        i += 1;
    }
    true
}

fn digit_char(d: u64) -> (c: char)
    requires
        d < 10,
    ensures
        c == digit(d as int),
{
    match d {
        0 => '0',
        1 => '1',
        2 => '2',
        3 => '3',
        4 => '4',
        5 => '5',
        6 => '6',
        7 => '7',
        8 => '8',
        _ => '9',
    }
}

/// The number in decimal notation.
pub fn decimal_text(n: u64) -> (s: String)
    ensures
        s@ == decimal(n as nat),
    decreases n,
{
    if n < 10 {
        let mut s: String = String::new();
        s.push(digit_char(n));
        proof {
            assert(s@ =~= decimal(n as nat));
        }
        s
    } else {
        let mut s: String = decimal_text(n / 10);
        s.push(digit_char(n % 10));
        s
    }
}

/// One text after the other.
pub fn join(a: &str, b: &str) -> (s: String)
    ensures
        s@ == a@ + b@,
{
    a.to_owned().concat(b)
}

/// Three texts, one after the other.
pub fn join3(a: &str, b: &str, c: &str) -> (s: String)
    ensures
        s@ == a@ + b@ + c@,
{
    a.to_owned().concat(b).concat(c)
}

/// The digit that a character stands for.
pub open spec fn digit_value(c: char) -> Option<nat> {
    if '0' <= c <= '9' {
        Some((c as nat - '0' as nat) as nat)
    } else {
        None
    }
}

/// The number that digits write; `None` for another character among them.
pub open spec fn digits_value(s: Seq<char>) -> Option<nat>
    decreases s.len(),
{
    if s.len() == 0 {
        Some(0)
    } else {
        match (digits_value(s.drop_last()), digit_value(s.last())) {
            (Some(n), Some(d)) => Some(10 * n + d),
            _ => None,
        }
    }
}

/// The text without a leading plus sign.
pub open spec fn after_sign(s: Seq<char>) -> Seq<char> {
    if s.len() > 0 && s[0] == '+' {
        s.skip(1)
    } else {
        s
    }
}

/// The number that a text holds: digits, at least one, after an optional plus
/// sign, and no more than a `u64` can hold.
pub open spec fn number(s: Seq<char>) -> Option<u64> {
    let digits = after_sign(s);
    match digits_value(digits) {
        Some(n) if digits.len() > 0 && n <= u64::MAX => Some(n as u64),
        _ => None,
    }
}

/// Reads a number.
pub fn parse_number(s: &str) -> (r: Option<u64>)
    ensures
        r == number(s@),
{
    let v = chars_of(s);
    let start: usize = if v.len() > 0 && v[0] == '+' {
        1
    } else {
        0
    };
    let ghost digits = after_sign(s@);
    proof {
        assert(digits =~= s@.skip(start as int));
    }
    if v.len() == start {
        return None;
    }
    let mut n: u64 = 0;
    let mut i: usize = start;
    proof {
        assert(digits.take(0) =~= Seq::<char>::empty());
    }
    while i < v.len()
        invariant
            v@ == s@,
            start <= i <= v@.len(),
            digits == after_sign(s@),
            digits == s@.skip(start as int),
            digits_value(digits.take(i - start)) == Some(n as nat),
        decreases v@.len() - i,
    {
        let c: char = v[i];
        proof {
            assert(digits.take(i - start + 1).drop_last() =~= digits.take(i - start));
            assert(digits.take(i - start + 1).last() == c);
            digits_grow(digits, i - start + 1);
        }
        if !('0' <= c && c <= '9') {
            return None;
        }
        let d: u64 = (c as u32 - '0' as u32) as u64;
        if n > (u64::MAX - d) / 10 {
            return None;
        }
        n = 10 * n + d;
        i += 1;
    }
    proof {
        assert(digits.take(i - start) =~= digits);
    }
    Some(n)
}

proof fn digits_grow(s: Seq<char>, n: int)
    requires
        0 <= n <= s.len(),
    ensures
        digits_value(s.take(n)) is None ==> digits_value(s) is None,
        digits_value(s) matches Some(v) ==> (digits_value(s.take(n)) matches Some(u) && u <= v),
    decreases s.len() - n,
{
    if n == s.len() {
        assert(s.take(n) =~= s);
    } else {
        digits_grow(s, n + 1);
        assert(s.take(n + 1).drop_last() =~= s.take(n));
    }
}

/// Reading what was written gives the number back.
pub proof fn numbers_read_back(n: u64)
    ensures
        number(decimal(n as nat)) == Some(n),
{
    decimal_value(n as nat);
    decimal_is_not_empty(n as nat);
    decimal_starts_with_digit(n as nat);
}

proof fn decimal_starts_with_digit(n: nat)
    ensures
        decimal(n).len() >= 1,
        decimal(n)[0] != '+',
    decreases n,
{
    if n >= 10 {
        decimal_starts_with_digit(n / 10);
    }
}

proof fn decimal_value(n: nat)
    ensures
        digits_value(decimal(n)) == Some(n),
    decreases n,
{
    let d = (n % 10) as int;
    assert(digit_value(digit(d)) == Some(d as nat));
    if n < 10 {
        assert(decimal(n).drop_last() =~= Seq::<char>::empty());
        assert(digits_value(Seq::<char>::empty()) == Some(0nat));
    } else {
        assert(decimal(n).drop_last() =~= decimal(n / 10));
        decimal_value(n / 10);
    }
}

/// `char::is_control` of std: whether the character is a control code, in the
/// Unicode category `Cc`.
pub assume_specification[ char::is_control ](c: char) -> (r: bool)
    ensures
        r == control(c),
;

/// The characters of the Unicode category `Cc`.
pub open spec fn control(c: char) -> bool {
    let u = c as u32;
    u <= 0x1f || 0x7f <= u <= 0x9f
}

/// What can be taken off the ends of a text.
#[derive(Clone, Copy, PartialEq, Eq, Structural)]
pub enum Edge {
    WhiteSpace,
    WhiteSpaceAndDots,
}

/// Whether the character is taken off.
pub open spec fn strips(edge: Edge, c: char) -> bool {
    match edge {
        Edge::WhiteSpace => white_space(c),
        Edge::WhiteSpaceAndDots => white_space(c) || c == '.',
    }
}

/// The text without what is taken off at its start.
pub open spec fn strip_start(s: Seq<char>, edge: Edge) -> Seq<char>
    decreases s.len(),
{
    if s.len() > 0 && strips(edge, s[0]) {
        strip_start(s.skip(1), edge)
    } else {
        s
    }
}

/// The text without what is taken off at its end.
pub open spec fn strip_end(s: Seq<char>, edge: Edge) -> Seq<char>
    decreases s.len(),
{
    if s.len() > 0 && strips(edge, s.last()) {
        strip_end(s.drop_last(), edge)
    } else {
        s
    }
}

/// The text without what is taken off at either end.
pub open spec fn strip(s: Seq<char>, edge: Edge) -> Seq<char> {
    strip_end(strip_start(s, edge), edge)
}

fn stripped(c: char, edge: Edge) -> (r: bool)
    ensures
        r == strips(edge, c),
{
    match edge {
        Edge::WhiteSpace => c.is_whitespace(),
        Edge::WhiteSpaceAndDots => c.is_whitespace() || c == '.',
    }
}

/// Takes what an edge strips off both ends.
pub fn strip_ends(v: &[char], edge: Edge) -> (out: Vec<char>)
    ensures
        out@ == strip(v@, edge),
{
    let mut from: usize = 0;
    proof {
        assert(v@.skip(0) =~= v@);
    }
    while from < v.len() && stripped(v[from], edge)
        invariant
            from <= v@.len(),
            strip_start(v@, edge) == strip_start(v@.skip(from as int), edge),
        decreases v@.len() - from,
    {
        proof {
            assert(v@.skip(from as int).skip(1) =~= v@.skip(from + 1));
        }
        from += 1;
    }
    let mut to: usize = v.len();
    let ghost rest = v@.skip(from as int);
    proof {
        assert(strip_start(v@, edge) == rest);
        assert(v@.subrange(from as int, to as int) =~= rest);
    }
    while to > from && stripped(v[to - 1], edge)
        invariant
            from <= to <= v@.len(),
            strip_end(rest, edge) == strip_end(v@.subrange(from as int, to as int), edge),
        decreases to - from,
    {
        proof {
            assert(v@.subrange(from as int, to as int).drop_last() =~= v@.subrange(
                from as int,
                to - 1,
            ));
        }
        to -= 1;
    }
    let mut out: Vec<char> = Vec::new();
    let mut i: usize = from;
    while i < to
        invariant
            from <= i <= to <= v@.len(),
            out@ == v@.subrange(from as int, i as int),
        decreases to - i,
    {
        out.push(v[i]);
        i += 1;
        proof {
            assert(out@ =~= v@.subrange(from as int, i as int));
        }
    }
    proof {
        assert(out@ == v@.subrange(from as int, to as int));
    }
    out
}

/// What is left after taking off the ends is part of the text, and neither
/// starts nor ends with what was taken off.
pub proof fn strip_leaves_a_part(s: Seq<char>, edge: Edge)
    ensures
        strip(s, edge).len() > 0 ==> !strips(edge, strip(s, edge)[0]) && !strips(
            edge,
            strip(s, edge).last(),
        ),
        forall|i: int| 0 <= i < strip(s, edge).len() ==> s.contains(#[trigger] strip(s, edge)[i]),
{
    let t = strip_start(s, edge);
    strip_start_leaves_a_part(s, edge);
    strip_end_leaves_a_part(t, edge);
    let u = strip(s, edge);
    assert forall|i: int| 0 <= i < u.len() implies s.contains(#[trigger] u[i]) by {
        assert(t[i] == u[i]);
        assert(s.contains(t[i]));
    }
}

proof fn strip_start_leaves_a_part(s: Seq<char>, edge: Edge)
    ensures
        strip_start(s, edge).len() > 0 ==> !strips(edge, strip_start(s, edge)[0]),
        forall|i: int|
            0 <= i < strip_start(s, edge).len() ==> s.contains(#[trigger] strip_start(s, edge)[i]),
    decreases s.len(),
{
    let t = strip_start(s, edge);
    if s.len() > 0 && strips(edge, s[0]) {
        let r = s.skip(1);
        strip_start_leaves_a_part(r, edge);
        assert forall|i: int| 0 <= i < t.len() implies s.contains(#[trigger] t[i]) by {
            assert(r.contains(t[i]));
            let k = r.index_of(t[i]);
            assert(s[k + 1] == t[i]);
        }
    }
}

proof fn strip_end_leaves_a_part(s: Seq<char>, edge: Edge)
    ensures
        strip_end(s, edge).len() > 0 ==> !strips(edge, strip_end(s, edge).last()),
        strip_end(s, edge).len() <= s.len(),
        strip_end(s, edge) == s.take(strip_end(s, edge).len() as int),
    decreases s.len(),
{
    if s.len() > 0 && strips(edge, s.last()) {
        let r = s.drop_last();
        strip_end_leaves_a_part(r, edge);
        let n = strip_end(r, edge).len() as int;
        assert(r.take(n) =~= s.take(n));
    } else {
        assert(s.take(s.len() as int) =~= s);
    }
}

/// Whether the text ends with `.json` and has a name before it.
pub open spec fn names_json(s: Seq<char>) -> bool {
    s.len() > 5 && s.skip(s.len() - 5) == ".json"@
}

/// Whether a file of this name holds JSON, by its extension.
pub fn is_json_file(name: &str) -> (r: bool)
    ensures
        r == names_json(name@),
{
    let v = chars_of(name);
    proof {
        reveal_strlit(".json");
    }
    let n: usize = v.len();
    if n <= 5 {
        return false;
    }
    let r: bool = v[n - 5] == '.' && v[n - 4] == 'j' && v[n - 3] == 's' && v[n - 2] == 'o' && v[n
        - 1] == 'n';
    proof {
        if r {
            assert(name@.skip(n - 5) =~= ".json"@);
        } else {
            let t = name@.skip(n - 5);
            assert(t[0] == v@[n - 5] && t[1] == v@[n - 4] && t[2] == v@[n - 3] && t[3] == v@[n - 2]
                && t[4] == v@[n - 1]);
            let lit = ".json"@;
            assert(lit[0] == '.' && lit[1] == 'j' && lit[2] == 's' && lit[3] == 'o' && lit[4]
                == 'n');
        }
    }
    r
}

/// Different numbers are written differently.
pub proof fn decimal_is_injective(a: nat, b: nat)
    requires
        decimal(a) == decimal(b),
    ensures
        a == b,
    decreases a,
{
    if a >= 10 {
        assert(decimal(a).drop_last() =~= decimal(a / 10));
        decimal_is_not_empty(a / 10);
    }
    if b >= 10 {
        assert(decimal(b).drop_last() =~= decimal(b / 10));
        decimal_is_not_empty(b / 10);
    }
    assert(decimal(a).last() == digit((a % 10) as int));
    assert(decimal(b).last() == digit((b % 10) as int));
    if a >= 10 && b >= 10 {
        decimal_is_injective(a / 10, b / 10);
    } else if a >= 10 {
        assert(decimal(b).len() == 1);
    } else if b >= 10 {
        assert(decimal(a).len() == 1);
    }
}

/// A number has at least one digit.
pub proof fn decimal_is_not_empty(n: nat)
    ensures
        decimal(n).len() >= 1,
    decreases n,
{
    if n >= 10 {
        decimal_is_not_empty(n / 10);
    }
}

/// Taking off the ends takes off the ends alone: what is left is one piece of the
/// text, and all that lies before and after it is what the edge strips.
pub proof fn strip_takes_off_the_ends_alone(s: Seq<char>, edge: Edge) -> (ends: (int, int))
    ensures
        0 <= ends.0 <= ends.1 <= s.len(),
        strip(s, edge) == s.subrange(ends.0, ends.1),
        forall|i: int| 0 <= i < ends.0 || ends.1 <= i < s.len() ==> strips(edge, #[trigger] s[i]),
        ends.0 < ends.1 ==> !strips(edge, s[ends.0]) && !strips(edge, s[ends.1 - 1]),
    decreases s.len(),
{
    if s.len() > 0 && strips(edge, s[0]) {
        let rest = s.skip(1);
        let inner = strip_takes_off_the_ends_alone(rest, edge);
        let ends = (inner.0 + 1, inner.1 + 1);
        assert(rest.subrange(inner.0, inner.1) =~= s.subrange(ends.0, ends.1));
        assert forall|i: int| 0 <= i < ends.0 || ends.1 <= i < s.len() implies strips(
            edge,
            #[trigger] s[i],
        ) by {
            if i > 0 {
                assert(rest[i - 1] == s[i]);
            }
        }
        ends
    } else {
        strip_end_leaves_the_front(s, edge);
        let n = strip_end(s, edge).len() as int;
        assert(strip_end(s, edge) =~= s.subrange(0, n));
        (0, n)
    }
}

proof fn strip_end_leaves_the_front(s: Seq<char>, edge: Edge)
    ensures
        strip_end(s, edge).len() <= s.len(),
        strip_end(s, edge) == s.take(strip_end(s, edge).len() as int),
        forall|i: int|
            strip_end(s, edge).len() <= i < s.len() ==> strips(edge, #[trigger] s[i]),
        strip_end(s, edge).len() > 0 ==> !strips(edge, strip_end(s, edge).last()),
    decreases s.len(),
{
    if s.len() > 0 && strips(edge, s.last()) {
        let t = s.drop_last();
        strip_end_leaves_the_front(t, edge);
        let n = strip_end(s, edge).len() as int;
        assert(t.take(n) =~= s.take(n));
        assert forall|i: int| n <= i < s.len() implies strips(edge, #[trigger] s[i]) by {
            if i < t.len() {
                assert(t[i] == s[i]);
            }
        }
    } else {
        assert(s.take(s.len() as int) =~= s);
    }
}

/// White space is stripped off either edge, dots off one of them, and nothing
/// else. What is white space as a whole leaves nothing.
pub proof fn edges_strip_white_space_and_dots(s: Seq<char>, edge: Edge, c: char)
    ensures
        strips(edge, c) <==> white_space(c) || (edge is WhiteSpaceAndDots && c == '.'),
        blank(s) ==> strip(s, edge).len() == 0,
        strip(s, Edge::WhiteSpace).len() == 0 ==> blank(s),
{
    let ends = strip_takes_off_the_ends_alone(s, edge);
    if blank(s) && ends.0 < ends.1 {
        assert(white_space(s[ends.0]));
    }
    let whole = strip_takes_off_the_ends_alone(s, Edge::WhiteSpace);
    if strip(s, Edge::WhiteSpace).len() == 0 {
        assert forall|i: int| 0 <= i < s.len() implies white_space(#[trigger] s[i]) by {
            assert(strips(Edge::WhiteSpace, s[i]));
        }
    }
}

/// Decimal notation: a number below ten is one character, as far after `0` as it
/// is large, and ten times a number plus a digit is the number followed by the
/// digit.
pub proof fn decimals_have_base_ten(n: nat, d: nat)
    requires
        d < 10,
    ensures
        decimal(d).len() == 1,
        decimal(d)[0] as int == '0' as int + d,
        n > 0 ==> decimal(10 * n + d) == decimal(n) + decimal(d),
{
    if n > 0 {
        let m = 10 * n + d;
        assert(m / 10 == n);
        assert(m % 10 == d);
        assert(decimal(m) =~= decimal(n) + decimal(d));
    }
}

proof fn digits_without_signs(s: Seq<char>)
    ensures
        digits_value(s) is Some <==> forall|i: int|
            0 <= i < s.len() ==> '0' <= #[trigger] s[i] <= '9',
    decreases s.len(),
{
    if s.len() > 0 {
        let t = s.drop_last();
        digits_without_signs(t);
        if digits_value(s) is Some {
            assert forall|i: int| 0 <= i < s.len() implies '0' <= #[trigger] s[i] <= '9' by {
                if i < t.len() {
                    assert(t[i] == s[i]);
                }
            }
        }
        if forall|i: int| 0 <= i < s.len() ==> '0' <= #[trigger] s[i] <= '9' {
            assert forall|i: int| 0 <= i < t.len() implies '0' <= #[trigger] t[i] <= '9' by {
                assert('0' <= s[i] <= '9');
            }
            assert('0' <= s[s.len() - 1] <= '9');
        }
    }
}

/// Only digits are read, at least one of them, after a plus sign that may stand
/// first and changes nothing.
pub proof fn only_digits_are_read(s: Seq<char>)
    requires
        s.len() > 0 ==> s[0] != '+',
    ensures
        number(seq!['+'] + s) == number(s),
        number(s) is Some ==> s.len() > 0 && forall|i: int|
            0 <= i < s.len() ==> '0' <= #[trigger] s[i] <= '9',
        number(s) is None ==> s.len() == 0 || digits_value(s) is None || (digits_value(
            s,
        ) matches Some(v) && v > u64::MAX),
{
    assert((seq!['+'] + s).skip(1) =~= s);
    digits_without_signs(s);
}

/// A JSON file's name is any name that is not empty, followed by the extension.
pub proof fn json_files_have_a_name(stem: Seq<char>, name: &str, r: bool)
    requires
        call_ensures(is_json_file, (name,), r),
    ensures
        r ==> name@.take(name@.len() - 5) + ".json"@ == name@ && name@.len() > 5,
        name@ == stem + ".json"@ ==> (r <==> stem.len() > 0),
{
    reveal_strlit(".json");
    if r {
        assert(name@.take(name@.len() - 5) + name@.skip(name@.len() - 5) =~= name@);
    }
    if name@ == stem + ".json"@ {
        assert(name@.len() == stem.len() + 5);
        assert(name@.skip(name@.len() - 5) =~= ".json"@);
    }
}

} // verus!
