//! Key names and the key events of a combination.

use vstd::prelude::*;

use crate::platform::ActionError;
use crate::profile::{KeyCombo, Modifier};
use crate::text::{
    after_sign, chars_of, decimal, decimal_is_not_empty, decimal_text, decimals_have_base_ten,
    digit, digits_value, join3, number, numbers_read_back, parse_number, strip, strip_ends,
    strip_takes_off_the_ends_alone, strips, text_of, white_space, Edge,
};

verus! {

/// One press or release of a key.
#[derive(Clone, Copy, Debug, PartialEq, Eq, Structural)]
pub struct KeyEvent {
    /// Virtual key code.
    pub vk: u16,
    /// Whether it is one of the extended keys.
    pub extended: bool,
    pub press: bool,
}

/// Flag of an extended key.
pub const KEYEVENTF_EXTENDEDKEY: u32 = 1;

/// Flag of a release.
pub const KEYEVENTF_KEYUP: u32 = 2;

impl KeyEvent {
    /// The flags that the system takes.
    pub fn flags(&self) -> (f: u32)
        ensures
            f == (if self.extended {
                KEYEVENTF_EXTENDEDKEY
            } else {
                0
            }) + (if self.press {
                0
            } else {
                KEYEVENTF_KEYUP
            }),
    {
        let a: u32 = if self.extended {
            KEYEVENTF_EXTENDEDKEY
        } else {
            0
        };
        let b: u32 = if self.press {
            0
        } else {
            KEYEVENTF_KEYUP
        };
        a + b
    }
}

/// The event of a key.
pub fn key_event(vk: u16, extended: bool, press: bool) -> (e: KeyEvent)
    ensures
        e == (KeyEvent { vk, extended, press }),
{
    KeyEvent { vk, extended, press }
}

/// A letter as lower case; other characters as they are.
pub open spec fn lower(c: char) -> char {
    if 'A' <= c <= 'Z' {
        ((c as u8) + 32) as u8 as char
    } else {
        c
    }
}

/// The text with its letters in lower case.
pub open spec fn lowered(s: Seq<char>) -> Seq<char> {
    Seq::new(s.len(), |i: int| lower(s[i]))
}

/// The key of a name that is one letter or digit: its upper-case character.
pub open spec fn character_key(n: Seq<char>) -> Option<u16> {
    if n.len() == 1 && ('a' <= n[0] <= 'z') {
        Some((n[0] as u16 - 32) as u16)
    } else if n.len() == 1 && ('A' <= n[0] <= 'Z' || '0' <= n[0] <= '9') {
        Some(n[0] as u16)
    } else {
        None
    }
}

/// The key of a name such as `F5`.
pub open spec fn function_key(n: Seq<char>) -> Option<u16> {
    if n.len() > 0 && (n[0] == 'F' || n[0] == 'f') {
        match number(n.skip(1)) {
            Some(k) if 1 <= k <= 12 => Some((0x70 + k - 1) as u16),
            _ => None,
        }
    } else {
        None
    }
}

/// The key of a written-out name in lower case, and whether it is extended.
pub open spec fn named_key(n: Seq<char>) -> Option<(u16, bool)> {
    if n == "space"@ || n == "spacebar"@ {
        Some((0x20, false))
    } else if n == "enter"@ || n == "return"@ {
        Some((0x0d, false))
    } else if n == "tab"@ {
        Some((0x09, false))
    } else if n == "esc"@ || n == "escape"@ {
        Some((0x1b, false))
    } else if n == "left"@ {
        Some((0x25, true))
    } else if n == "up"@ {
        Some((0x26, true))
    } else if n == "right"@ {
        Some((0x27, true))
    } else if n == "down"@ {
        Some((0x28, true))
    } else {
        None
    }
}

/// The key that a name stands for, and whether it is extended. White space
/// around the name and the case of letters do not matter.
pub open spec fn key_of(name: Seq<char>) -> Option<(u16, bool)> {
    let n = strip(name, Edge::WhiteSpace);
    match (character_key(n), function_key(n)) {
        (Some(vk), _) => Some((vk, false)),
        (None, Some(vk)) => Some((vk, false)),
        _ => named_key(lowered(n)),
    }
}

/// What is said of a name that stands for no key.
pub open spec fn unknown_key_text(name: Seq<char>) -> Seq<char> {
    "unrecognized key \""@ + lowered(strip(name, Edge::WhiteSpace)) + "\""@
}

fn lower_char(c: char) -> (r: char)
    ensures
        r == lower(c),
{
    if 'A' <= c && c <= 'Z' {
        ((c as u8) + 32) as char
    } else {
        c
    }
}

fn lower_text(v: &Vec<char>) -> (s: String)
    ensures
        s@ == lowered(v@),
{
    let mut out: Vec<char> = Vec::new();
    let mut i: usize = 0;
    while i < v.len()
        invariant
            i <= v@.len(),
            out@ == lowered(v@.take(i as int)),
        decreases v@.len() - i,
    {
        out.push(lower_char(v[i]));
        i += 1;
        proof {
            assert(out@ =~= lowered(v@.take(i as int)));
        }
    }
    proof {
        assert(v@.take(i as int) =~= v@);
    }
    text_of(&out)
}

fn same_text(s: &String, t: &str) -> (r: bool)
    ensures
        r == (s@ == t@),
{
    *s == t.to_owned()
}

fn read_named_key(n: &String) -> (r: Option<(u16, bool)>)
    ensures
        r == named_key(n@),
{
    if same_text(n, "space") || same_text(n, "spacebar") {
        Some((0x20, false))
    } else if same_text(n, "enter") || same_text(n, "return") {
        Some((0x0d, false))
    } else if same_text(n, "tab") {
        Some((0x09, false))
    } else if same_text(n, "esc") || same_text(n, "escape") {
        Some((0x1b, false))
    } else if same_text(n, "left") {
        Some((0x25, true))
    } else if same_text(n, "up") {
        Some((0x26, true))
    } else if same_text(n, "right") {
        Some((0x27, true))
    } else if same_text(n, "down") {
        Some((0x28, true))
    } else {
        None
    }
}

/// The virtual key that a name stands for, and whether it is extended.
pub fn vk_of(name: &str) -> (r: Result<(u16, bool), ActionError>)
    ensures
        match key_of(name@) {
            Some(key) => r == Ok::<(u16, bool), ActionError>(key),
            None => r matches Err(ActionError::Keystroke(t)) && t@ == unknown_key_text(name@),
        },
{
    let n = strip_ends(&chars_of(name), Edge::WhiteSpace);
    if n.len() == 1 {
        let c: char = n[0];
        if 'a' <= c && c <= 'z' {
            return Ok(((c as u16 - 32) as u16, false));
        }
        if ('A' <= c && c <= 'Z') || ('0' <= c && c <= '9') {
            return Ok((c as u16, false));
        }
    }
    if n.len() > 0 && (n[0] == 'F' || n[0] == 'f') {
        let mut digits: Vec<char> = Vec::new();
        let mut i: usize = 1;
        while i < n.len()
            invariant
                1 <= i <= n@.len(),
                digits@ == n@.subrange(1, i as int),
            decreases n@.len() - i,
        {
            digits.push(n[i]);
            i += 1;
            proof {
                assert(digits@ =~= n@.subrange(1, i as int));
            }
        }
        proof {
            assert(digits@ =~= n@.skip(1));
        }
        match parse_number(&text_of(&digits)) {
            Some(k) => {
                if 1 <= k && k <= 12 {
                    return Ok(((0x70 + k - 1) as u16, false));
                }
            },
            None => {},
        }
    }
    let lower = lower_text(&n);
    match read_named_key(&lower) {
        Some(key) => Ok(key),
        None => Err(ActionError::Keystroke(join3("unrecognized key \"", &lower, "\""))),
    }
}

/// The key of a modifier.
pub open spec fn modifier_key(m: Modifier) -> u16 {
    match m {
        Modifier::Ctrl => 0x11,
        Modifier::Shift => 0x10,
        Modifier::Alt => 0x12,
        Modifier::Win => 0x5b,
    }
}

pub fn modifier_vk(m: Modifier) -> (vk: u16)
    ensures
        vk == modifier_key(m),
{
    match m {
        Modifier::Ctrl => 0x11,
        Modifier::Shift => 0x10,
        Modifier::Alt => 0x12,
        Modifier::Win => 0x5b,
    }
}

/// A press or release of each modifier in turn.
pub open spec fn modifier_events(mods: Seq<Modifier>, press: bool) -> Seq<KeyEvent> {
    Seq::new(
        mods.len(),
        |i: int| KeyEvent { vk: modifier_key(mods[i]), extended: false, press },
    )
}

/// The events of a combination: the modifiers go down in order, the key goes
/// down and up, and the modifiers come up in reverse.
pub open spec fn strokes(mods: Seq<Modifier>, key: (u16, bool)) -> Seq<KeyEvent> {
    modifier_events(mods, true).push(KeyEvent { vk: key.0, extended: key.1, press: true }).push(
        KeyEvent { vk: key.0, extended: key.1, press: false },
    ) + modifier_events(mods.reverse(), false)
}

/// The events that let everything go: the key, then each modifier.
pub open spec fn releases(mods: Seq<Modifier>, key: (u16, bool)) -> Seq<KeyEvent> {
    seq![KeyEvent { vk: key.0, extended: key.1, press: false }] + modifier_events(mods, false)
}

/// The events of a combination, or why there are none: its key has no known
/// name.
pub fn keystroke_events(combo: &KeyCombo) -> (r: Result<Vec<KeyEvent>, ActionError>)
    ensures
        match key_of(combo.key@) {
            Some(key) => r matches Ok(v) && v@ == strokes(combo.modifiers@, key),
            None => r matches Err(ActionError::Keystroke(t)) && t@ == unknown_key_text(combo.key@),
        },
{
    let (vk, extended) = match vk_of(&combo.key) {
        Ok(key) => key,
        Err(e) => return Err(e),
    };
    let ghost mods = combo.modifiers@;
    let mut v: Vec<KeyEvent> = Vec::new();
    let mut i: usize = 0;
    while i < combo.modifiers.len()
        invariant
            i <= combo.modifiers@.len(),
            mods == combo.modifiers@,
            v@ == modifier_events(mods.take(i as int), true),
        decreases combo.modifiers@.len() - i,
    {
        v.push(key_event(modifier_vk(combo.modifiers[i]), false, true));
        i += 1;
        proof {
            assert(v@ =~= modifier_events(mods.take(i as int), true));
        }
    }
    proof {
        assert(mods.take(i as int) =~= mods);
    }
    v.push(key_event(vk, extended, true));
    v.push(key_event(vk, extended, false));
    let ghost first = v@;
    proof {
        assert(v@ =~= first + modifier_events(mods.reverse().take(0), false));
    }
    let n: usize = combo.modifiers.len();
    let mut k: usize = 0;
    while k < n
        invariant
            k <= n,
            n == mods.len(),
            mods == combo.modifiers@,
            v@ == first + modifier_events(mods.reverse().take(k as int), false),
        decreases n - k,
    {
        v.push(key_event(modifier_vk(combo.modifiers[n - 1 - k]), false, false));
        k += 1;
        proof {
            assert(v@ =~= first + modifier_events(mods.reverse().take(k as int), false));
        }
    }
    proof {
        assert(mods.reverse().take(n as int) =~= mods.reverse());
    }
    Ok(v)
}

/// The events that let go of a combination that was only partly sent.
pub fn release_events(combo: &KeyCombo) -> (r: Option<Vec<KeyEvent>>)
    ensures
        match key_of(combo.key@) {
            Some(key) => r matches Some(v) && v@ == releases(combo.modifiers@, key),
            None => r is None,
        },
{
    let (vk, extended) = match vk_of(&combo.key) {
        Ok(key) => key,
        Err(_) => return None,
    };
    let ghost mods = combo.modifiers@;
    let mut v: Vec<KeyEvent> = Vec::new();
    v.push(key_event(vk, extended, false));
    let ghost first = seq![KeyEvent { vk, extended, press: false }];
    proof {
        assert(v@ =~= first + modifier_events(mods.take(0), false));
    }
    let mut i: usize = 0;
    while i < combo.modifiers.len()
        invariant
            i <= combo.modifiers@.len(),
            mods == combo.modifiers@,
            v@ == first + modifier_events(mods.take(i as int), false),
        decreases combo.modifiers@.len() - i,
    {
        v.push(key_event(modifier_vk(combo.modifiers[i]), false, false));
        i += 1;
        proof {
            assert(v@ =~= first + modifier_events(mods.take(i as int), false));
        }
    }
    proof {
        assert(mods.take(i as int) =~= mods);
    }
    Some(v)
}

/// The events pair up from the outside in: the first press with the last
/// release of the same key, and so on, so that nothing is left held down.
pub proof fn every_press_is_released(mods: Seq<Modifier>, key: (u16, bool), i: int)
    requires
        0 <= i <= mods.len(),
    ensures
        strokes(mods, key).len() == 2 * (mods.len() + 1),
        strokes(mods, key)[i].press,
        !strokes(mods, key)[strokes(mods, key).len() - 1 - i].press,
        strokes(mods, key)[i].vk == strokes(mods, key)[strokes(mods, key).len() - 1 - i].vk,
        strokes(mods, key)[i].extended == strokes(mods, key)[strokes(mods, key).len() - 1
            - i].extended,
{
}

/// A number in hexadecimal notation.
pub open spec fn hexadecimal(n: nat) -> Seq<char>
    decreases n,
{
    if n < 16 {
        seq![crate::ids::hex_digit(n as int)]
    } else {
        hexadecimal(n / 16).push(crate::ids::hex_digit((n % 16) as int))
    }
}

fn hex_char(d: u32) -> (c: char)
    requires
        d < 16,
    ensures
        c == crate::ids::hex_digit(d as int),
{
    match d {
        0 => '0',
        1 => '1',
        2 => '2',
        3 => '3',
        4 => '4',
        5 => '5',
        6 => '6',
        7 => '7',
        8 => '8',
        9 => '9',
        10 => 'a',
        11 => 'b',
        12 => 'c',
        13 => 'd',
        14 => 'e',
        _ => 'f',
    }
}

fn hex_text(n: u32) -> (s: String)
    ensures
        s@ == hexadecimal(n as nat),
    decreases n,
{
    if n < 16 {
        let mut s: String = String::new();
        s.push(hex_char(n));
        proof {
            assert(s@ =~= hexadecimal(n as nat));
        }
        s
    } else {
        let mut s: String = hex_text(n / 16);
        s.push(hex_char(n % 16));
        s
    }
}

/// The error where fewer events were sent than the combination has.
pub fn partial_injection(sent: u32, total: usize, code: u32) -> (r: Result<(), ActionError>)
    ensures
        if sent == total {
            r is Ok
        } else {
            r matches Err(ActionError::Keystroke(t)) && t@ == "SendInput injected "@ + decimal(
                sent as nat,
            ) + "/"@ + decimal(total as nat) + " (GetLastError 0x"@ + hexadecimal(code as nat)
                + ")"@
        },
{
    if sent as usize == total {
        return Ok(());
    }
    let sent_text = decimal_text(sent as u64);
    let total_text = decimal_text(total as u64);
    let code_text = hex_text(code);
    let start = join3("SendInput injected ", &sent_text, "/");
    let middle = join3(&start, &total_text, " (GetLastError 0x");
    Err(ActionError::Keystroke(join3(&middle, &code_text, ")")))
}

/// A letter or a digit is its own key, by the code of its upper-case character. The
/// function keys follow each other from the first to the twelfth.
pub proof fn letters_and_digits_are_their_own_keys(c: char, k: u64)
    requires
        'a' <= c <= 'z' || 'A' <= c <= 'Z' || '0' <= c <= '9',
        1 <= k <= 12,
    ensures
        '0' <= c <= '9' || 'A' <= c <= 'Z' ==> key_of(seq![c]) == Some((c as u16, false)),
        'a' <= c <= 'z' ==> key_of(seq![c]) == Some(((c as u16 - 0x20) as u16, false)),
        key_of(seq!['F'] + decimal(k as nat)) == Some(((0x6f + k) as u16, false)),
        key_of(seq!['f'] + decimal(k as nat)) == Some(((0x6f + k) as u16, false)),
{
    let n = seq![c];
    kept_whole(n);
    let d = decimal(k as nat);
    decimal_is_not_empty(k as nat);
    numbers_read_back(k);
    let last = d.last();
    assert(!white_space(last)) by {
        decimals_have_base_ten(0, (k % 10) as nat);
        assert(d.last() == digit((k % 10) as int));
    }
    let (big, small) = (seq!['F'] + d, seq!['f'] + d);
    assert(big.last() == last && small.last() == last);
    assert(big.skip(1) =~= d && small.skip(1) =~= d);
    kept_whole(big);
    kept_whole(small);
}

proof fn kept_whole(n: Seq<char>)
    requires
        n.len() > 0,
        !white_space(n[0]),
        !white_space(n.last()),
    ensures
        strip(n, Edge::WhiteSpace) == n,
{
    let ends = strip_takes_off_the_ends_alone(n, Edge::WhiteSpace);
    assert(ends.0 == 0) by {
        if ends.0 > 0 {
            assert(strips(Edge::WhiteSpace, n[0]));
        }
    }
    assert(ends.1 == n.len()) by {
        if ends.1 < n.len() {
            assert(strips(Edge::WhiteSpace, n[n.len() - 1]));
        }
    }
    assert(n.subrange(0, n.len() as int) =~= n);
}

proof fn numbers_have_no_case(s: Seq<char>)
    ensures
        digits_value(lowered(s)) == digits_value(s),
        number(lowered(s)) == number(s),
    decreases s.len(),
{
    assert(after_sign(lowered(s)) =~= lowered(after_sign(s)));
    if s.len() > 0 {
        let t = s.drop_last();
        assert(lowered(s).drop_last() =~= lowered(t));
        numbers_have_no_case(t);
        if s[0] == '+' && s.len() > 1 {
            let u = s.skip(1);
            numbers_have_no_case(u);
        } else if s[0] == '+' {
            assert(s.skip(1) =~= Seq::<char>::empty());
            assert(lowered(s).skip(1) =~= Seq::<char>::empty());
        }
    }
}

/// The case of letters and white space around a name do not matter: names that are
/// the same without them stand for the same key.
pub proof fn case_does_not_matter(a: Seq<char>, b: Seq<char>)
    requires
        lowered(strip(a, Edge::WhiteSpace)) == lowered(strip(b, Edge::WhiteSpace)),
    ensures
        key_of(a) == key_of(b),
{
    let n = strip(a, Edge::WhiteSpace);
    let m = strip(b, Edge::WhiteSpace);
    assert(n.len() == lowered(n).len());
    assert(m.len() == lowered(m).len());
    if n.len() > 0 {
        assert(lower(n[0]) == lowered(n)[0]);
        assert(lower(m[0]) == lowered(m)[0]);
        assert(lowered(n.skip(1)) =~= lowered(n).skip(1));
        assert(lowered(m.skip(1)) =~= lowered(m).skip(1));
        numbers_have_no_case(n.skip(1));
        numbers_have_no_case(m.skip(1));
        letters_keep_their_key(n[0]);
        letters_keep_their_key(m[0]);
    }
}

proof fn letters_keep_their_key(c: char)
    ensures
        'A' <= c <= 'Z' ==> lower(c) as int == c as int + 32,
        !('A' <= c <= 'Z') ==> lower(c) == c,
        lower(c) == 'f' <==> c == 'F' || c == 'f',
{
    if 'A' <= c <= 'Z' {
        let u = c as u8;
        assert(65 <= u <= 90);
        assert((((u + 32) as u8) as char) as int == u as int + 32);
    }
}

/// Only the arrow keys are extended, and no two written-out keys share a code.
pub proof fn only_arrows_are_extended(name: Seq<char>)
    ensures
        named_key(name) matches Some((vk, extended)) ==> (extended <==> 0x25 <= vk <= 0x28),
        key_of(name) matches Some((vk, extended)) ==> (extended ==> 0x25 <= vk <= 0x28),
        named_key("left"@) == Some((0x25u16, true)),
        named_key("up"@) == Some((0x26u16, true)),
        named_key("right"@) == Some((0x27u16, true)),
        named_key("down"@) == Some((0x28u16, true)),
        named_key("space"@) == Some((0x20u16, false)),
        named_key("enter"@) == Some((0x0du16, false)),
        named_key("tab"@) == Some((0x09u16, false)),
        named_key("esc"@) == Some((0x1bu16, false)),
{
    reveal_strlit("space");
    reveal_strlit("spacebar");
    reveal_strlit("enter");
    reveal_strlit("return");
    reveal_strlit("tab");
    reveal_strlit("esc");
    reveal_strlit("escape");
    reveal_strlit("left");
    reveal_strlit("up");
    reveal_strlit("right");
    reveal_strlit("down");
    assert("left"@[0] == 'l' && "up"@[0] == 'u' && "right"@[0] == 'r' && "down"@[0] == 'd');
    assert("space"@[0] == 's' && "spacebar"@[0] == 's' && "enter"@[0] == 'e' && "return"@[0]
        == 'r');
    assert("tab"@[0] == 't' && "esc"@[0] == 'e' && "escape"@[0] == 'e');
    assert("enter"@[1] == 'n' && "esc"@[1] == 's' && "escape"@[1] == 's');
    assert("right"@.len() == 5 && "return"@.len() == 6);
}

/// Every modifier has a key of its own, by the system's code for it.
pub proof fn modifiers_have_their_own_keys(a: Modifier, b: Modifier, vk: u16)
    requires
        call_ensures(modifier_vk, (a,), vk),
    ensures
        a is Shift <==> vk == 0x10,
        a is Ctrl <==> vk == 0x11,
        a is Alt <==> vk == 0x12,
        a is Win <==> vk == 0x5b,
        modifier_key(a) == modifier_key(b) ==> a == b,
{
}

/// The modifiers go down one after the other before the key does, the key comes up
/// right after it went down, and no key is pressed that is not part of the
/// combination.
pub proof fn keys_go_down_in_order(combo: &KeyCombo, v: Vec<KeyEvent>, key: (u16, bool), i: int)
    requires
        call_ensures(keystroke_events, (combo,), Ok(v)),
        key_of(combo.key@) == Some(key),
        0 <= i < combo.modifiers@.len(),
    ensures
        v@.len() == 2 * combo.modifiers@.len() + 2,
        v@[i] == (KeyEvent { vk: modifier_key(combo.modifiers@[i]), extended: false, press: true }),
        v@[combo.modifiers@.len() as int] == (KeyEvent { vk: key.0, extended: key.1, press: true }),
        v@[combo.modifiers@.len() as int + 1] == (KeyEvent {
            vk: key.0,
            extended: key.1,
            press: false,
        }),
        v@[v@.len() - 1 - i] == (KeyEvent {
            vk: modifier_key(combo.modifiers@[i]),
            extended: false,
            press: false,
        }),
{
}

/// Letting go releases the key and every modifier, and presses nothing.
pub proof fn letting_go_releases_everything(
    combo: &KeyCombo,
    sent: Vec<KeyEvent>,
    released: Vec<KeyEvent>,
    i: int,
)
    requires
        call_ensures(keystroke_events, (combo,), Ok(sent)),
        call_ensures(release_events, (combo,), Some(released)),
        0 <= i < sent@.len(),
    ensures
        exists|j: int|
            0 <= j < released@.len() && #[trigger] released@[j] == (KeyEvent {
                press: false,
                ..sent@[i]
            }),
        forall|j: int| 0 <= j < released@.len() ==> !(#[trigger] released@[j]).press,
        released@.len() == combo.modifiers@.len() + 1,
{
    let n = combo.modifiers@.len() as int;
    let key = key_of(combo.key@)->0;
    if i < n {
        assert(released@[i + 1] == (KeyEvent { press: false, ..sent@[i] }));
    } else if i < n + 2 {
        assert(released@[0] == (KeyEvent { press: false, ..sent@[i] }));
    } else {
        let k = sent@.len() - 1 - i;
        assert(sent@[i].vk == modifier_key(combo.modifiers@.reverse()[i - n - 2]));
        assert(combo.modifiers@.reverse()[i - n - 2] == combo.modifiers@[k]);
        assert(released@[k + 1] == (KeyEvent { press: false, ..sent@[i] }));
    }
}

/// Hexadecimal notation: a number below sixteen is one digit, and sixteen times a
/// number plus a digit is the number followed by the digit.
pub proof fn hexadecimals_have_base_sixteen(n: nat, d: nat)
    requires
        d < 16,
    ensures
        hexadecimal(d).len() == 1,
        d < 10 ==> hexadecimal(d)[0] as int == '0' as int + d,
        d >= 10 ==> hexadecimal(d)[0] as int == 'a' as int + d - 10,
        n > 0 ==> hexadecimal(16 * n + d) == hexadecimal(n) + hexadecimal(d),
{
    if n > 0 {
        let m = 16 * n + d;
        assert(m / 16 == n);
        assert(m % 16 == d);
        assert(hexadecimal(m) =~= hexadecimal(n) + hexadecimal(d));
    }
}

} // verus!
