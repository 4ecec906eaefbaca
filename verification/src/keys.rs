use vstd::prelude::*;

verus! {

/// The editor's keys that the key-binding logic tells apart; every other
/// key is `Other`.
#[derive(Clone, Copy, Debug, PartialEq, Eq)]
pub enum Key {
    A,
    B,
    C,
    D,
    E,
    F,
    G,
    H,
    I,
    J,
    K,
    L,
    M,
    N,
    O,
    P,
    Q,
    R,
    S,
    T,
    U,
    V,
    W,
    X,
    Y,
    Z,
    Num0,
    Num1,
    Num2,
    Num3,
    Num4,
    Num5,
    Num6,
    Num7,
    Num8,
    Num9,
    Space,
    Enter,
    ArrowLeft,
    ArrowUp,
    ArrowRight,
    ArrowDown,
    Escape,
    Other,
}

/// The virtual-key code of an editor key, if it can be bound.
pub open spec fn egui_code(key: Key) -> Option<u16> {
    match key {
        Key::A => Some(0x41u16),
        Key::B => Some(0x42u16),
        Key::C => Some(0x43u16),
        Key::D => Some(0x44u16),
        Key::E => Some(0x45u16),
        Key::F => Some(0x46u16),
        Key::G => Some(0x47u16),
        Key::H => Some(0x48u16),
        Key::I => Some(0x49u16),
        Key::J => Some(0x4Au16),
        Key::K => Some(0x4Bu16),
        Key::L => Some(0x4Cu16),
        Key::M => Some(0x4Du16),
        Key::N => Some(0x4Eu16),
        Key::O => Some(0x4Fu16),
        Key::P => Some(0x50u16),
        Key::Q => Some(0x51u16),
        Key::R => Some(0x52u16),
        Key::S => Some(0x53u16),
        Key::T => Some(0x54u16),
        Key::U => Some(0x55u16),
        Key::V => Some(0x56u16),
        Key::W => Some(0x57u16),
        Key::X => Some(0x58u16),
        Key::Y => Some(0x59u16),
        Key::Z => Some(0x5Au16),
        Key::Num0 => Some(0x30u16),
        Key::Num1 => Some(0x31u16),
        Key::Num2 => Some(0x32u16),
        Key::Num3 => Some(0x33u16),
        Key::Num4 => Some(0x34u16),
        Key::Num5 => Some(0x35u16),
        Key::Num6 => Some(0x36u16),
        Key::Num7 => Some(0x37u16),
        Key::Num8 => Some(0x38u16),
        Key::Num9 => Some(0x39u16),
        Key::Space => Some(0x20u16),
        Key::Enter => Some(0x0Du16),
        Key::ArrowLeft => Some(0x25u16),
        Key::ArrowUp => Some(0x26u16),
        Key::ArrowRight => Some(0x27u16),
        Key::ArrowDown => Some(0x28u16),
        Key::Escape => None,
        Key::Other => None,
    }
}

/// The virtual-key code of an editor key: letters, digits, space, enter
/// and the arrows have one; other keys have none.
pub fn get_egui_code(key: Key) -> (code: Option<u16>)
    ensures
        code == egui_code(key),
{
    match key {
        Key::A => Some(0x41),
        Key::B => Some(0x42),
        Key::C => Some(0x43),
        Key::D => Some(0x44),
        Key::E => Some(0x45),
        Key::F => Some(0x46),
        Key::G => Some(0x47),
        Key::H => Some(0x48),
        Key::I => Some(0x49),
        Key::J => Some(0x4A),
        Key::K => Some(0x4B),
        Key::L => Some(0x4C),
        Key::M => Some(0x4D),
        Key::N => Some(0x4E),
        Key::O => Some(0x4F),
        Key::P => Some(0x50),
        Key::Q => Some(0x51),
        Key::R => Some(0x52),
        Key::S => Some(0x53),
        Key::T => Some(0x54),
        Key::U => Some(0x55),
        Key::V => Some(0x56),
        Key::W => Some(0x57),
        Key::X => Some(0x58),
        Key::Y => Some(0x59),
        Key::Z => Some(0x5A),
        Key::Num0 => Some(0x30),
        Key::Num1 => Some(0x31),
        Key::Num2 => Some(0x32),
        Key::Num3 => Some(0x33),
        Key::Num4 => Some(0x34),
        Key::Num5 => Some(0x35),
        Key::Num6 => Some(0x36),
        Key::Num7 => Some(0x37),
        Key::Num8 => Some(0x38),
        Key::Num9 => Some(0x39),
        Key::Space => Some(0x20),
        Key::Enter => Some(0x0D),
        Key::ArrowLeft => Some(0x25),
        Key::ArrowUp => Some(0x26),
        Key::ArrowRight => Some(0x27),
        Key::ArrowDown => Some(0x28),
        _ => None,
    }
}

/// The virtual-key code of a typed character, if it can be bound: letters
/// of either case give the upper-case letter's code, digits their own code,
/// and some punctuation the code of its US-layout key.
pub open spec fn char_code(c: char) -> Option<u16> {
    if 'a' <= c <= 'z' {
        Some((c as int - 'a' as int + 0x41) as u16)
    } else if 'A' <= c <= 'Z' {
        Some((c as int - 'A' as int + 0x41) as u16)
    } else if '0' <= c <= '9' {
        Some(c as u16)
    } else if c == '.' {
        Some(0xBEu16)
    } else if c == '/' {
        Some(0xBFu16)
    } else if c == ',' {
        Some(0xBCu16)
    } else if c == ';' {
        Some(0xBAu16)
    } else if c == '=' {
        Some(0xBBu16)
    } else if c == '-' {
        Some(0xBDu16)
    } else if c == '[' {
        Some(0xDBu16)
    } else if c == ']' {
        Some(0xDDu16)
    } else if c == '\\' {
        Some(0xDCu16)
    } else if c == '\'' {
        Some(0xDEu16)
    } else if c == '`' {
        Some(0xC0u16)
    } else if c == ' ' {
        Some(0x20u16)
    } else {
        None
    }
}

/// The virtual-key code of a typed character, as `char_code` says.
pub fn get_char_code(c: char) -> (code: Option<u16>)
    ensures
        code == char_code(c),
{
    if 'a' <= c && c <= 'z' {
        Some((c as u32 - 'a' as u32 + 0x41) as u16)
    } else if 'A' <= c && c <= 'Z' {
        Some((c as u32 - 'A' as u32 + 0x41) as u16)
    } else if '0' <= c && c <= '9' {
        Some(c as u16)
    } else if c == '.' {
        Some(0xBE)
    } else if c == '/' {
        Some(0xBF)
    } else if c == ',' {
        Some(0xBC)
    } else if c == ';' {
        Some(0xBA)
    } else if c == '=' {
        Some(0xBB)
    } else if c == '-' {
        Some(0xBD)
    } else if c == '[' {
        Some(0xDB)
    } else if c == ']' {
        Some(0xDD)
    } else if c == '\\' {
        Some(0xDC)
    } else if c == '\'' {
        Some(0xDE)
    } else if c == '`' {
        Some(0xC0)
    } else if c == ' ' {
        Some(0x20)
    } else {
        None
    }
}


/// A hexadecimal digit, upper case.
pub open spec fn hex_digit(d: int) -> char {
    if d < 10 {
        (48 + d) as char
    } else {
        (55 + d) as char
    }
}

/// The hexadecimal digits of `n`, upper case, without leading zeros.
pub open spec fn hex_digits(n: nat) -> Seq<char>
    decreases n,
{
    if n < 16 {
        seq![hex_digit(n as int)]
    } else {
        hex_digits(n / 16).push(hex_digit((n % 16) as int))
    }
}

/// The hexadecimal digits of `n`, padded with a zero to at least two.
pub open spec fn hex_two(n: nat) -> Seq<char> {
    if n < 16 {
        seq!['0', hex_digit(n as int)]
    } else {
        hex_digits(n)
    }
}

/// Whether a key code has a name of its own (else it is shown in hex).
pub open spec fn has_name(code: u16) -> bool {
    ||| 0x41 <= code <= 0x5A
    ||| 0x30 <= code <= 0x39
    ||| code == 0xBE || code == 0xBF || code == 0xBC || code == 0xBA || code == 0xBB
    ||| code == 0xBD || code == 0xDE || code == 0xDB || code == 0xDD || code == 0xDC
    ||| code == 0xC0 || code == 0x20 || code == 0x0D
    ||| code == 0x25 || code == 0x26 || code == 0x27 || code == 0x28
}

/// How a key code is shown: a letter or digit as itself, punctuation as
/// its character, "Space", "Enter", arrows as arrow signs, and any other
/// code as "0x" and at least two upper-case hex digits.
pub open spec fn code_name(code: u16) -> Seq<char> {
    if 0x41 <= code <= 0x5A || 0x30 <= code <= 0x39 {
        seq![code as char]
    } else if code == 0xBE {
        seq!['.']
    } else if code == 0xBF {
        seq!['/']
    } else if code == 0xBC {
        seq![',']
    } else if code == 0xBA {
        seq![';']
    } else if code == 0xBB {
        seq!['=']
    } else if code == 0xBD {
        seq!['-']
    } else if code == 0xDE {
        seq!['\'']
    } else if code == 0xDB {
        seq!['[']
    } else if code == 0xDD {
        seq![']']
    } else if code == 0xDC {
        seq!['\\']
    } else if code == 0xC0 {
        seq!['`']
    } else if code == 0x20 {
        seq!['S', 'p', 'a', 'c', 'e']
    } else if code == 0x0D {
        seq!['E', 'n', 't', 'e', 'r']
    } else if code == 0x25 {
        seq!['\u{2190}']
    } else if code == 0x26 {
        seq!['\u{2191}']
    } else if code == 0x27 {
        seq!['\u{2192}']
    } else if code == 0x28 {
        seq!['\u{2193}']
    } else {
        seq!['0', 'x'] + hex_two(code as nat)
    }
}

/// `String::push`: appends one character to the string.
#[verifier::external_body]
fn push_char(s: &mut String, c: char)
    ensures
        final(s)@ == old(s)@.push(c),
{
    s.push(c)
}

/// A string of one character.
fn char_string(c: char) -> (s: String)
    ensures
        s@ == seq![c],
{
    let mut s = String::new();
    push_char(&mut s, c);
    assert(s@ =~= seq![c]);
    s
}

fn hex_char(d: u16) -> (c: char)
    requires
        d < 16,
    ensures
        c == hex_digit(d as int),
{
    if d < 10 {
        ((48 + d) as u8) as char
    } else {
        ((55 + d) as u8) as char
    }
}

/// Appends the hex digits of `n` to `s`.
fn push_hex(s: &mut String, n: u16)
    ensures
        final(s)@ == old(s)@ + hex_digits(n as nat),
    decreases n,
{
    if n >= 16 {
        push_hex(s, n / 16);
    }
    push_char(s, hex_char(n % 16));
    assert(final(s)@ =~= old(s)@ + hex_digits(n as nat));
}

/// The name shown for a key code, as `code_name` says.
pub fn get_code_name(code: u16) -> (name: String)
    ensures
        name@ == code_name(code),
{
    if (0x41 <= code && code <= 0x5A) || (0x30 <= code && code <= 0x39) {
        char_string((code as u8) as char)
    } else if code == 0xBE {
        char_string('.')
    } else if code == 0xBF {
        char_string('/')
    } else if code == 0xBC {
        char_string(',')
    } else if code == 0xBA {
        char_string(';')
    } else if code == 0xBB {
        char_string('=')
    } else if code == 0xBD {
        char_string('-')
    } else if code == 0xDE {
        char_string('\'')
    } else if code == 0xDB {
        char_string('[')
    } else if code == 0xDD {
        char_string(']')
    } else if code == 0xDC {
        char_string('\\')
    } else if code == 0xC0 {
        char_string('`')
    } else if code == 0x20 {
        let mut s = String::new();
        push_char(&mut s, 'S');
        push_char(&mut s, 'p');
        push_char(&mut s, 'a');
        push_char(&mut s, 'c');
        push_char(&mut s, 'e');
        assert(s@ =~= seq!['S', 'p', 'a', 'c', 'e']);
        s
    } else if code == 0x0D {
        let mut s = String::new();
        push_char(&mut s, 'E');
        push_char(&mut s, 'n');
        push_char(&mut s, 't');
        push_char(&mut s, 'e');
        push_char(&mut s, 'r');
        assert(s@ =~= seq!['E', 'n', 't', 'e', 'r']);
        s
    } else if code == 0x25 {
        char_string('\u{2190}')
    } else if code == 0x26 {
        char_string('\u{2191}')
    } else if code == 0x27 {
        char_string('\u{2192}')
    } else if code == 0x28 {
        char_string('\u{2193}')
    } else {
        let mut s = String::new();
        push_char(&mut s, '0');
        push_char(&mut s, 'x');
        if code < 16 {
            push_char(&mut s, '0');
        }
        push_hex(&mut s, code);
        assert(s@ =~= seq!['0', 'x'] + hex_two(code as nat));
        s
    }
}

/// The character a key types, for the keys whose code a typed character
/// can also give.
pub open spec fn key_char(key: Key) -> Option<char> {
    match key {
        Key::A => Some('a'),
        Key::B => Some('b'),
        Key::C => Some('c'),
        Key::D => Some('d'),
        Key::E => Some('e'),
        Key::F => Some('f'),
        Key::G => Some('g'),
        Key::H => Some('h'),
        Key::I => Some('i'),
        Key::J => Some('j'),
        Key::K => Some('k'),
        Key::L => Some('l'),
        Key::M => Some('m'),
        Key::N => Some('n'),
        Key::O => Some('o'),
        Key::P => Some('p'),
        Key::Q => Some('q'),
        Key::R => Some('r'),
        Key::S => Some('s'),
        Key::T => Some('t'),
        Key::U => Some('u'),
        Key::V => Some('v'),
        Key::W => Some('w'),
        Key::X => Some('x'),
        Key::Y => Some('y'),
        Key::Z => Some('z'),
        Key::Num0 => Some('0'),
        Key::Num1 => Some('1'),
        Key::Num2 => Some('2'),
        Key::Num3 => Some('3'),
        Key::Num4 => Some('4'),
        Key::Num5 => Some('5'),
        Key::Num6 => Some('6'),
        Key::Num7 => Some('7'),
        Key::Num8 => Some('8'),
        Key::Num9 => Some('9'),
        Key::Space => Some(' '),
        _ => None,
    }
}

/// The upper-case form of an ASCII letter; any other character as it is.
pub open spec fn ascii_upper(c: char) -> char {
    if 'a' <= c <= 'z' {
        (c as int - 32) as char
    } else {
        c
    }
}

/// Typing a key's character binds the same code as pressing the key, in
/// either letter case.
pub proof fn lemma_typed_and_pressed_agree(key: Key)
    ensures
        key_char(key) matches Some(c) ==> char_code(c) == egui_code(key) && char_code(ascii_upper(c))
            == egui_code(key),
{
}

/// A key bound by typing a character is shown as that character (letters
/// in upper case), the space bar as "Space".
pub proof fn lemma_typed_keys_named(c: char)
    ensures
        char_code(c) matches Some(code) ==> code_name(code) == (if c == ' ' {
            seq!['S', 'p', 'a', 'c', 'e']
        } else {
            seq![ascii_upper(c)]
        }),
{
}

/// Every key that can be bound by pressing it has a name of its own.
pub proof fn lemma_pressed_keys_named(key: Key)
    ensures
        egui_code(key) matches Some(code) ==> has_name(code),
{
}

/// A code without a name of its own is shown as "0x" and its hex digits,
/// at least two.
pub proof fn lemma_unnamed_codes_in_hex(code: u16)
    ensures
        !has_name(code) ==> code_name(code) == seq!['0', 'x'] + hex_two(code as nat),
        hex_two(code as nat).len() >= 2,
{
    lemma_hex_digits_len(code as nat);
}

proof fn lemma_hex_digits_len(n: nat)
    ensures
        hex_digits(n).len() >= 1,
        n >= 16 ==> hex_digits(n).len() >= 2,
    decreases n,
{
    if n >= 16 {
        lemma_hex_digits_len(n / 16);
    }
}

/// Pressing a letter, digit or space key binds the same code as typing
/// its character.
pub proof fn lemma_keys_match_characters()
    ensures
        egui_code(Key::A) == char_code('a'),
        egui_code(Key::B) == char_code('b'),
        egui_code(Key::C) == char_code('c'),
        egui_code(Key::D) == char_code('d'),
        egui_code(Key::E) == char_code('e'),
        egui_code(Key::F) == char_code('f'),
        egui_code(Key::G) == char_code('g'),
        egui_code(Key::H) == char_code('h'),
        egui_code(Key::I) == char_code('i'),
        egui_code(Key::J) == char_code('j'),
        egui_code(Key::K) == char_code('k'),
        egui_code(Key::L) == char_code('l'),
        egui_code(Key::M) == char_code('m'),
        egui_code(Key::N) == char_code('n'),
        egui_code(Key::O) == char_code('o'),
        egui_code(Key::P) == char_code('p'),
        egui_code(Key::Q) == char_code('q'),
        egui_code(Key::R) == char_code('r'),
        egui_code(Key::S) == char_code('s'),
        egui_code(Key::T) == char_code('t'),
        egui_code(Key::U) == char_code('u'),
        egui_code(Key::V) == char_code('v'),
        egui_code(Key::W) == char_code('w'),
        egui_code(Key::X) == char_code('x'),
        egui_code(Key::Y) == char_code('y'),
        egui_code(Key::Z) == char_code('z'),
        egui_code(Key::Num0) == char_code('0'),
        egui_code(Key::Num1) == char_code('1'),
        egui_code(Key::Num2) == char_code('2'),
        egui_code(Key::Num3) == char_code('3'),
        egui_code(Key::Num4) == char_code('4'),
        egui_code(Key::Num5) == char_code('5'),
        egui_code(Key::Num6) == char_code('6'),
        egui_code(Key::Num7) == char_code('7'),
        egui_code(Key::Num8) == char_code('8'),
        egui_code(Key::Num9) == char_code('9'),
        egui_code(Key::Space) == char_code(' '),
{
}

/// Letters bind the Windows virtual-key codes of the letters: 'a' and 'A'
/// bind 0x41 (VK_A), each next letter the next code, and both cases of a
/// letter the same code; a digit binds its own character code.
pub proof fn lemma_letter_codes_are_virtual_keys()
    ensures
        char_code('a') == Some(0x41u16),
        char_code('A') == Some(0x41u16),
        forall|c: char|
            'a' <= c < 'z' ==> (#[trigger] char_code(c)) is Some && char_code((c as u32 + 1) as char) == Some(
                (char_code(c)->0 + 1) as u16,
            ),
        forall|c: char| 'A' <= c <= 'Z' ==> #[trigger] char_code(c) == char_code((c as u32 + 32) as char),
        forall|c: char| '0' <= c <= '9' ==> #[trigger] char_code(c) == Some(c as u16),
{
    assert forall|c: char| 'a' <= c < 'z' implies (#[trigger] char_code(c)) is Some && char_code(
        (c as u32 + 1) as char,
    ) == Some((char_code(c)->0 + 1) as u16) by {
        let d = (c as u32 + 1) as char;
        assert('a' <= d <= 'z');
    }
    assert forall|c: char| 'A' <= c <= 'Z' implies #[trigger] char_code(c) == char_code((c as u32 + 32) as char) by {
        let d = (c as u32 + 32) as char;
        assert('a' <= d <= 'z');
    }
}

/// A letter or digit code is shown as the character with that code.
pub proof fn lemma_letter_and_digit_names(code: u16)
    requires
        0x41 <= code <= 0x5A || 0x30 <= code <= 0x39,
    ensures
        code_name(code) == seq![code as char],
        code_name(code)[0] as u32 == code,
{
}

/// The value of an upper-case hex digit, -1 for any other character.
pub open spec fn hex_value(d: char) -> int {
    if '0' <= d <= '9' {
        d as int - '0' as int
    } else if 'A' <= d <= 'F' {
        d as int - 'A' as int + 10
    } else {
        -1
    }
}

/// The number that a string of hex digits writes.
pub open spec fn parse_hex(digits: Seq<char>) -> int
    decreases digits.len(),
{
    if digits.len() == 0 {
        0
    } else {
        parse_hex(digits.drop_last()) * 16 + hex_value(digits.last())
    }
}

proof fn lemma_hex_digits_read_back(n: nat)
    ensures
        parse_hex(hex_digits(n)) == n,
        forall|i: int| 0 <= i < hex_digits(n).len() ==> 0 <= #[trigger] hex_value(hex_digits(n)[i]) < 16,
        n > 0 ==> hex_digits(n)[0] != '0',
        hex_digits(n).len() >= 1,
    decreases n,
{
    assert(hex_value(hex_digit((n % 16) as int)) == n % 16);
    if n >= 16 {
        lemma_hex_digits_read_back(n / 16);
        let d = hex_digits(n);
        assert(d.last() == hex_digit((n % 16) as int));
        assert(parse_hex(d) == parse_hex(d.drop_last()) * 16 + hex_value(d.last()));
        assert(n == (n / 16) * 16 + n % 16);
        assert(d.drop_last() =~= hex_digits(n / 16));
        assert(d[0] == hex_digits(n / 16)[0]);
        assert forall|i: int| 0 <= i < d.len() implies 0 <= #[trigger] hex_value(d[i]) < 16 by {
            if i < d.len() - 1 {
                assert(d[i] == hex_digits(n / 16)[i]);
            }
        }
    } else {
        assert(hex_digits(n).drop_last() =~= Seq::<char>::empty());
        assert(hex_value(hex_digit(n as int)) == n);
        reveal_with_fuel(parse_hex, 2);
    }
}

/// A code without a name of its own is shown as "0x" and upper-case hex
/// digits that read back as the code: two digits below 0x10 (a leading
/// zero), otherwise as many as it needs, without leading zeros.
pub proof fn lemma_hex_names_read_back(code: u16)
    requires
        !has_name(code),
    ensures
        code_name(code).len() >= 4,
        code_name(code)[0] == '0' && code_name(code)[1] == 'x',
        parse_hex(code_name(code).subrange(2, code_name(code).len() as int)) == code,
        forall|i: int| 2 <= i < code_name(code).len() ==> 0 <= #[trigger] hex_value(code_name(code)[i]) < 16,
        code < 16 ==> code_name(code).len() == 4,
        code >= 16 ==> code_name(code)[2] != '0',
{
    lemma_hex_digits_read_back(code as nat);
    lemma_unnamed_codes_in_hex(code);
    let name = code_name(code);
    let digits = hex_two(code as nat);
    assert(name.subrange(2, name.len() as int) =~= digits);
    if code < 16 {
        assert(digits.drop_last() =~= seq!['0']);
        assert(seq!['0'].drop_last() =~= Seq::<char>::empty());
        reveal_with_fuel(parse_hex, 3);
        assert(hex_value(hex_digit(code as int)) == code);
    }
    assert forall|i: int| 2 <= i < name.len() implies 0 <= #[trigger] hex_value(name[i]) < 16 by {
        assert(name[i] == digits[i - 2]);
        if code >= 16 {
            assert(digits[i - 2] == hex_digits(code as nat)[i - 2]);
        }
    }
}

} // verus!
