use vstd::prelude::*;
use vstd::string::StrSliceExecFns;

verus! {

pub open spec fn is_high_surrogate(u: u16) -> bool {
    0xD800 <= u <= 0xDBFF
}

pub open spec fn is_low_surrogate(u: u16) -> bool {
    0xDC00 <= u <= 0xDFFF
}

/// UTF-16 decoding that puts U+FFFD in place of each unpaired surrogate: a
/// unit that is no surrogate is its own character; a high surrogate
/// followed by a low one makes one character; any other surrogate is
/// replaced.
pub open spec fn utf16_lossy(units: Seq<u16>) -> Seq<char>
    decreases units.len(),
{
    if units.len() == 0 {
        seq![]
    } else if !is_high_surrogate(units[0]) && !is_low_surrogate(units[0]) {
        seq![units[0] as char] + utf16_lossy(units.drop_first())
    } else if is_high_surrogate(units[0]) && units.len() > 1 && is_low_surrogate(units[1]) {
        seq![(0x10000 + (units[0] - 0xD800) * 0x400 + (units[1] - 0xDC00)) as char] + utf16_lossy(
            units.subrange(2, units.len() as int),
        )
    } else {
        seq!['\u{FFFD}'] + utf16_lossy(units.drop_first())
    }
}

/// All characters of the text are ASCII.
pub open spec fn is_ascii_text(text: Seq<char>) -> bool {
    forall|i: int| 0 <= i < text.len() ==> (#[trigger] text[i]) as u32 <= 0x7F
}

/// An ASCII character in lower case: A-Z become a-z, the rest stay.
pub open spec fn ascii_lower_char(c: char) -> char {
    if 'A' <= c <= 'Z' {
        (c as u32 + 32) as char
    } else {
        c
    }
}

/// The text with A-Z lower-cased.
pub open spec fn ascii_lowercase(text: Seq<char>) -> Seq<char> {
    text.map_values(|c: char| ascii_lower_char(c))
}

/// What `str::to_lowercase` returns for this text.
pub uninterp spec fn lowercase(text: Seq<char>) -> Seq<char>;

/// `String::from_utf16_lossy`: decodes UTF-16, putting U+FFFD in place of
/// each unpaired surrogate, as `utf16_lossy` says.
#[verifier::external_body]
fn decode_utf16_lossy(units: &[u16]) -> (text: String)
    ensures
        text@ == utf16_lossy(units@),
{
    String::from_utf16_lossy(units)
}

/// `str::to_lowercase`: the Unicode lower-case form of the text. Its result
/// is named (`lowercase`); of it only the ASCII case is stated, where the
/// Unicode lower-case mapping turns A-Z into a-z and keeps every other
/// character. What it does to other characters is left unsaid.
#[verifier::external_body]
fn to_lowercase(text: &str) -> (lower: String)
    ensures
        lower@ == lowercase(text@),
        is_ascii_text(text@) ==> lower@ == ascii_lowercase(text@),
{
    text.to_lowercase()
}

/// `pattern` occurs in `text`.
pub open spec fn occurs_in(pattern: Seq<char>, text: Seq<char>) -> bool {
    exists|k: int| 0 <= k && k + pattern.len() <= text.len() && #[trigger] text.subrange(k, k + pattern.len()) == pattern
}

fn chars_of(text: &str) -> (chars: Vec<char>)
    ensures
        chars@ == text@,
{
    let n = text.unicode_len();
    let mut chars: Vec<char> = Vec::new();
    for i in 0..n
        invariant
            n == text@.len(),
            chars@ == text@.take(i as int),
    {
        chars.push(text.get_char(i));
        assert(chars@ =~= text@.take(i + 1));
    }
    assert(text@.take(n as int) =~= text@);
    chars
}

fn matches_at(text: &Vec<char>, pattern: &Vec<char>, k: usize) -> (r: bool)
    requires
        k + pattern@.len() <= text@.len(),
    ensures
        r == (text@.subrange(k as int, k + pattern@.len()) == pattern@),
{
    let p = pattern.len();
    for i in 0..p
        invariant
            p == pattern@.len(),
            k + p <= text.len(),
            forall|j: int| 0 <= j < i ==> text@[k + j] == pattern@[j],
    {
        if text[k + i] != pattern[i] {
            assert(text@.subrange(k as int, k + p)[i as int] != pattern@[i as int]);
            return false;
        }
    }
    assert(text@.subrange(k as int, k + p) =~= pattern@);
    true
}

/// Whether `pattern` occurs in `text`.
pub fn contains_text(text: &str, pattern: &str) -> (r: bool)
    ensures
        r == occurs_in(pattern@, text@),
{
    let t = chars_of(text);
    let p = chars_of(pattern);
    if p.len() > t.len() {
        return false;
    }
    let last = t.len() - p.len();
    let mut k: usize = 0;
    while k <= last
        invariant
            t@ == text@,
            p@ == pattern@,
            last + p@.len() == t@.len(),
            k <= last,
            forall|j: int| 0 <= j < k ==> #[trigger] t@.subrange(j, j + p@.len()) != p@,
        ensures
            forall|j: int| 0 <= j <= last ==> #[trigger] t@.subrange(j, j + p@.len()) != p@,
        decreases last + 1 - k,
    {
        if matches_at(&t, &p, k) {
            return true;
        }
        if k == last {
            break;
        }
        k = k + 1;
    }
    assert forall|j: int| 0 <= j && j + p@.len() <= t@.len() implies #[trigger] t@.subrange(j, j + p@.len()) != p@ by {
        assert(j <= last);
    }
    false
}

/// Whether a window title, as the lower-cased text of its UTF-16 units,
/// names the game: it contains "roblox".
pub fn is_roblox_title(units: &[u16]) -> (r: bool)
    ensures
        r == occurs_in("roblox"@, lowercase(utf16_lossy(units@))),
        is_ascii_text(utf16_lossy(units@)) ==> r == occurs_in("roblox"@, ascii_lowercase(utf16_lossy(units@))),
{
    let title = decode_utf16_lossy(units);
    let lower = to_lowercase(title.as_str());
    contains_text(lower.as_str(), "roblox")
}

/// A pattern occurs in a text exactly when the text is some text, the
/// pattern, and some more text.
pub proof fn lemma_occurs_in_means_split(pattern: Seq<char>, before: Seq<char>, after: Seq<char>, text: Seq<char>)
    ensures
        occurs_in(pattern, before + pattern + after),
        occurs_in(pattern, text) ==> exists|a: Seq<char>, b: Seq<char>| text == a + pattern + b,
        pattern.len() > text.len() ==> !occurs_in(pattern, text),
{
    let t = before + pattern + after;
    let k = before.len() as int;
    assert(t.subrange(k, k + pattern.len()) =~= pattern);
    if occurs_in(pattern, text) {
        let j = choose|j: int|
            0 <= j && j + pattern.len() <= text.len() && #[trigger] text.subrange(j, j + pattern.len()) == pattern;
        let a = text.subrange(0, j);
        let b = text.subrange(j + pattern.len(), text.len() as int);
        assert(text =~= a + pattern + b);
    }
}

/// UTF-16 units below 0x80 decode to the ASCII characters with those
/// codes, one character per unit.
pub proof fn lemma_ascii_units_decode_to_themselves(units: Seq<u16>)
    requires
        forall|i: int| 0 <= i < units.len() ==> #[trigger] units[i] < 0x80,
    ensures
        utf16_lossy(units).len() == units.len(),
        forall|i: int| 0 <= i < units.len() ==> #[trigger] utf16_lossy(units)[i] as u32 == units[i],
        is_ascii_text(utf16_lossy(units)),
    decreases units.len(),
{
    if units.len() > 0 {
        let rest = units.drop_first();
        assert forall|i: int| 0 <= i < rest.len() implies #[trigger] rest[i] < 0x80 by {
            assert(rest[i] == units[i + 1]);
        }
        lemma_ascii_units_decode_to_themselves(rest);
        let d = utf16_lossy(units);
        assert(units[0] < 0x80);
        assert(d == seq![units[0] as char] + utf16_lossy(rest));
        assert forall|i: int| 0 <= i < units.len() implies #[trigger] d[i] as u32 == units[i] by {
            if i > 0 {
                assert(d[i] == utf16_lossy(rest)[i - 1]);
                assert(rest[i - 1] == units[i]);
            }
        }
        assert forall|i: int| 0 <= i < d.len() implies (#[trigger] d[i]) as u32 <= 0x7F by {
            assert(d[i] as u32 == units[i]);
        }
    }
}

} // verus!
