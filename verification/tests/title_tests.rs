use robeats_bot::{contains_text, is_roblox_title};

fn utf16(s: &str) -> Vec<u16> {
    s.encode_utf16().collect()
}

#[test]
fn roblox_titles() {
    assert!(is_roblox_title(&utf16("Roblox")));
    assert!(is_roblox_title(&utf16("RoBLOX Studio")));
    assert!(is_roblox_title(&utf16("my roblox game")));
    assert!(!is_roblox_title(&utf16("Notepad")));
    assert!(!is_roblox_title(&utf16("robl ox")));
    assert!(!is_roblox_title(&[]));
}

#[test]
fn roblox_title_with_invalid_units() {
    let mut units = utf16("ROBLOX");
    units.insert(0, 0xD800);
    assert!(is_roblox_title(&units));
    units.insert(3, 0xDC00);
    assert!(!is_roblox_title(&units));
}

#[test]
fn text_search() {
    assert!(contains_text("abc", ""));
    assert!(contains_text("abc", "abc"));
    assert!(contains_text("xxabcxx", "bcx"));
    assert!(!contains_text("ab", "abc"));
    assert!(!contains_text("aBc", "abc"));
    assert!(contains_text("héllo wörld", "ö"));
}

#[test]
fn surrogate_pairs_decode() {
    // "ROBLOX" preceded by U+1D11E as a surrogate pair
    let mut units = vec![0xD834, 0xDD1E];
    units.extend(utf16("ROBLOX"));
    assert!(is_roblox_title(&units));
    // a lone low surrogate inside the word breaks it
    let mut broken = utf16("ROB");
    broken.push(0xDD1E);
    broken.extend(utf16("LOX"));
    assert!(!is_roblox_title(&broken));
}
