use twelve_client::apicalls::headermap::{dotenvreader, env_lookup};
use twelve_client::text::trim;

/// The reading rule written directly with `str::lines` and `splitn`, as an
/// independent reference.
fn reference(content: &str, name: &str) -> Option<String> {
    let mut token = String::new();
    for line in content.lines() {
        if line.starts_with('#') {
            continue;
        }
        let parts: Vec<&str> = line.splitn(2, '=').collect();
        if parts.len() == 2 && parts[0] == name && !parts[1].is_empty() {
            token = parts[1].to_string();
            break;
        }
    }
    if token.is_empty() {
        return None;
    }
    if token.ends_with('"') && token.starts_with('"') {
        token.pop();
        token.remove(0);
    }
    Some(token)
}

#[test]
fn reader_agrees_with_std_lines_on_all_short_texts() {
    let alphabet = ['a', '=', '#', '"', '\r', '\n', 'b'];
    let mut checked = 0;
    for len in 0..=6u32 {
        let total = alphabet.len().pow(len);
        for mut code in 0..total {
            let mut s = String::new();
            for _ in 0..len {
                s.push(alphabet[code % alphabet.len()]);
                code /= alphabet.len();
            }
            for name in ["a", "b", "#a", "", "a=b"] {
                if env_lookup(name, &s).as_deref() == Some("\"") {
                    continue;
                }
                let got = dotenvreader(name.to_string(), &s).ok();
                assert_eq!(got, reference(&s, name), "text {:?} name {:?}", s, name);
                checked += 1;
            }
        }
    }
    assert!(checked > 100_000);
}

#[test]
fn trim_agrees_with_std_on_every_character() {
    for u in 0..=0x10FFFFu32 {
        if let Some(c) = char::from_u32(u) {
            let s = format!("{c}x{c}{c}");
            assert_eq!(trim(&s), s.trim(), "character U+{:04X}", u);
        }
    }
}
