use twelve_client::apicalls::headermap::{
    assemble_headers, dotenvreader, env_lookup, headermap, signed_headers,
};
use twelve_client::error::ErrorKind;

const ENV: &str = "# credentials\npublickey=\"pk123\"\nprivatekey=secret\nclientid=42\n";

#[test]
fn reads_plain_and_quoted_values() {
    assert_eq!(dotenvreader("privatekey".to_string(), ENV), Ok("secret".to_string()));
    assert_eq!(dotenvreader("publickey".to_string(), ENV), Ok("pk123".to_string()));
    assert_eq!(dotenvreader("clientid".to_string(), ENV), Ok("42".to_string()));
}

#[test]
fn missing_name_is_not_found() {
    assert_eq!(dotenvreader("OS".to_string(), ENV), Err(ErrorKind::NotFound));
    assert_eq!(dotenvreader("publickey".to_string(), ""), Err(ErrorKind::NotFound));
}

#[test]
fn comments_and_empty_values_are_skipped() {
    let env = "#a=commented\na=\na=second\na=third";
    assert_eq!(dotenvreader("a".to_string(), env), Ok("second".to_string()));
    let env = "   #a=1\n";
    assert_eq!(dotenvreader("   #a".to_string(), env), Ok("1".to_string()));
}

#[test]
fn same_name_same_text_same_answer() {
    let name = "privatekey".to_string();
    let again = String::from("private") + "key";
    assert_eq!(dotenvreader(name, ENV), dotenvreader(again, ENV));
    assert_eq!(dotenvreader("OS".to_string(), ENV), dotenvreader("OS".to_string(), ENV));
}

#[test]
fn first_definition_wins() {
    let a = "x=1\ny=2\n";
    let b = "x=3\n";
    let joined = format!("{a}{b}");
    assert_eq!(dotenvreader("x".to_string(), &joined), dotenvreader("x".to_string(), a));
}

#[test]
fn comment_line_changes_nothing() {
    let rest = "k=v\n";
    let with_comment = format!("#k=other\n{rest}");
    assert_eq!(dotenvreader("k".to_string(), &with_comment), dotenvreader("k".to_string(), rest));
}

#[test]
fn value_keeps_later_equal_signs_and_line_endings() {
    assert_eq!(dotenvreader("url".to_string(), "url=a=b\r\n"), Ok("a=b".to_string()));
    assert_eq!(dotenvreader("url".to_string(), "url=a=b\r"), Ok("a=b\r".to_string()));
    assert_eq!(dotenvreader("q".to_string(), "q=\"\"\n"), Ok("".to_string()));
    assert_eq!(dotenvreader("q".to_string(), "q=\"a\n"), Ok("\"a".to_string()));
}

#[test]
fn lookup_returns_raw_entry() {
    assert_eq!(env_lookup("publickey", ENV), Some("\"pk123\"".to_string()));
    assert_eq!(env_lookup("q", "q=\"\n"), Some("\"".to_string()));
    assert_eq!(env_lookup("nothing", ENV), None);
}

#[test]
fn assembled_headers_uppercase_the_digest() {
    let h = assemble_headers(
        "pk".to_string(),
        "2024123112345678901234567890abcdefghij".to_string(),
        "92540d6edd765750dbe957bdb0afc2812cbc6eae0b37c09385080dd2ad1419b5".to_string(),
        "cid".to_string(),
    )
    .unwrap();
    assert_eq!(h.accept, "text/plain");
    assert_eq!(h.public_api_key, "pk");
    assert_eq!(h.request_token, "2024123112345678901234567890abcdefghij");
    assert_eq!(h.request_signature, "92540D6EDD765750DBE957BDB0AFC2812CBC6EAE0B37C09385080DD2AD1419B5");
    assert_eq!(h.client_id, "cid");
    let names: Vec<String> = h.entries().into_iter().map(|(n, _)| n).collect();
    assert_eq!(names, vec!["accept", "PublicAPIKey", "RequestToken", "RequestSignature", "ClientId", "Content-Type"]);
    assert_eq!(h.content_type, "application/json");
    assert_eq!(h.entries()[3].1, h.request_signature);
}

#[test]
fn header_values_that_cannot_be_sent_are_invalid_data() {
    let r = assemble_headers("p\nk".to_string(), "t".to_string(), "ab".to_string(), "c".to_string());
    assert_eq!(r.err(), Some(ErrorKind::InvalidData));
    let r = assemble_headers("pk".to_string(), "t".to_string(), "ab".to_string(), "c\u{7f}".to_string());
    assert_eq!(r.err(), Some(ErrorKind::InvalidData));
    let r = assemble_headers("pk\té".to_string(), "t".to_string(), "ab".to_string(), "c".to_string());
    assert!(r.is_ok());
}

#[test]
fn headermap_signs_path_token_and_private_key() {
    let h = headermap("/api/v1/Tokens".to_string(), ENV).unwrap();
    assert_eq!(h.accept, "text/plain");
    assert_eq!(h.public_api_key, "pk123");
    assert_eq!(h.client_id, "42");
    assert_eq!(h.content_type, "application/json");
    let token = h.request_token.clone();
    assert_eq!(token.len(), 38);
    let month: u32 = token[4..6].parse().unwrap();
    let day: u32 = token[6..8].parse().unwrap();
    assert!((1..=12).contains(&month) && (1..=31).contains(&day));
    let (date, random) = token.split_at(token.len() - 30);
    assert!(!date.is_empty());
    assert!(date.chars().all(|c| c.is_ascii_digit() || c == '+' || c == '-'));
    assert!(random.chars().all(|c| c.is_ascii_alphanumeric()));
    let expected = sha256::digest(format!("/api/v1/Tokens{token}secret")).to_ascii_uppercase();
    assert_eq!(h.request_signature, expected);
    assert_eq!(h.request_signature.len(), 64);
    assert!(h.request_signature.chars().all(|c| c.is_ascii_digit() || ('A'..='F').contains(&c)));
}

#[test]
fn headermap_tokens_differ_between_calls() {
    let a = headermap("/api/v1/Users".to_string(), ENV).unwrap();
    let b = headermap("/api/v1/Users".to_string(), ENV).unwrap();
    assert_ne!(a.request_token, b.request_token);
}

#[test]
fn headermap_refuses_a_client_id_a_header_cannot_carry() {
    let env = "publickey=pk\nprivatekey=k\nclientid=a\u{1}b\n";
    assert_eq!(headermap("/x".to_string(), env).err(), Some(ErrorKind::InvalidData));
}

#[test]
fn lines_for_other_names_change_nothing() {
    let rest = "k=v\n";
    for line in ["other=1", "k=", "no equals sign", "", "kk=2", " k=3"] {
        let text = format!("{line}\n{rest}");
        assert_eq!(dotenvreader("k".to_string(), &text), Ok("v".to_string()), "line {:?}", line);
    }
}

#[test]
fn signed_headers_join_stamp_and_random_part() {
    let h = signed_headers(
        "/api/v1/Tokens".to_string(),
        "20241231".to_string(),
        "12345678901234567890abcdefghij".to_string(),
        "pk".to_string(),
        "secret".to_string(),
        "cid".to_string(),
    )
    .unwrap();
    assert_eq!(h.request_token, "2024123112345678901234567890abcdefghij");
    assert_eq!(h.request_signature, "92540D6EDD765750DBE957BDB0AFC2812CBC6EAE0B37C09385080DD2AD1419B5");
    assert_eq!(h.public_api_key, "pk");
    assert_eq!(h.client_id, "cid");
    let bad = signed_headers("/x".to_string(), "2024".to_string(), "a\nb".to_string(), "pk".to_string(), "k".to_string(), "c".to_string());
    assert_eq!(bad.err(), Some(ErrorKind::InvalidData));
}
