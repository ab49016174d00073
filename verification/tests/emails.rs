use agentlb::accounts::{
    decode_base64, email_of, is_email, list_accounts, read_claims, resolve_email, session_email,
    Account,
};
use agentlb::error::ErrorKind;
use agentlb::json::parse_json;
use agentlb::state::Store;

fn account(alias: &str, email: Option<&str>) -> Account {
    Account { alias: alias.to_string(), email: email.map(|e| e.to_string()) }
}

#[test]
fn base64_is_decoded() {
    assert_eq!(decode_base64("").unwrap(), b"");
    assert_eq!(decode_base64("TQ").unwrap(), b"M");
    assert_eq!(decode_base64("TWE").unwrap(), b"Ma");
    assert_eq!(decode_base64("TWFu").unwrap(), b"Man");
    assert_eq!(decode_base64("aGVsbG8gd29ybGQ").unwrap(), b"hello world");
    assert_eq!(decode_base64("-_-_").unwrap(), vec![0xfb, 0xff, 0xbf]);
    assert!(decode_base64("T").is_none());
    assert!(decode_base64("TWFuT").is_none());
    assert!(decode_base64("TQ==").is_none());
    assert!(decode_base64("+/+/").is_none());
}

#[test]
fn emails_are_read_from_the_metadata() {
    // {"email":"a@b.c"}
    let token = "e30.eyJlbWFpbCI6ImFAYi5jIn0.sig";
    let auth = format!("{{\"tokens\":{{\"id_token\":\"{}\"}},\"email\":\"other@b.c\"}}", token);
    assert_eq!(session_email(Some(&auth)).as_deref(), Some("a@b.c"));
    assert_eq!(session_email(Some("{\"email\":\"x@y.z\"}")).as_deref(), Some("x@y.z"));
    let broken = "{\"tokens\":{\"id_token\":\"no token\"},\"email\":\"x@y.z\"}";
    assert_eq!(session_email(Some(broken)).as_deref(), Some("x@y.z"));
    assert_eq!(session_email(Some("{\"tokens\":{}}")), None);
    assert_eq!(session_email(Some("not json")), None);
    assert_eq!(session_email(None), None);
    assert_eq!(email_of(&parse_json("{\"email\":3}").unwrap()), None);
}

#[test]
fn claims_stand_between_the_dots() {
    assert!(read_claims("a.e30.b").is_some());
    assert!(read_claims("a.e30.b.c").is_some());
    assert!(read_claims("a.e30").is_none());
    assert!(read_claims("e30").is_none());
    assert!(read_claims("..").is_none());
    assert!(read_claims("a.__79.b").is_none());
}

#[test]
fn emails_are_matched_without_case() {
    let accounts =
        vec![account("a", Some("One@Mail.com")), account("b", None), account("c", Some("two@mail.com"))];
    assert_eq!(resolve_email("one@mail.COM", &accounts).unwrap(), "a");
    assert_eq!(resolve_email("two@mail.com", &accounts).unwrap(), "c");
    let e = resolve_email("thr@mail.com", &accounts).unwrap_err();
    assert_eq!(e.kind, ErrorKind::NotFound);
    let twice = vec![account("a", Some("x@y")), account("b", Some("X@Y"))];
    let e = resolve_email("x@y", &twice).unwrap_err();
    assert_eq!(e.kind, ErrorKind::InvalidInput);
    assert!(e.message.contains("a, b"));
    assert!(is_email("a@b"));
    assert!(!is_email("work"));
}

#[test]
fn sessions_are_listed_with_email_and_path() {
    let st = Store::new(Some("/home/u")).unwrap();
    let lines = list_accounts(&st, &vec![account("a", Some("x@y")), account("b", None)]);
    assert_eq!(
        lines,
        vec!["a\tx@y\t/home/u/.agentlb/sessions/a", "b\t-\t/home/u/.agentlb/sessions/b"]
    );
}
