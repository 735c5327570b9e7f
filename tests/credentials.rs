use git_lib::Credentials;

fn some(s: &str) -> Option<String> {
    Some(s.to_string())
}

#[test]
fn first_equals_sign_splits() {
    let c = Credentials::parse("password=abc=def");
    assert_eq!(c.password(), &some("abc=def"));
}

#[test]
fn last_write_wins() {
    let c = Credentials::parse("username=a\nusername=b");
    assert_eq!(c.username(), &some("b"));
}

#[test]
fn empty_input_is_all_absent() {
    let c = Credentials::parse("");
    assert_eq!(c.protocol(), &None);
    assert_eq!(c.host(), &None);
    assert_eq!(c.path(), &None);
    assert_eq!(c.username(), &None);
    assert_eq!(c.password(), &None);
    assert_eq!(c.password_expiry_utc(), &None);
    assert_eq!(c.oauth_refresh_token(), &None);
    assert_eq!(c.url(), &None);
    assert!(c.wwwauth().is_none());
    assert_eq!(c.to_string(), "");
}

#[test]
fn unknown_keys_and_lines_without_equals_are_skipped() {
    let c = Credentials::parse("capability[]=authtype\nhost=example.com\nnonsense\n\nHost=x\nquit=1\n");
    assert_eq!(c.host(), &some("example.com"));
    assert_eq!(c.to_string(), "host=example.com\n");
}

#[test]
fn parse_reads_every_known_key() {
    let c = Credentials::parse(
        "url=u\noauth_refresh_token=o\npassword_expiry_utc=1700000000\npassword=p\nusername=n\npath=a/b\nhost=h\nprotocol=https\n",
    );
    assert_eq!(c.protocol(), &some("https"));
    assert_eq!(c.host(), &some("h"));
    assert_eq!(c.path(), &some("a/b"));
    assert_eq!(c.username(), &some("n"));
    assert_eq!(c.password(), &some("p"));
    assert_eq!(c.password_expiry_utc(), &some("1700000000"));
    assert_eq!(c.oauth_refresh_token(), &some("o"));
    assert_eq!(c.url(), &some("u"));
}

#[test]
fn serialize_uses_fixed_order_and_skips_absent() {
    let c = Credentials::parse(
        "url=u\noauth_refresh_token=o\npassword_expiry_utc=1700000000\npassword=p\nusername=n\npath=a/b\nhost=h\nprotocol=https\n",
    );
    assert_eq!(
        c.to_string(),
        "protocol=https\nhost=h\npath=a/b\nusername=n\npassword=p\npassword_expiry_utc=1700000000\noauth_refresh_token=o\nurl=u\n"
    );
    assert_eq!(Credentials::with_url("http://x").to_string(), "url=http://x\n");
}

#[test]
fn round_trip_keeps_fields() {
    let text = "protocol=https\nhost=h\nusername=\npassword=a=b\nurl=https://h/\n";
    let c = Credentials::parse(text);
    assert_eq!(c.to_string(), text);
    let again = Credentials::parse(&c.to_string());
    assert_eq!(again.protocol(), c.protocol());
    assert_eq!(again.host(), c.host());
    assert_eq!(again.path(), &None);
    assert_eq!(again.username(), &some(""));
    assert_eq!(again.password(), &some("a=b"));
    assert_eq!(again.url(), c.url());

    let c = Credentials::with_url_username_password("https://e.com", "user", "secret");
    let back = Credentials::parse(&c.to_string());
    assert_eq!(back.url(), &some("https://e.com"));
    assert_eq!(back.username(), &some("user"));
    assert_eq!(back.password(), &some("secret"));
    assert_eq!(back.protocol(), &None);
}

#[test]
fn absent_differs_from_empty() {
    let c = Credentials::parse("username=\n");
    assert_eq!(c.username(), &some(""));
    assert_eq!(c.password(), &None);
}

#[test]
fn constructors_set_only_their_fields() {
    let c = Credentials::with_url("http://example.com");
    assert_eq!(c.url(), &some("http://example.com"));
    assert_eq!(c.username(), &None);
    let c = Credentials::with_url_username_password("u", "n", "p");
    assert_eq!(c.url(), &some("u"));
    assert_eq!(c.username(), &some("n"));
    assert_eq!(c.password(), &some("p"));
    assert_eq!(c.host(), &None);
    let e = Credentials::empty();
    assert_eq!(e.url(), &None);
}

#[test]
fn non_ascii_values_are_kept() {
    let c = Credentials::parse("username=j\u{f6}rg\npassword=\u{1f511}=x");
    assert_eq!(c.username(), &some("j\u{f6}rg"));
    assert_eq!(c.password(), &some("\u{1f511}=x"));
}
