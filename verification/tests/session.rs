use steamgiftsbot::SubmitError;
use steamgiftsbot::account::entry::Entry;
use steamgiftsbot::account::{Account, URL};
use steamgiftsbot::protocol::decode_enter_response;
use steamgiftsbot::steamgifts_acc;

#[test]
fn rejected_response_is_typed_and_non_fatal() {
    let r = decode_enter_response(200, r#"{"type":"error","msg":"Previously Won"}"#);
    assert_eq!(r, Err(SubmitError::Rejected(String::from("Previously Won"))));
}

#[test]
fn success_response_returns_server_balance() {
    let r = decode_enter_response(
        200,
        r#"{"type":"success","points":"285","entry_count":"238"}"#,
    );
    assert_eq!(r, Ok(285));
}

#[test]
fn non_200_status_fails_the_attempt() {
    let r = decode_enter_response(503, r#"{"type":"success","points":"285"}"#);
    assert_eq!(r, Err(SubmitError::StatusCode(503)));
}

#[test]
fn unknown_discriminator_is_reported_raw() {
    let r = decode_enter_response(200, r#"{"type":"throttled","points":"285"}"#);
    assert_eq!(r, Err(SubmitError::UnknownResponse(String::from("throttled"))));
}

#[test]
fn body_without_discriminator_is_malformed() {
    assert_eq!(
        decode_enter_response(200, "not json at all"),
        Err(SubmitError::MalformedResponse)
    );
    assert_eq!(
        decode_enter_response(200, r#"{"points":"285"}"#),
        Err(SubmitError::MalformedResponse)
    );
}

#[test]
fn success_without_numeric_balance_is_malformed() {
    assert_eq!(
        decode_enter_response(200, r#"{"type":"success"}"#),
        Err(SubmitError::MalformedResponse)
    );
    assert_eq!(
        decode_enter_response(200, r#"{"type":"success","points":"lots"}"#),
        Err(SubmitError::MalformedResponse)
    );
    assert_eq!(
        decode_enter_response(200, r#"{"type":"success","points":""}"#),
        Err(SubmitError::MalformedResponse)
    );
}

#[test]
fn rejection_without_message_still_rejects() {
    assert_eq!(
        decode_enter_response(200, r#"{"type":"error"}"#),
        Err(SubmitError::Rejected(String::new()))
    );
}

#[test]
fn session_is_built_from_landing_page_token() {
    let doc = r#"<html><body><form><input type="hidden" name="xsrf_token" value="f00dcafe42"></form></body></html>"#;
    let acc = Account::from_landing_page(String::from("cookievalue"), doc).unwrap();
    assert_eq!(acc.cookie_header(), "PHPSESSID=cookievalue");
}

#[test]
fn missing_token_means_invalid_cookie() {
    let doc = r#"<html><body><input type="hidden" name="xsrf_token"></body></html>"#;
    assert!(Account::from_landing_page(String::from("c"), doc).is_err());
    let doc2 = r#"<html><body>no token input</body></html>"#;
    assert!(Account::from_landing_page(String::from("c"), doc2).is_err());
}

#[test]
fn submission_body_carries_token_action_and_code() {
    let doc = r#"<html><body><input name="xsrf_token" value="tok123"></body></html>"#;
    let acc = Account::from_landing_page(String::from("c"), doc).unwrap();
    let ga = Entry {
        name: String::from("Some Game"),
        href: URL::href("/giveaway/IFesR/some-game"),
        price: 3,
        copies: 1,
        entries: 237,
        ends_in_secs: 60,
    };
    assert_eq!(
        acc.entry_post_body(&ga),
        "xsrf_token=tok123&do=entry_insert&code=IFesR"
    );
}

#[test]
fn urls_are_anchored_at_the_platform() {
    assert_eq!(URL::main().as_str(), "https://www.steamgifts.com/");
    assert_eq!(URL::post().as_str(), "https://www.steamgifts.com/ajax.php");
    assert_eq!(
        URL::href("/giveaway/IFesR/x").as_str(),
        "https://www.steamgifts.com/giveaway/IFesR/x"
    );
    assert_eq!(URL::new(String::from("https://www.steamgifts.com/q")).as_str(), "https://www.steamgifts.com/q");
}

#[test]
fn submission_record_exposes_its_parts() {
    let e = steamgifts_acc::entry::Entry::new(
        String::from("Some Game"),
        steamgifts_acc::URL::href("/giveaway/AbCdE/some-game"),
        12,
        2,
        40,
    );
    assert_eq!(e.get_code(), "AbCdE");
    assert_eq!(e.get_price(), 12);
    assert_eq!(
        e.get_href().as_str(),
        "https://www.steamgifts.com/giveaway/AbCdE/some-game"
    );
}
