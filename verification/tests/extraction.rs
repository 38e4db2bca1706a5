use steamgiftsbot::ExtractError;
use steamgiftsbot::account::Account;
use steamgiftsbot::text;

const GIVEAWAY_HTML: &str = r#"<div class="giveaway__row-inner-wrap">
					<div class="giveaway__summary">
						<h2 class="giveaway__heading">
							<a class="giveaway__heading__name" href="/giveaway/IFesR/spandex-force-champion-rising">Spandex Force: Champion Rising</a><span class="giveaway__heading__thin">(3P)</span><a class="giveaway__icon" rel="nofollow noopener" target="_blank" href="https://store.steampowered.com/app/380560/"><i class="fa fa-steam"></i></a><a class="giveaway__icon" href="/giveaways/search?app=380560"><i class="fa fa-search"></i></a><i data-popup="popup--hide-games" class="giveaway__icon giveaway__hide trigger-popup fa fa-eye-slash"></i>
						</h2>
						<div class="giveaway__columns">
							<div><i class="fa fa-clock-o"></i> <span data-timestamp="1580325720">2 hours</span> remaining</div><div class="giveaway__column--width-fill text-right"><span data-timestamp="1580314999">27 minutes</span> ago by <a class="giveaway__username" href="/user/fanchiotti">fanchiotti</a></div></div>
							<div class="giveaway__links">
								<a href="/giveaway/IFesR/spandex-force-champion-rising/entries"><i class="fa fa-tag"></i> <span>237 entries</span></a>
								<a href="/giveaway/IFesR/spandex-force-champion-rising/comments"><i class="fa fa-comment"></i> <span>0 comments</span></a>
							</div>
						</div><a href="/user/fanchiotti" class="giveaway_image_avatar" style="background-image:url(https://steamcdn-a.akamaihd.net/steamcommunity/public/images/avatars/d2/d25f15d279f1085d316d89f61ff9c8fc1b626185_medium.jpg);"></a><a class="giveaway_image_thumbnail" style="background-image:url(https://steamcdn-a.akamaihd.net/steam/apps/380560/capsule_184x69.jpg);" href="/giveaway/IFesR/spandex-force-champion-rising"></a>
				</div>"#;

#[test]
fn extract_number() {
    let str_num = "QWE123ZXCC456";
    assert_eq!(text::extract_number(str_num).unwrap(), 123456);
}

#[test]
fn extract_number_no_numbers() {
    let str_num = "string with no numbers#@!#$%%^&*";
    assert_eq!(text::extract_number(str_num).is_err(), true);
}

#[test]
fn extract_number_exact_error() {
    assert_eq!(
        text::extract_number("no digits at all"),
        Err(ExtractError::NotNumeric)
    );
}

#[test]
fn extract_number_too_large() {
    assert_eq!(
        text::extract_number("totals 99999999999 points"),
        Err(ExtractError::NumberTooLarge)
    );
}

#[test]
fn extract_number_at_the_boundary() {
    assert_eq!(text::extract_number("4294967295").unwrap(), 4294967295u32);
    assert_eq!(
        text::extract_number("4294967296"),
        Err(ExtractError::NumberTooLarge)
    );
}

#[test]
fn select_name() {
    let name = Account::select_name(GIVEAWAY_HTML);
    assert_eq!(name.unwrap(), "Spandex Force: Champion Rising");
}

#[test]
fn select_entries() {
    let entries = Account::select_entries(GIVEAWAY_HTML);
    assert_eq!(entries.unwrap(), 237u32);
}

#[test]
fn select_href() {
    let href = Account::select_href(GIVEAWAY_HTML);
    assert_eq!(href.unwrap(), "/giveaway/IFesR/spandex-force-champion-rising");
}

#[test]
fn select_points() {
    let points = Account::select_points(GIVEAWAY_HTML);
    assert_eq!(points.unwrap(), 3u32);
}

#[test]
fn select_copies() {
    let copies = Account::select_copies(GIVEAWAY_HTML);
    assert_eq!(copies.unwrap(), 1u32);
}

#[test]
fn select_time_two_hours() {
    let secs = Account::select_time(GIVEAWAY_HTML);
    assert_eq!(secs.unwrap(), 7200u64);
}

#[test]
fn select_time_bad_duration() {
    let row = r#"<div class="giveaway__columns"><span data-timestamp="1">soon-ish maybe</span></div>"#;
    assert_eq!(Account::select_time(row), Err(ExtractError::BadDuration));
}

#[test]
fn select_name_missing_element() {
    assert_eq!(
        Account::select_name("<div>nothing here</div>"),
        Err(ExtractError::ElementMissing)
    );
}

#[test]
fn two_thin_spans_mean_copies_then_price() {
    let row = r#"<h2 class="giveaway__heading"><span class="giveaway__heading__thin">(5 Copies)</span><span class="giveaway__heading__thin">(30P)</span></h2>"#;
    assert_eq!(Account::select_copies(row).unwrap(), 5u32);
    assert_eq!(Account::select_points(row).unwrap(), 30u32);
}

#[test]
fn one_thin_span_means_price_only() {
    let row = r#"<h2 class="giveaway__heading"><span class="giveaway__heading__thin">(15P)</span></h2>"#;
    assert_eq!(Account::select_copies(row).unwrap(), 1u32);
    assert_eq!(Account::select_points(row).unwrap(), 15u32);
}

fn listing_page() -> String {
    format!(
        r#"<html><body><div class="giveaway__row-outer-wrap" data-game-id="380560">{}</div></body></html>"#,
        GIVEAWAY_HTML
    )
}

#[test]
fn fixture_block_yields_full_record() {
    let doc = listing_page();
    let records = Account::parse_giveaways(&doc).unwrap();
    assert_eq!(records.len(), 1);
    let r = &records[0];
    assert_eq!(r.name, "Spandex Force: Champion Rising");
    assert_eq!(r.price, 3);
    assert_eq!(r.copies, 1);
    assert_eq!(r.entries, 237);
    assert_eq!(r.ends_in_secs, 7200);
    assert_eq!(
        r.href.as_str(),
        "https://www.steamgifts.com/giveaway/IFesR/spandex-force-champion-rising"
    );
    assert_eq!(r.get_code(), "IFesR");
}

#[test]
fn extraction_is_idempotent() {
    let doc = listing_page();
    let first = Account::parse_giveaways(&doc).unwrap();
    let second = Account::parse_giveaways(&doc).unwrap();
    assert_eq!(first, second);
}

#[test]
fn malformed_path_aborts_page() {
    let doc = r#"<div class="giveaway__row-outer-wrap" data-game-id="1"><div class="giveaway__row-inner-wrap"><h2 class="giveaway__heading"><a class="giveaway__heading__name" href="/g/x">Short</a><span class="giveaway__heading__thin">(3P)</span></h2><div class="giveaway__columns"><span data-timestamp="1">2 hours</span></div><div class="giveaway__links"><a href="/g/x/entries"><span>9 entries</span></a></div></div></div>"#;
    assert_eq!(
        Account::parse_giveaways(doc),
        Err(ExtractError::MalformedPath)
    );
}

#[test]
fn missing_required_element_aborts_page() {
    // a row without the entries counter is a hard failure for the page
    let doc = r#"<div class="giveaway__row-outer-wrap" data-game-id="1"><div class="giveaway__row-inner-wrap"><h2 class="giveaway__heading"><a class="giveaway__heading__name" href="/giveaway/AbCdE/some-game">Some Game</a><span class="giveaway__heading__thin">(3P)</span></h2><div class="giveaway__columns"><span data-timestamp="1">2 hours</span></div></div></div>"#;
    assert_eq!(
        Account::parse_giveaways(doc),
        Err(ExtractError::ElementMissing)
    );
}

#[test]
fn empty_name_aborts_page() {
    let doc = r#"<div class="giveaway__row-outer-wrap" data-game-id="1"><div class="giveaway__row-inner-wrap"><h2 class="giveaway__heading"><a class="giveaway__heading__name" href="/giveaway/AbCdE/some-game"></a><span class="giveaway__heading__thin">(3P)</span></h2><div class="giveaway__columns"><span data-timestamp="1">2 hours</span></div><div class="giveaway__links"><a href="/giveaway/AbCdE/some-game/entries"><span>9 entries</span></a></div></div></div>"#;
    assert_eq!(Account::parse_giveaways(doc), Err(ExtractError::EmptyName));
}

#[test]
fn zero_copies_aborts_page() {
    let doc = r#"<div class="giveaway__row-outer-wrap" data-game-id="1"><div class="giveaway__row-inner-wrap"><h2 class="giveaway__heading"><a class="giveaway__heading__name" href="/giveaway/AbCdE/some-game">Some Game</a><span class="giveaway__heading__thin">(0 Copies)</span><span class="giveaway__heading__thin">(30P)</span></h2><div class="giveaway__columns"><span data-timestamp="1">2 hours</span></div><div class="giveaway__links"><a href="/giveaway/AbCdE/some-game/entries"><span>9 entries</span></a></div></div></div>"#;
    assert_eq!(Account::parse_giveaways(doc), Err(ExtractError::ZeroCopies));
}

#[test]
fn long_wordy_time_text_parses() {
    let row = r#"<div class="giveaway__columns"><span data-timestamp="1">2 hours 30 minutes 5 seconds</span></div>"#;
    assert_eq!(Account::select_time(row), Ok(9005));
}

#[test]
fn digit_heavy_time_text_is_rejected() {
    // more digits than any remaining-time span carries; kept away from the
    // duration parser
    let row = r#"<div class="giveaway__columns"><span data-timestamp="1">111222333444555 seconds</span></div>"#;
    assert_eq!(Account::select_time(row), Err(ExtractError::BadDuration));
}

#[test]
fn balance_is_read_from_indicator() {
    let doc = r#"<html><body><span class="nav__points">1,234</span></body></html>"#;
    assert_eq!(Account::extract_balance(doc).unwrap(), 1234u32);
}

#[test]
fn balance_missing_indicator() {
    assert_eq!(
        Account::extract_balance("<html><body></body></html>"),
        Err(ExtractError::ElementMissing)
    );
}
