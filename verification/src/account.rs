//! The authenticated account: session values, the extraction layer that
//! turns the platform's pages into records, and the decoder for the
//! submission endpoint's answers.

use vstd::prelude::*;

pub mod entry;

verus! {

use crate::{AuthError, ExtractError};
use crate::account::entry::{Entry, EntryV, code_of, record_valid, CODE_END};
use crate::markup::{fragments_of, inner_htmls_of, attr_values_of, texts_of};
use crate::markup::{select_fragments, select_inner_htmls, select_attr_values, select_texts};
use crate::text::{spec_extract_number, extract_number};

/// The browser-like identification sent with every request so that the
/// platform's normal traffic validation passes.  A configuration constant,
/// not computed state.
pub const USER_AGENT: &'static str =
    "Mozilla/5.0 (Windows NT 10.0; Win64; x64; rv:73.0) Gecko/20100101 Firefox/73.0";

/// The platform's origin; every canonical URL starts with it.
pub const URL_ORIGIN: &'static str = "https://www.steamgifts.com";

/// The landing page, which carries the listing, the balance indicator and
/// the anti-forgery token.
pub const URL_MAIN: &'static str = "https://www.steamgifts.com/";

/// The fixed endpoint that receives submission requests.
pub const URL_POST: &'static str = "https://www.steamgifts.com/ajax.php";

/// An absolute URL on the platform.
#[derive(Debug, Clone, PartialEq, Eq)]
pub struct URL {
    url_string: String,
}

impl View for URL {
    type V = Seq<char>;

    closed spec fn view(&self) -> Seq<char> {
        self.url_string@
    }
}

impl URL {
    /// The landing page's URL.
    pub fn main() -> (r: URL)
        ensures
            r@ == URL_MAIN@,
    {
        URL::new(String::from_str(URL_MAIN))
    }

    /// The canonical URL for a path on the platform.
    pub fn href(path: &str) -> (r: URL)
        ensures
            r@ == URL_ORIGIN@ + path@,
    {
        let mut s = String::from_str(URL_ORIGIN);
        s.append(path);
        URL::new(s)
    }

    /// The submission endpoint's URL.
    pub fn post() -> (r: URL)
        ensures
            r@ == URL_POST@,
    {
        URL::new(String::from_str(URL_POST))
    }

    /// Wraps an already absolute URL string.
    pub fn new(url_string: String) -> (r: URL)
        ensures
            r@ == url_string@,
    {
        URL { url_string }
    }

    /// The URL as text.
    pub fn as_str(&self) -> (r: &str)
        ensures
            r@ == self@,
    {
        self.url_string.as_str()
    }
}

/// One giveaway row inside the listing page.
pub const ROW_SELECTOR: &'static str =
    "div.giveaway__row-outer-wrap[data-game-id] div[class=giveaway__row-inner-wrap]";

/// The heading anchor holding the display name.
pub const NAME_SELECTOR: &'static str = "a.giveaway__heading__name";

/// The heading anchor holding the canonical path.
pub const HREF_SELECTOR: &'static str = "h2.giveaway__heading a.giveaway__heading__name[href]";

/// The thin annotation spans holding copy count and price.
pub const THIN_SELECTOR: &'static str = "h2.giveaway__heading span.giveaway__heading__thin";

/// The entries counter inside the row's links block.
pub const ENTRIES_SELECTOR: &'static str = "div.giveaway__links a[href] span";

/// The timestamp-bearing spans inside the row's columns block.
pub const TIME_SELECTOR: &'static str = ".giveaway__columns span[data-timestamp]";

/// The account's balance indicator.
pub const POINTS_SELECTOR: &'static str = "span.nav__points";

/// The hidden input carrying the anti-forgery token.
pub const XSRF_SELECTOR: &'static str = "input[name=\"xsrf_token\"]";

/// The display name of a giveaway row: the first heading anchor's inner
/// markup.
pub open spec fn spec_select_name(el: Seq<char>) -> Result<Seq<char>, ExtractError> {
    match inner_htmls_of(el, NAME_SELECTOR@) {
        Option::None => Err(ExtractError::SelectorInvalid),
        Option::Some(l) => if l.len() == 0 {
            Err(ExtractError::ElementMissing)
        } else {
            Ok(l[0])
        },
    }
}

/// The canonical path of a giveaway row: the first heading anchor's `href`.
pub open spec fn spec_select_href(el: Seq<char>) -> Result<Seq<char>, ExtractError> {
    match attr_values_of(el, HREF_SELECTOR@, "href"@) {
        Option::None => Err(ExtractError::SelectorInvalid),
        Option::Some(l) => if l.len() == 0 {
            Err(ExtractError::ElementMissing)
        } else {
            match l[0] {
                Option::None => Err(ExtractError::AttributeMissing),
                Option::Some(h) => Ok(h),
            }
        },
    }
}

/// The points cost of a giveaway row.  With two thin annotation spans the
/// price is the second; with one, the price is that one.
pub open spec fn spec_select_points(el: Seq<char>) -> Result<u32, ExtractError> {
    match inner_htmls_of(el, THIN_SELECTOR@) {
        Option::None => Err(ExtractError::SelectorInvalid),
        Option::Some(l) => if l.len() == 0 {
            Err(ExtractError::ElementMissing)
        } else if l.len() > 1 {
            spec_extract_number(l[1])
        } else {
            spec_extract_number(l[0])
        },
    }
}

/// The copy count of a giveaway row.  With two thin annotation spans the
/// copy count is the first; with one, the page omits it and it defaults
/// to 1.
pub open spec fn spec_select_copies(el: Seq<char>) -> Result<u32, ExtractError> {
    match inner_htmls_of(el, THIN_SELECTOR@) {
        Option::None => Err(ExtractError::SelectorInvalid),
        Option::Some(l) => if l.len() == 0 {
            Err(ExtractError::ElementMissing)
        } else if l.len() > 1 {
            spec_extract_number(l[0])
        } else {
            Ok(1u32)
        },
    }
}

/// The entry count of a giveaway row: the number inside the first counter
/// span of the links block.
pub open spec fn spec_select_entries(el: Seq<char>) -> Result<u32, ExtractError> {
    match inner_htmls_of(el, ENTRIES_SELECTOR@) {
        Option::None => Err(ExtractError::SelectorInvalid),
        Option::Some(l) => if l.len() == 0 {
            Err(ExtractError::ElementMissing)
        } else {
            spec_extract_number(l[0])
        },
    }
}

/// The remaining time of a giveaway row in seconds: the first
/// timestamp-bearing span's text, read as a duration.  A text with more
/// digits than the duration-digit limit is not accepted as a duration.
pub open spec fn spec_select_time(el: Seq<char>) -> Result<u64, ExtractError> {
    match texts_of(el, TIME_SELECTOR@) {
        Option::None => Err(ExtractError::SelectorInvalid),
        Option::Some(l) => if l.len() == 0 {
            Err(ExtractError::ElementMissing)
        } else if crate::text::digits_of(l[0]).len() > crate::timespan::MAX_DURATION_DIGITS {
            Err(ExtractError::BadDuration)
        } else {
            match crate::timespan::duration_secs_of(l[0]) {
                Option::None => Err(ExtractError::BadDuration),
                Option::Some(secs) => Ok(secs),
            }
        },
    }
}

/// One authenticated context for a single run: the caller's session cookie
/// and the anti-forgery token scraped at session start.  Immutable once
/// created; never shared across concurrent runs.
pub struct Account {
    cookie: String,
    xsrf: String,
}

impl Account {
    /// The opaque bearer credential supplied by the caller.
    pub closed spec fn spec_cookie(&self) -> Seq<char> {
        self.cookie@
    }

    /// The anti-forgery token scraped from the landing page.
    pub closed spec fn spec_xsrf(&self) -> Seq<char> {
        self.xsrf@
    }

    /// Display name: first match of the heading anchor.
    pub fn select_name(el: &str) -> (r: Result<String, ExtractError>)
        ensures
            match spec_select_name(el@) {
                Ok(n) => r matches Ok(s) && s@ == n,
                Err(e) => r == Err::<String, ExtractError>(e),
            },
    {
        match select_inner_htmls(el, NAME_SELECTOR) {
            Option::None => Err(ExtractError::SelectorInvalid),
            Option::Some(mut v) => {
                if v.len() == 0 {
                    Err(ExtractError::ElementMissing)
                } else {
                    let ghost v0 = v;
                    let s = v.remove(0);
                    proof {
                        assert(v0.deep_view()[0] == v0@[0]@);
                    }
                    Ok(s)
                }
            },
        }
    }

    /// Canonical path: the `href` attribute of the first heading anchor.
    pub fn select_href(el: &str) -> (r: Result<String, ExtractError>)
        ensures
            match spec_select_href(el@) {
                Ok(h) => r matches Ok(s) && s@ == h,
                Err(e) => r == Err::<String, ExtractError>(e),
            },
    {
        match select_attr_values(el, HREF_SELECTOR, "href") {
            Option::None => Err(ExtractError::SelectorInvalid),
            Option::Some(mut v) => {
                if v.len() == 0 {
                    Err(ExtractError::ElementMissing)
                } else {
                    let ghost v0 = v;
                    let first = v.remove(0);
                    proof {
                        assert(v0.deep_view()[0] == v0@[0].deep_view());
                    }
                    match first {
                        Option::None => Err(ExtractError::AttributeMissing),
                        Option::Some(s) => Ok(s),
                    }
                }
            },
        }
    }

    /// Points cost: with two thin annotation spans the second value, with
    /// one the only value.
    pub fn select_points(el: &str) -> (r: Result<u32, ExtractError>)
        ensures
            r == spec_select_points(el@),
    {
        match select_inner_htmls(el, THIN_SELECTOR) {
            Option::None => Err(ExtractError::SelectorInvalid),
            Option::Some(v) => {
                if v.len() == 0 {
                    Err(ExtractError::ElementMissing)
                } else if v.len() > 1 {
                    proof {
                        assert(v.deep_view()[1] == v@[1]@);
                    }
                    extract_number(v[1].as_str())
                } else {
                    proof {
                        assert(v.deep_view()[0] == v@[0]@);
                    }
                    extract_number(v[0].as_str())
                }
            },
        }
    }

    /// Copy count: with two thin annotation spans the first value, with one
    /// the default of 1.
    pub fn select_copies(el: &str) -> (r: Result<u32, ExtractError>)
        ensures
            r == spec_select_copies(el@),
    {
        match select_inner_htmls(el, THIN_SELECTOR) {
            Option::None => Err(ExtractError::SelectorInvalid),
            Option::Some(v) => {
                if v.len() == 0 {
                    Err(ExtractError::ElementMissing)
                } else if v.len() > 1 {
                    proof {
                        assert(v.deep_view()[0] == v@[0]@);
                    }
                    extract_number(v[0].as_str())
                } else {
                    Ok(1)
                }
            },
        }
    }

    /// Entry count: the number inside the first counter span of the links
    /// block.
    pub fn select_entries(el: &str) -> (r: Result<u32, ExtractError>)
        ensures
            r == spec_select_entries(el@),
    {
        match select_inner_htmls(el, ENTRIES_SELECTOR) {
            Option::None => Err(ExtractError::SelectorInvalid),
            Option::Some(v) => {
                if v.len() == 0 {
                    Err(ExtractError::ElementMissing)
                } else {
                    proof {
                        assert(v.deep_view()[0] == v@[0]@);
                    }
                    extract_number(v[0].as_str())
                }
            },
        }
    }

    /// Remaining time in seconds: the first timestamp-bearing span's text,
    /// read as a duration.  A text with more digits than the duration-digit
    /// limit is not accepted as a duration.
    pub fn select_time(el: &str) -> (r: Result<u64, ExtractError>)
        ensures
            r == spec_select_time(el@),
    {
        match select_texts(el, TIME_SELECTOR) {
            Option::None => Err(ExtractError::SelectorInvalid),
            Option::Some(v) => {
                if v.len() == 0 {
                    Err(ExtractError::ElementMissing)
                } else {
                    proof {
                        assert(v.deep_view()[0] == v@[0]@);
                    }
                    if crate::text::count_digits(v[0].as_str())
                        > crate::timespan::MAX_DURATION_DIGITS {
                        return Err(ExtractError::BadDuration);
                    }
                    match crate::timespan::parse_duration_secs(v[0].as_str()) {
                        Option::None => Err(ExtractError::BadDuration),
                        Option::Some(secs) => Ok(secs),
                    }
                }
            },
        }
    }

    /// The account's points balance as shown by the balance indicator.
    pub fn extract_balance(doc: &str) -> (r: Result<u32, ExtractError>)
        ensures
            r == spec_extract_balance(doc@),
    {
        match select_inner_htmls(doc, POINTS_SELECTOR) {
            Option::None => Err(ExtractError::SelectorInvalid),
            Option::Some(v) => {
                if v.len() == 0 {
                    Err(ExtractError::ElementMissing)
                } else {
                    proof {
                        assert(v.deep_view()[0] == v@[0]@);
                    }
                    extract_number(v[0].as_str())
                }
            },
        }
    }

    /// Opens a session: scrapes the anti-forgery token out of the landing
    /// page and binds it to the caller's cookie.  An absent token is the
    /// platform signaling an invalid or expired cookie.
    pub fn from_landing_page(cookie: String, doc: &str) -> (r: Result<Account, AuthError>)
        ensures
            match spec_xsrf_token(doc@) {
                Ok(t) => r matches Ok(a) && a.spec_cookie() == cookie@ && a.spec_xsrf() == t,
                Err(e) => r == Err::<Account, AuthError>(e),
            },
    {
        match select_attr_values(doc, XSRF_SELECTOR, "value") {
            Option::None => Err(AuthError::TokenMissing),
            Option::Some(mut v) => {
                if v.len() == 0 {
                    Err(AuthError::TokenMissing)
                } else {
                    let ghost v0 = v;
                    let first = v.remove(0);
                    proof {
                        assert(v0.deep_view()[0] == v0@[0].deep_view());
                    }
                    match first {
                        Option::None => Err(AuthError::TokenMissing),
                        Option::Some(t) => Ok(Account { cookie, xsrf: t }),
                    }
                }
            },
        }
    }

    /// The `Cookie` header value that authenticates every request.
    pub fn cookie_header(&self) -> (r: String)
        ensures
            r@ == "PHPSESSID="@ + self.spec_cookie(),
    {
        let mut s = String::from_str("PHPSESSID=");
        s.append(self.cookie.as_str());
        s
    }

    /// The form-encoded body of a submission request: the session's
    /// anti-forgery token, the fixed insert-entry action marker, and the
    /// record's code.
    pub fn entry_post_body(&self, ga: &Entry) -> (r: String)
        requires
            ga.wf(),
        ensures
            r@ == "xsrf_token="@ + self.spec_xsrf() + "&do=entry_insert&code="@ + code_of(
                ga@.href,
            ),
    {
        let mut s = String::from_str("xsrf_token=");
        s.append(self.xsrf.as_str());
        s.append("&do=entry_insert&code=");
        let code = ga.get_code();
        s.append(code.as_str());
        s
    }
}

/// One giveaway row turned into a record.  A missing required element, an
/// empty title, a numeric fragment without digits, a copy count of zero, or
/// a path too short to carry the code is a hard failure: the page's layout
/// has changed and every remaining record is equally suspect.
pub open spec fn spec_parse_row(el: Seq<char>) -> Result<EntryV, ExtractError> {
    match spec_select_name(el) {
        Err(e) => Err(e),
        Ok(name) => if name.len() == 0 {
            Err(ExtractError::EmptyName)
        } else {
            match spec_select_points(el) {
                Err(e) => Err(e),
                Ok(price) => match spec_select_copies(el) {
                    Err(e) => Err(e),
                    Ok(copies) => if copies == 0 {
                        Err(ExtractError::ZeroCopies)
                    } else {
                        match spec_select_entries(el) {
                            Err(e) => Err(e),
                            Ok(entries) => match spec_select_href(el) {
                                Err(e) => Err(e),
                                Ok(path) => match spec_select_time(el) {
                                    Err(e) => Err(e),
                                    Ok(secs) => if URL_ORIGIN@.len() + path.len() < CODE_END {
                                        Err(ExtractError::MalformedPath)
                                    } else {
                                        Ok(
                                            EntryV {
                                                name,
                                                href: URL_ORIGIN@ + path,
                                                price,
                                                copies,
                                                entries,
                                                ends_in_secs: secs,
                                            },
                                        )
                                    },
                                },
                            },
                        }
                    },
                },
            }
        },
    }
}

/// Records of a sequence of giveaway rows, in order; the earliest failing
/// row's error aborts the whole sequence.
pub open spec fn spec_parse_rows(rows: Seq<Seq<char>>) -> Result<Seq<EntryV>, ExtractError>
    decreases rows.len(),
{
    if rows.len() == 0 {
        Ok(Seq::empty())
    } else {
        match spec_parse_rows(rows.drop_last()) {
            Err(e) => Err(e),
            Ok(s) => match spec_parse_row(rows.last()) {
                Err(e) => Err(e),
                Ok(ev) => Ok(s.push(ev)),
            },
        }
    }
}

/// Records of every giveaway row on a listing page, in page order.
pub open spec fn spec_parse_giveaways(doc: Seq<char>) -> Result<Seq<EntryV>, ExtractError> {
    match fragments_of(doc, ROW_SELECTOR@) {
        Option::None => Err(ExtractError::SelectorInvalid),
        Option::Some(rows) => spec_parse_rows(rows),
    }
}

/// Once a prefix of the rows fails, the whole sequence fails with the same
/// error: extraction aborts the page at the earliest malformed row.
proof fn lemma_parse_rows_error_persists(rows: Seq<Seq<char>>, i: int)
    requires
        0 <= i <= rows.len(),
        spec_parse_rows(rows.subrange(0, i)) is Err,
    ensures
        spec_parse_rows(rows) == spec_parse_rows(rows.subrange(0, i)),
    decreases rows.len() - i,
{
    if i == rows.len() {
        assert(rows.subrange(0, i) =~= rows);
    } else {
        let pre = rows.subrange(0, i);
        let ext = rows.subrange(0, i + 1);
        assert(ext.drop_last() =~= pre);
        assert(ext.last() == rows[i]);
        lemma_parse_rows_error_persists(rows, i + 1);
    }
}

/// Re-running extraction on an unchanged document yields the identical
/// record sequence: what the extractor emits is a function of the document
/// text alone, so two passes over one page can never disagree.
pub proof fn lemma_extraction_deterministic(doc1: Seq<char>, doc2: Seq<char>)
    requires
        doc1 == doc2,
    ensures
        spec_parse_giveaways(doc1) == spec_parse_giveaways(doc2),
{
}

impl Account {
    /// One giveaway row turned into a record.
    pub fn parse_row(el: &str) -> (r: Result<Entry, ExtractError>)
        ensures
            match spec_parse_row(el@) {
                Ok(ev) => r matches Ok(en) && en@ == ev && en.wf() && record_valid(en@),
                Err(e) => r == Err::<Entry, ExtractError>(e),
            },
    {
        let name = match Self::select_name(el) {
            Ok(n) => n,
            Err(e) => return Err(e),
        };
        if name.as_str().unicode_len() == 0 {
            return Err(ExtractError::EmptyName);
        }
        let price = match Self::select_points(el) {
            Ok(p) => p,
            Err(e) => return Err(e),
        };
        let copies = match Self::select_copies(el) {
            Ok(c) => c,
            Err(e) => return Err(e),
        };
        if copies == 0 {
            return Err(ExtractError::ZeroCopies);
        }
        let entries = match Self::select_entries(el) {
            Ok(c) => c,
            Err(e) => return Err(e),
        };
        let path = match Self::select_href(el) {
            Ok(h) => h,
            Err(e) => return Err(e),
        };
        let ends_in_secs = match Self::select_time(el) {
            Ok(t) => t,
            Err(e) => return Err(e),
        };
        let origin_len = URL_ORIGIN.unicode_len();
        let path_len = path.as_str().unicode_len();
        if origin_len < CODE_END && path_len < CODE_END - origin_len {
            return Err(ExtractError::MalformedPath);
        }
        let href = URL::href(path.as_str());
        Ok(Entry { name, href, price, copies, entries, ends_in_secs })
    }

    /// Every giveaway row on a listing page turned into a record, in page
    /// order.  The earliest malformed row aborts the whole page rather than
    /// being skipped silently: partial extraction risks entering giveaways
    /// with wrong prices.  Every record that comes out is valid: a non-empty
    /// title, a positive winner count, and a code-bearing canonical URL.
    pub fn parse_giveaways(doc: &str) -> (r: Result<Vec<Entry>, ExtractError>)
        ensures
            match spec_parse_giveaways(doc@) {
                Ok(s) => r matches Ok(v) && v.deep_view() == s && (forall|k: int|
                    0 <= k < v@.len() ==> (#[trigger] v@[k]).wf() && record_valid(v@[k]@)),
                Err(e) => r == Err::<Vec<Entry>, ExtractError>(e),
            },
    {
        let rows = match select_fragments(doc, ROW_SELECTOR) {
            Option::None => {
                return Err(ExtractError::SelectorInvalid);
            },
            Option::Some(rw) => rw,
        };
        let ghost all = rows.deep_view();
        let mut out: Vec<Entry> = Vec::new();
        let mut i: usize = 0;
        proof {
            assert(all.subrange(0, 0) =~= Seq::<Seq<char>>::empty());
            assert(out.deep_view() =~= Seq::<EntryV>::empty());
        }
        while i < rows.len()
            invariant
                i <= rows@.len(),
                all == rows.deep_view(),
                fragments_of(doc@, ROW_SELECTOR@) == Option::Some(all),
                spec_parse_rows(all.subrange(0, i as int)) == Ok::<Seq<EntryV>, ExtractError>(
                    out.deep_view(),
                ),
                forall|k: int|
                    0 <= k < out@.len() ==> (#[trigger] out@[k]).wf() && record_valid(out@[k]@),
            decreases rows@.len() - i,
        {
            proof {
                assert(all.subrange(0, i + 1).drop_last() =~= all.subrange(0, i as int));
                assert(all.subrange(0, i + 1).last() == all[i as int]);
                assert(rows.deep_view()[i as int] == rows@[i as int]@);
            }
            match Self::parse_row(rows[i].as_str()) {
                Err(e) => {
                    proof {
                        lemma_parse_rows_error_persists(all, i + 1);
                    }
                    return Err(e);
                },
                Ok(en) => {
                    let ghost prev = out.deep_view();
                    out.push(en);
                    proof {
                        assert(out.deep_view() =~= prev.push(en@));
                    }
                },
            }
            i = i + 1;
        }
        proof {
            assert(all.subrange(0, i as int) =~= all);
        }
        Ok(out)
    }
}

/// The account balance shown on a page: the first balance indicator's inner
/// markup, read by the numeric extraction rule.
pub open spec fn spec_extract_balance(doc: Seq<char>) -> Result<u32, ExtractError> {
    match inner_htmls_of(doc, POINTS_SELECTOR@) {
        Option::None => Err(ExtractError::SelectorInvalid),
        Option::Some(l) => if l.len() == 0 {
            Err(ExtractError::ElementMissing)
        } else {
            spec_extract_number(l[0])
        },
    }
}

/// The anti-forgery token on a page: the value of the first hidden token
/// input, absent when the input or its value attribute is missing.
pub open spec fn spec_xsrf_token(doc: Seq<char>) -> Result<Seq<char>, AuthError> {
    match attr_values_of(doc, XSRF_SELECTOR@, "value"@) {
        Option::None => Err(AuthError::TokenMissing),
        Option::Some(l) => if l.len() == 0 {
            Err(AuthError::TokenMissing)
        } else {
            match l[0] {
                Option::None => Err(AuthError::TokenMissing),
                Option::Some(t) => Ok(t),
            }
        },
    }
}

} // verus!
