//! SteamGifts: the session cookie, the pages' contents, and the answers to requests.
use vstd::prelude::*;

use crate::html::{
    capture_app_id, match_view, matches_view, row_matches_view, scraped_matches, scraped_row_matches,
    select_matches, select_row_matches, app_id_capture, Match,
};
use crate::text::{
    chars_of, concat, contains, contains_seq, decimal, decimal_u64, digits_value, filter_digit_chars,
    filter_digits, has_prefix, owned, parse_i64, parse_i64_chars, parse_u32, parse_u32_chars,
    push_all, split, split_chars, starts_with, string_from_chars, trim, trim_chars,
};

verus! {

/// Points and user name shown in the site's navigation bar.
pub struct PointsInfo {
    pub points: u32,
    pub username: String,
}

/// One giveaway of a search page.
pub struct GiveawayItem {
    pub name: String,
    pub code: String,
    pub cost: u32,
    pub image_url: String,
    pub is_entered: bool,
    pub ends_at: Option<i64>,
    pub ends_label: String,
}

/// Mathematical model of [`GiveawayItem`].
pub struct GiveawayView {
    pub name: Seq<char>,
    pub code: Seq<char>,
    pub cost: u32,
    pub image_url: Seq<char>,
    pub is_entered: bool,
    pub ends_at: Option<i64>,
    pub ends_label: Seq<char>,
}

impl View for GiveawayItem {
    type V = GiveawayView;

    open spec fn view(&self) -> GiveawayView {
        GiveawayView {
            name: self.name@,
            code: self.code@,
            cost: self.cost,
            image_url: self.image_url@,
            is_entered: self.is_entered,
            ends_at: self.ends_at,
            ends_label: self.ends_label@,
        }
    }
}

/// A giveaway the user won.
pub struct WonGiveaway {
    pub name: String,
    pub code: String,
    pub image_url: String,
    pub source: String,
    pub url: String,
}

/// Mathematical model of [`WonGiveaway`].
pub struct WonView {
    pub name: Seq<char>,
    pub code: Seq<char>,
    pub image_url: Seq<char>,
    pub source: Seq<char>,
    pub url: Seq<char>,
}

impl View for WonGiveaway {
    type V = WonView;

    open spec fn view(&self) -> WonView {
        WonView {
            name: self.name@,
            code: self.code@,
            image_url: self.image_url@,
            source: self.source@,
            url: self.url@,
        }
    }
}

impl WonGiveaway {
    /// A copy with the same contents.
    pub fn duplicate(&self) -> (r: WonGiveaway)
        ensures
            r@ == self@,
    {
        WonGiveaway {
            name: self.name.clone(),
            code: self.code.clone(),
            image_url: self.image_url.clone(),
            source: self.source.clone(),
            url: self.url.clone(),
        }
    }
}

/// A SteamGifts client, holding the session cookie header.
pub struct SteamgiftsService {
    cookie_header: String,
}

/// The first piece (trimmed) that is a `PHPSESSID=` assignment.
pub open spec fn session_piece(parts: Seq<Seq<char>>) -> Option<Seq<char>>
    decreases parts.len(),
{
    if parts.len() == 0 {
        None
    } else if has_prefix(trim(parts[0]), "PHPSESSID="@) {
        Some(trim(parts[0]))
    } else {
        session_piece(parts.drop_first())
    }
}

/// The cookie header for a pasted cookie: the first piece (trimmed) that sets
/// `PHPSESSID`, else `PHPSESSID=` with the first piece (trimmed) as its value; nothing for
/// a blank cookie. No other cookie goes along.
pub open spec fn normalized_cookie(raw: Seq<char>) -> Seq<char> {
    let t = trim(raw);
    if t.len() == 0 {
        Seq::empty()
    } else {
        match session_piece(split(t, ';')) {
            Some(p) => p,
            None => "PHPSESSID="@ + trim(split(t, ';')[0]),
        }
    }
}

proof fn lemma_session_piece(parts: Seq<Seq<char>>)
    ensures
        match session_piece(parts) {
            Some(p) => has_prefix(p, "PHPSESSID="@) && exists|k: int| 0 <= k < parts.len() && p == trim(parts[k]),
            None => true,
        },
    decreases parts.len(),
{
    if parts.len() > 0 && !has_prefix(trim(parts[0]), "PHPSESSID="@) {
        lemma_session_piece(parts.drop_first());
        if let Some(p) = session_piece(parts.drop_first()) {
            let k = choose|k: int| 0 <= k < parts.drop_first().len() && p == trim(parts.drop_first()[k]);
            assert(p == trim(parts[k + 1]));
        }
    } else if parts.len() > 0 {
        assert(trim(parts[0]) == trim(parts[0]));
    }
}

proof fn lemma_concat_contains(a: Seq<char>, b: Seq<char>, c: char)
    requires
        !a.contains(c),
        !b.contains(c),
    ensures
        !(a + b).contains(c),
{
    if (a + b).contains(c) {
        let k = choose|k: int| 0 <= k < (a + b).len() && (a + b)[k] == c;
        if k < a.len() {
            assert(a[k] == c);
        } else {
            assert(b[k - a.len()] == c);
        }
    }
}

/// A normalized cookie is empty exactly for a blank input; otherwise it sets `PHPSESSID`
/// and holds no `;`, so no other cookie.
proof fn lemma_normalized_shape(raw: Seq<char>)
    ensures
        (normalized_cookie(raw).len() == 0) == (trim(raw).len() == 0),
        normalized_cookie(raw).len() > 0 ==> has_prefix(normalized_cookie(raw), "PHPSESSID="@)
            && !normalized_cookie(raw).contains(';'),
        normalized_cookie(raw).len() > 0 ==> !crate::text::is_ws(normalized_cookie(raw).last()),
{
    reveal_strlit("PHPSESSID=");
    let key = "PHPSESSID="@;
    let t = trim(raw);
    if t.len() > 0 {
        let parts = split(t, ';');
        crate::text::lemma_split_pieces(t, ';', Seq::empty());
        lemma_session_piece(parts);
        assert(!key.contains(';')) by {
            if key.contains(';') {
                let k = choose|k: int| 0 <= k < key.len() && key[k] == ';';
            }
        }
        match session_piece(parts) {
            Some(p) => {
                let k = choose|k: int| 0 <= k < parts.len() && p == trim(parts[k]);
                assert(!parts[k].contains(';'));
                crate::text::lemma_trim_parts(parts[k]);
            },
            None => {
                let first = trim(parts[0]);
                assert(!parts[0].contains(';'));
                crate::text::lemma_trim_parts(parts[0]);
                lemma_concat_contains(key, first, ';');
                assert((key + first).subrange(0, key.len() as int) =~= key);
                if first.len() > 0 {
                    assert((key + first).last() == first.last());
                } else {
                    assert(key + first =~= key);
                }
            },
        }
    }
}

/// Normalizing a cookie header again changes nothing.
pub proof fn law_normalized_cookie_stable(raw: Seq<char>)
    ensures
        normalized_cookie(normalized_cookie(raw)) == normalized_cookie(raw),
{
    reveal_strlit("PHPSESSID=");
    let r = normalized_cookie(raw);
    lemma_normalized_shape(raw);
    if r.len() == 0 {
        assert(trim(r) == r);
    } else {
        assert(r[0] == 'P') by {
            assert(r.subrange(0, 10)[0] == r[0]);
        }
        crate::text::lemma_trim_unchanged(r);
        crate::text::lemma_split_without_sep(r, ';', Seq::empty());
        assert(Seq::<char>::empty() + r == r);
        assert(split(r, ';') == seq![r]);
        assert(seq![r].drop_first().len() == 0);
    }
}

/// Cookie header uses only `PHPSESSID=<value>` (no extra cookie names).
pub fn normalize_cookie(raw: &str) -> (r: String)
    ensures
        r@ == normalized_cookie(raw@),
        (r@.len() == 0) == (trim(raw@).len() == 0),
        r@.len() > 0 ==> has_prefix(r@, "PHPSESSID="@) && !r@.contains(';'),
{
    proof {
        lemma_normalized_shape(raw@);
    }
    let rv = chars_of(raw);
    let trimmed = trim_chars(rv.as_slice());
    if trimmed.len() == 0 {
        return String::new();
    }
    let key = chars_of("PHPSESSID=");
    proof {
        reveal_strlit("PHPSESSID=");
    }
    let parts = split_chars(trimmed.as_slice(), ';');
    let ghost pv = crate::text::seqs_of(parts@);
    assert(pv.subrange(0, pv.len() as int) == pv);
    for i in 0..parts.len()
        invariant
            trimmed@ == trim(raw@),
            trimmed@.len() > 0,
            pv == crate::text::seqs_of(parts@),
            pv == split(trimmed@, ';'),
            key@ == "PHPSESSID="@,
            session_piece(pv) == session_piece(pv.subrange(i as int, pv.len() as int)),
            (normalized_cookie(raw@).len() == 0) == (trim(raw@).len() == 0),
            normalized_cookie(raw@).len() > 0 ==> has_prefix(normalized_cookie(raw@), "PHPSESSID="@)
                && !normalized_cookie(raw@).contains(';'),
    {
        let part = trim_chars(parts[i].as_slice());
        proof {
            let rest = pv.subrange(i as int, pv.len() as int);
            assert(rest[0] == parts@[i as int]@);
            assert(rest.drop_first() == pv.subrange(i + 1, pv.len() as int));
        }
        if starts_with(part.as_slice(), key.as_slice()) {
            return string_from_chars(part.as_slice());
        }
    }
    proof {
        assert(pv.subrange(pv.len() as int, pv.len() as int).len() == 0);
        crate::text::lemma_split_pieces(trimmed@, ';', Seq::empty());
        assert(pv[0] == parts@[0]@);
    }
    let first = trim_chars(parts[0].as_slice());
    let out = concat(key.as_slice(), first.as_slice());
    string_from_chars(out.as_slice())
}

impl SteamgiftsService {
    pub closed spec fn cookie(&self) -> Seq<char> {
        self.cookie_header@
    }

    /// A client for the pasted cookie `cookie`.
    pub fn new(cookie: &str) -> (r: SteamgiftsService)
        ensures
            r.cookie() == normalized_cookie(cookie@),
    {
        SteamgiftsService { cookie_header: normalize_cookie(cookie) }
    }

    /// The `Cookie` header value this client sends.
    pub fn cookie_header(&self) -> (r: &String)
        ensures
            r@ == self.cookie(),
    {
        &self.cookie_header
    }

    /// The headers of a page request: the cookie, the referrer and the accepted types;
    /// requests that post to the site add its origin, and a claim also the form type.
    pub fn headers(&self, post: bool, claim: bool) -> (r: Vec<(String, String)>)
        ensures
            header_texts(r@) == request_headers(self.cookie(), post, claim),
    {
        let mut r: Vec<(String, String)> = Vec::new();
        r.push((owned("Cookie"), self.cookie_header.clone()));
        r.push((owned("Referer"), owned("https://www.steamgifts.com/")));
        r.push((owned("Accept"), owned("text/html,application/xhtml+xml,application/xml;q=0.9,*/*;q=0.8")));
        let ghost base = header_texts(r@);
        if post {
            r.push((owned("Origin"), owned("https://www.steamgifts.com")));
            if claim {
                r.push((owned("Content-Type"), owned("application/x-www-form-urlencoded")));
            }
        }
        assert(header_texts(r@) =~= request_headers(self.cookie(), post, claim));
        r
    }

    /// Checks that a page request can be made: a session cookie is needed.
    pub fn fetch_precondition(&self) -> (r: Result<(), String>)
        ensures
            self.cookie().len() == 0 <==> r is Err,
            r matches Err(e) ==> e@ == "PHPSESSID cookie is required. Set it in Settings."@,
    {
        if self.cookie_header.as_str().is_empty() {
            return Err(owned("PHPSESSID cookie is required. Set it in Settings."));
        }
        Ok(())
    }
}

pub open spec fn http_status_text(status: u16) -> Seq<char> {
    "HTTP "@ + decimal(status as nat)
}

fn http_status_message(status: u16) -> (r: String)
    ensures
        r@ == http_status_text(status),
{
    let mut v = chars_of("HTTP ");
    let d = decimal_u64(status as u64);
    push_all(&mut v, d.as_slice());
    string_from_chars(v.as_slice())
}

/// The page body of a SteamGifts answer, or why it cannot be used.
pub open spec fn page_result(status: u16, body: Seq<char>) -> Result<Seq<char>, Seq<char>> {
    if status == 403 {
        Err(
            "HTTP 403 Forbidden — invalid or expired PHPSESSID. Paste a fresh PHPSESSID from steamgifts.com cookies in Settings."@,
        )
    } else if status != 200 {
        Err(http_status_text(status))
    } else if contains_seq(body, "Just a moment"@) || contains_seq(body, "cf-browser-verification"@) {
        Err("Cloudflare blocked the request. Paste a fresh PHPSESSID from your browser."@)
    } else {
        Ok(body)
    }
}

/// Classifies the answer to a page request: 403 means a bad cookie, other non-200
/// statuses are errors, and a Cloudflare challenge page is refused.
pub fn page_response(status: u16, body: String) -> (r: Result<String, String>)
    ensures
        match page_result(status, body@) {
            Ok(b) => r matches Ok(x) && x@ == b,
            Err(e) => r matches Err(x) && x@ == e,
        },
{
    if status == 403 {
        return Err(
            owned(
                "HTTP 403 Forbidden — invalid or expired PHPSESSID. Paste a fresh PHPSESSID from steamgifts.com cookies in Settings.",
            ),
        );
    }
    if status != 200 {
        return Err(http_status_message(status));
    }
    let b = chars_of(body.as_str());
    let m1 = chars_of("Just a moment");
    let m2 = chars_of("cf-browser-verification");
    if contains(b.as_slice(), m1.as_slice()) || contains(b.as_slice(), m2.as_slice()) {
        return Err(owned("Cloudflare blocked the request. Paste a fresh PHPSESSID from your browser."));
    }
    Ok(body)
}

pub open spec fn header_texts(h: Seq<(String, String)>) -> Seq<(Seq<char>, Seq<char>)> {
    h.map_values(|p: (String, String)| (p.0@, p.1@))
}

/// The headers of a request with session cookie `cookie`.
pub open spec fn request_headers(cookie: Seq<char>, post: bool, claim: bool) -> Seq<(Seq<char>, Seq<char>)> {
    let base = seq![
        ("Cookie"@, cookie),
        ("Referer"@, "https://www.steamgifts.com/"@),
        ("Accept"@, "text/html,application/xhtml+xml,application/xml;q=0.9,*/*;q=0.8"@),
    ];
    if !post {
        base
    } else if !claim {
        base.push(("Origin"@, "https://www.steamgifts.com"@))
    } else {
        base.push(("Origin"@, "https://www.steamgifts.com"@)).push(
            ("Content-Type"@, "application/x-www-form-urlencoded"@),
        )
    }
}

/// The site's home page, which shows the points.
pub fn home_url() -> (r: String)
    ensures
        r@ == "https://www.steamgifts.com/"@,
{
    owned("https://www.steamgifts.com/")
}

/// The page of won giveaways.
pub fn won_page_url() -> (r: String)
    ensures
        r@ == "https://www.steamgifts.com/giveaways/won"@,
{
    owned("https://www.steamgifts.com/giveaways/won")
}

/// Where entries and claims are posted.
pub fn ajax_url() -> (r: String)
    ensures
        r@ == "https://www.steamgifts.com/ajax.php"@,
{
    owned("https://www.steamgifts.com/ajax.php")
}

/// The XSRF token of a giveaway page, needed to claim its gift: the value of the first
/// `xsrf_token` field.
pub open spec fn claim_token(html: Seq<char>) -> Option<Seq<char>> {
    let m = scraped_matches(html, "[name='xsrf_token']"@, "value"@);
    if m.len() > 0 {
        m[0].1
    } else {
        None
    }
}

/// Reads the XSRF token a claim needs off a giveaway page.
pub fn claim_xsrf(html: &str) -> (r: Result<String, String>)
    ensures
        match claim_token(html@) {
            Some(t) => r matches Ok(x) && x@ == t,
            None => r matches Err(e) && e@ == "Could not read XSRF token for gift claim."@,
        },
{
    let m = select_matches(html, "[name='xsrf_token']", "value");
    if m.len() > 0 {
        assert(matches_view(m@)[0] == match_view(m@[0]));
        match &m[0].1 {
            Some(v) => {
                return Ok(v.clone());
            },
            None => {},
        }
    }
    Err(owned("Could not read XSRF token for gift claim."))
}

/// URL of a page of the giveaway search.
pub fn search_page_url(page: u32) -> (r: String)
    ensures
        r@ == "https://www.steamgifts.com/giveaways/search?page="@ + decimal(page as nat),
{
    let mut v = chars_of("https://www.steamgifts.com/giveaways/search?page=");
    let d = decimal_u64(page as u64);
    push_all(&mut v, d.as_slice());
    string_from_chars(v.as_slice())
}

/// URL of a giveaway's page.
pub fn giveaway_url(code: &str) -> (r: String)
    ensures
        r@ == "https://www.steamgifts.com/giveaway/"@ + code@ + "/"@,
{
    let mut v = chars_of("https://www.steamgifts.com/giveaway/");
    let c = chars_of(code);
    push_all(&mut v, c.as_slice());
    let s = chars_of("/");
    push_all(&mut v, s.as_slice());
    string_from_chars(v.as_slice())
}

/// Form body that enters a giveaway.
pub fn entry_payload(code: &str, xsrf_token: &str) -> (r: String)
    ensures
        r@ == "xsrf_token="@ + xsrf_token@ + "&do=entry_insert&code="@ + code@,
{
    let mut v = chars_of("xsrf_token=");
    let x = chars_of(xsrf_token);
    push_all(&mut v, x.as_slice());
    let m = chars_of("&do=entry_insert&code=");
    push_all(&mut v, m.as_slice());
    let c = chars_of(code);
    push_all(&mut v, c.as_slice());
    string_from_chars(v.as_slice())
}

/// Form body that claims a won gift.
pub fn claim_payload(code: &str, xsrf_token: &str) -> (r: String)
    ensures
        r@ == "xsrf_token="@ + xsrf_token@ + "&do=redeem&code="@ + code@,
{
    let mut v = chars_of("xsrf_token=");
    let x = chars_of(xsrf_token);
    push_all(&mut v, x.as_slice());
    let m = chars_of("&do=redeem&code=");
    push_all(&mut v, m.as_slice());
    let c = chars_of(code);
    push_all(&mut v, c.as_slice());
    string_from_chars(v.as_slice())
}

pub open spec fn entry_result(status: u16) -> Result<(), Seq<char>> {
    if status == 403 {
        Err("HTTP 403 — refresh your PHPSESSID cookie in Settings."@)
    } else if status != 200 {
        Err(http_status_text(status))
    } else {
        Ok(())
    }
}

/// Outcome of a giveaway entry request, from its HTTP status.
pub fn entry_response(status: u16) -> (r: Result<(), String>)
    ensures
        match entry_result(status) {
            Ok(_) => r is Ok,
            Err(e) => r matches Err(x) && x@ == e,
        },
{
    if status == 403 {
        return Err(owned("HTTP 403 — refresh your PHPSESSID cookie in Settings."));
    }
    if status != 200 {
        return Err(http_status_message(status));
    }
    Ok(())
}

pub open spec fn claim_result(status: u16, body: Seq<char>) -> Result<(), Seq<char>> {
    if status == 403 {
        Err("HTTP 403 — refresh your PHPSESSID cookie."@)
    } else if status != 200 {
        Err(http_status_text(status))
    } else if contains_seq(body, "\"type\":\"success\""@) || contains_seq(body, "success"@) {
        Ok(())
    } else {
        Err("Claim failed: "@ + body.take(if body.len() < 120 { body.len() as int } else { 120 }))
    }
}

/// Outcome of a gift claim request: the answer must say `success`; otherwise the error
/// quotes its first 120 characters.
pub fn claim_response(status: u16, body: &str) -> (r: Result<(), String>)
    ensures
        match claim_result(status, body@) {
            Ok(_) => r is Ok,
            Err(e) => r matches Err(x) && x@ == e,
        },
{
    if status == 403 {
        return Err(owned("HTTP 403 — refresh your PHPSESSID cookie."));
    }
    if status != 200 {
        return Err(http_status_message(status));
    }
    let b = chars_of(body);
    let m1 = chars_of("\"type\":\"success\"");
    let m2 = chars_of("success");
    if contains(b.as_slice(), m1.as_slice()) || contains(b.as_slice(), m2.as_slice()) {
        return Ok(());
    }
    let n: usize = if b.len() < 120 {
        b.len()
    } else {
        120
    };
    let mut v = chars_of("Claim failed: ");
    let mut i: usize = 0;
    let ghost start = v@;
    while i < n
        invariant
            i <= n <= b@.len(),
            v@ == start + b@.take(i as int),
        decreases n - i,
    {
        v.push(b[i]);
        assert(b@.take(i + 1) == b@.take(i as int).push(b@[i as int]));
        i = i + 1;
    }
    Err(string_from_chars(v.as_slice()))
}

/// The number in a text: its ASCII digits read as a `u32`, 0 when there are none or
/// they do not fit.
pub open spec fn digits_number(text: Seq<char>) -> u32 {
    match parse_u32(filter_digits(text)) {
        Some(n) => n,
        None => 0,
    }
}

/// The number in a text (points, costs): its digits, 0 when none or too large.
pub fn digits_only(text: &str) -> (r: u32)
    ensures
        r == digits_number(text@),
{
    let t = chars_of(text);
    let d = filter_digit_chars(t.as_slice());
    match parse_u32_chars(d.as_slice()) {
        Some(n) => n,
        None => 0,
    }
}

/// The third `/`-separated piece of a link (`/giveaway/<code>/<name>` gives the code).
pub open spec fn href_code(href: Seq<char>) -> Seq<char> {
    let parts = split(href, '/');
    if parts.len() > 2 {
        parts[2]
    } else {
        Seq::empty()
    }
}

pub fn code_from_href(href: &str) -> (r: String)
    ensures
        r@ == href_code(href@),
{
    let h = chars_of(href);
    let parts = split_chars(h.as_slice(), '/');
    if parts.len() > 2 {
        let ghost pv = crate::text::seqs_of(parts@);
        assert(pv[2] == parts@[2]@);
        string_from_chars(parts[2].as_slice())
    } else {
        String::new()
    }
}

/// The won giveaway of a row of the won page, from what the row holds: whether it has a
/// delete-entry form, and the heading link's `href` and text. Rows with the form, without
/// a heading, or without a code give nothing.
pub open spec fn won_row(
    has_entry_delete: bool,
    heading: Option<(Option<Seq<char>>, Seq<char>)>,
) -> Option<WonView> {
    if has_entry_delete {
        None
    } else {
        match heading {
            None => None,
            Some((href_opt, text)) => {
                let href = match href_opt {
                    Some(h) => h,
                    None => Seq::empty(),
                };
                let code = href_code(href);
                if code.len() == 0 {
                    None
                } else {
                    Some(
                        WonView {
                            name: trim(text),
                            code,
                            image_url: Seq::empty(),
                            source: "steamgifts"@,
                            url: if has_prefix(href, "http"@) {
                                href
                            } else {
                                "https://www.steamgifts.com"@ + href
                            },
                        },
                    )
                }
            },
        }
    }
}

pub open spec fn opt_str_view(o: Option<String>) -> Option<Seq<char>> {
    match o {
        Some(s) => Some(s@),
        None => None,
    }
}

/// The won giveaway that a row of the won page describes, if any.
pub fn won_from_row(has_entry_delete: bool, heading: Option<(Option<String>, String)>) -> (r:
    Option<WonGiveaway>)
    ensures
        match won_row(
            has_entry_delete,
            match heading {
                Some((h, t)) => Some((opt_str_view(h), t@)),
                None => None,
            },
        ) {
            Some(w) => r matches Some(x) && x@ == w,
            None => r is None,
        },
{
    if has_entry_delete {
        return None;
    }
    let (href_opt, text) = match heading {
        Some(h) => h,
        None => return None,
    };
    let href = match href_opt {
        Some(h) => h,
        None => String::new(),
    };
    let code = code_from_href(href.as_str());
    if code.as_str().is_empty() {
        return None;
    }
    let hv = chars_of(href.as_str());
    let http = chars_of("http");
    let url = if starts_with(hv.as_slice(), http.as_slice()) {
        href
    } else {
        let base = chars_of("https://www.steamgifts.com");
        let u = concat(base.as_slice(), hv.as_slice());
        string_from_chars(u.as_slice())
    };
    Some(
        WonGiveaway {
            name: crate::text::trim_str(text.as_str()),
            code,
            image_url: String::new(),
            source: owned("steamgifts"),
            url,
        },
    )
}

/// The soonest future end among a giveaway's `(data-timestamp, text)` pairs: timestamps
/// that parse and lie after `now`; on ties the first one wins. The label is its text,
/// trimmed.
pub open spec fn earliest_end(stamps: Seq<(Seq<char>, Seq<char>)>, now: i64) -> (
    Option<i64>,
    Seq<char>,
)
    decreases stamps.len(),
{
    if stamps.len() == 0 {
        (None, Seq::empty())
    } else {
        let best = earliest_end(stamps.drop_last(), now);
        let (raw, text) = stamps.last();
        match parse_i64(raw) {
            Some(ts) => if ts > now && (best.0 is None || ts < best.0->0) {
                (Some(ts), trim(text))
            } else {
                best
            },
            None => best,
        }
    }
}

/// The end time and label of a giveaway, from its `(data-timestamp, text)` pairs.
pub fn giveaway_end(stamps: &Vec<(String, String)>, now: i64) -> (r: (Option<i64>, String))
    ensures
        r.0 == earliest_end(stamps@.map_values(|p: (String, String)| (p.0@, p.1@)), now).0,
        r.1@ == earliest_end(stamps@.map_values(|p: (String, String)| (p.0@, p.1@)), now).1,
{
    let ghost sv = stamps@.map_values(|p: (String, String)| (p.0@, p.1@));
    let mut best_ts: Option<i64> = None;
    let mut best_label: String = String::new();
    assert(sv.take(0) =~= Seq::<(Seq<char>, Seq<char>)>::empty());
    for i in 0..stamps.len()
        invariant
            sv == stamps@.map_values(|p: (String, String)| (p.0@, p.1@)),
            best_ts == earliest_end(sv.take(i as int), now).0,
            best_label@ == earliest_end(sv.take(i as int), now).1,
    {
        proof {
            assert(sv.take(i + 1).drop_last() == sv.take(i as int));
            assert(sv.take(i + 1).last() == sv[i as int]);
        }
        let raw = chars_of(stamps[i].0.as_str());
        if let Some(ts) = parse_i64_chars(raw.as_slice()) {
            let better = match best_ts {
                None => true,
                Some(b) => ts < b,
            };
            if ts > now && better {
                best_ts = Some(ts);
                best_label = crate::text::trim_str(stamps[i].1.as_str());
            }
        }
    }
    assert(sv.take(stamps.len() as int) == sv);
    (best_ts, best_label)
}

/// Seconds since the Unix epoch, from the system clock (0 before the epoch).
#[verifier::external_body]
fn unix_now_secs() -> i64 {
    match std::time::SystemTime::now().duration_since(std::time::UNIX_EPOCH) {
        Ok(d) => d.as_secs() as i64,
        Err(_) => 0,
    }
}

/// Whether a giveaway ends soon enough at Unix second `now`: any giveaway when the window
/// is 0 hours, otherwise one whose end is known and at most that many hours away.
pub open spec fn ends_within(ends_at: Option<i64>, max_hours: u32, now: i64) -> bool {
    if max_hours == 0 {
        true
    } else {
        match ends_at {
            None => false,
            Some(e) => e - now <= max_hours * 3600,
        }
    }
}

/// Whether a giveaway ends within `max_hours` of Unix second `now`.
pub fn within_end_window_at(giveaway: &GiveawayItem, max_hours: u32, now: i64) -> (r: bool)
    ensures
        r == ends_within(giveaway.ends_at, max_hours, now),
{
    if max_hours == 0 {
        return true;
    }
    match giveaway.ends_at {
        None => false,
        Some(ends_at) => (ends_at as i128) - (now as i128) <= (max_hours as i128) * 3600,
    }
}

/// Whether a giveaway ends within `max_hours` from now (system clock).
pub fn within_end_window(giveaway: &GiveawayItem, max_hours: u32) -> (r: bool)
    ensures
        max_hours == 0 ==> r,
        giveaway.ends_at is None && max_hours != 0 ==> !r,
{
    let now = unix_now_secs();
    within_end_window_at(giveaway, max_hours, now)
}


pub open spec fn first_text(m: Seq<(Seq<char>, Option<Seq<char>>)>) -> Option<Seq<char>> {
    if m.len() > 0 {
        Some(m[0].0)
    } else {
        None
    }
}

/// The number shown by the first element that `selector` selects, 0 when there is none.
pub open spec fn first_number(m: Seq<(Seq<char>, Option<Seq<char>>)>) -> u32 {
    match first_text(m) {
        Some(t) => digits_number(t),
        None => 0,
    }
}

/// The user name of the navigation bar, from the user name matches: the first one's text,
/// trimmed, or nothing.
pub open spec fn user_of(m: Seq<(Seq<char>, Option<Seq<char>>)>) -> Seq<char> {
    match first_text(m) {
        Some(t) => trim(t),
        None => Seq::empty(),
    }
}

pub open spec fn nav_points(html: Seq<char>) -> u32 {
    first_number(scraped_matches(html, ".nav__points"@, "class"@))
}

pub open spec fn nav_user(html: Seq<char>) -> Seq<char> {
    user_of(scraped_matches(html, ".nav__user-name"@, "class"@))
}

fn first_number_exec(m: &Vec<Match>) -> (r: u32)
    ensures
        r == first_number(matches_view(m@)),
{
    if m.len() > 0 {
        digits_only(m[0].0.as_str())
    } else {
        0
    }
}

/// Points and user name of the navigation bar, from the matches of the points and of the
/// user name.
pub fn points_from_matches(points: &Vec<Match>, users: &Vec<Match>) -> (r: PointsInfo)
    ensures
        r.points == first_number(matches_view(points@)),
        r.username@ == user_of(matches_view(users@)),
{
    let username = if users.len() > 0 {
        assert(matches_view(users@)[0] == match_view(users@[0]));
        crate::text::trim_str(users[0].0.as_str())
    } else {
        String::new()
    };
    PointsInfo { points: first_number_exec(points), username }
}

/// Points and user name of the navigation bar of a SteamGifts page.
pub fn parse_points(html: &str) -> (r: PointsInfo)
    ensures
        r.points == nav_points(html@),
        r.username@ == nav_user(html@),
{
    let points = select_matches(html, ".nav__points", "class");
    let users = select_matches(html, ".nav__user-name", "class");
    points_from_matches(&points, &users)
}

/// The XSRF token among the token matches: the first one's value, or nothing.
pub open spec fn first_value(m: Seq<(Seq<char>, Option<Seq<char>>)>) -> Seq<char> {
    if m.len() > 0 {
        match m[0].1 {
            Some(v) => v,
            None => Seq::empty(),
        }
    } else {
        Seq::empty()
    }
}

/// The XSRF token from the token matches (see [`first_value`]).
pub fn xsrf_from_matches(m: &Vec<Match>) -> (r: String)
    ensures
        r@ == first_value(matches_view(m@)),
{
    if m.len() > 0 {
        assert(matches_view(m@)[0] == match_view(m@[0]));
        match &m[0].1 {
            Some(v) => v.clone(),
            None => String::new(),
        }
    } else {
        String::new()
    }
}

pub open spec fn xsrf_of(html: Seq<char>) -> Seq<char> {
    first_value(scraped_matches(html, "[name='xsrf_token']"@, "value"@))
}

pub open spec fn row_selector() -> Seq<char> {
    ".giveaway__row-inner-wrap"@
}

pub open spec fn icon_selector() -> Seq<char> {
    "a.giveaway__icon[href*='steampowered.com/app/']"@
}

/// Capsule image of a Steam app, from the app id digits.
pub open spec fn capsule_url(app_id: Seq<char>) -> Seq<char> {
    "https://cdn.cloudflare.steamstatic.com/steam/apps/"@ + app_id + "/capsule_184x69.jpg"@
}

/// A row's timestamps as `(attribute, text)` pairs.
pub open spec fn stamp_pairs(m: Seq<(Seq<char>, Option<Seq<char>>)>) -> Seq<(Seq<char>, Seq<char>)> {
    m.map_values(
        |x: (Seq<char>, Option<Seq<char>>)|
            (
                match x.1 {
                    Some(a) => a,
                    None => Seq::empty(),
                },
                x.0,
            ),
    )
}

/// The giveaway a search page row describes, at Unix second `now`, from what the row
/// holds: its class, the cost texts, the name link matches (text and `href`), the Steam
/// app id of its store icon link, and its timestamp matches.
pub open spec fn giveaway_of_row(
    class: Option<Seq<char>>,
    costs: Seq<(Seq<char>, Option<Seq<char>>)>,
    names: Seq<(Seq<char>, Option<Seq<char>>)>,
    app_id: Option<Seq<char>>,
    stamps: Seq<(Seq<char>, Option<Seq<char>>)>,
    now: i64,
) -> GiveawayView {
    let href = if names.len() > 0 {
        match names[0].1 {
            Some(h) => h,
            None => Seq::empty(),
        }
    } else {
        Seq::empty()
    };
    let end = earliest_end(stamp_pairs(stamps), now);
    GiveawayView {
        name: if names.len() > 0 {
            trim(names[0].0)
        } else {
            "Unknown"@
        },
        code: href_code(href),
        cost: if costs.len() > 0 {
            digits_number(costs.last().0)
        } else {
            0
        },
        image_url: match app_id {
            Some(id) => capsule_url(id),
            None => Seq::empty(),
        },
        is_entered: match class {
            Some(c) => contains_seq(c, "is-faded"@),
            None => false,
        },
        ends_at: end.0,
        ends_label: end.1,
    }
}

/// The app id the first store icon link of a row names, if it has an `href`.
pub open spec fn icon_app_id(icons: Seq<(Seq<char>, Option<Seq<char>>)>) -> Option<Seq<char>> {
    if icons.len() > 0 && icons[0].1 is Some {
        app_id_capture(icons[0].1->0)
    } else {
        None
    }
}

/// The giveaway that row `i` of a search page describes, at Unix second `now`.
pub open spec fn giveaway_row(html: Seq<char>, i: int, now: i64) -> GiveawayView {
    giveaway_of_row(
        scraped_matches(html, row_selector(), "class"@)[i].1,
        scraped_row_matches(html, row_selector(), ".giveaway__heading__thin"@, "class"@)[i],
        scraped_row_matches(html, row_selector(), ".giveaway__heading__name"@, "href"@)[i],
        icon_app_id(scraped_row_matches(html, row_selector(), icon_selector(), "href"@)[i]),
        scraped_row_matches(html, row_selector(), "[data-timestamp]"@, "data-timestamp"@)[i],
        now,
    )
}

/// Row count of a search page.
pub open spec fn row_count(html: Seq<char>) -> nat {
    crate::html::scraped_count(html, row_selector())
}

fn stamps_of(m: &Vec<Match>) -> (r: Vec<(String, String)>)
    ensures
        r@.map_values(|p: (String, String)| (p.0@, p.1@)) == stamp_pairs(matches_view(m@)),
{
    let mut r: Vec<(String, String)> = Vec::new();
    for j in 0..m.len()
        invariant
            r@.len() == j,
            forall|k: int|
                0 <= k < j ==> ((#[trigger] r@[k]).0@, r@[k].1@) == stamp_pairs(
                    matches_view(m@),
                )[k],
    {
        let raw = match &m[j].1 {
            Some(a) => a.clone(),
            None => String::new(),
        };
        r.push((raw, m[j].0.clone()));
    }
    assert(r@.map_values(|p: (String, String)| (p.0@, p.1@)) =~= stamp_pairs(matches_view(m@)));
    r
}

/// The giveaway a search page row describes, at Unix second `now` (see
/// [`giveaway_of_row`]).
pub fn giveaway_from_row(
    class: &Option<String>,
    costs: &Vec<Match>,
    names: &Vec<Match>,
    app_id: Option<String>,
    stamps: &Vec<Match>,
    now: i64,
) -> (r: GiveawayItem)
    ensures
        r@ == giveaway_of_row(
            opt_str_view(*class),
            matches_view(costs@),
            matches_view(names@),
            opt_str_view(app_id),
            matches_view(stamps@),
            now,
        ),
{
    proof {
        if names@.len() > 0 {
            assert(matches_view(names@)[0] == match_view(names@[0]));
        }
        if costs@.len() > 0 {
            assert(matches_view(costs@).last() == match_view(costs@[costs@.len() - 1]));
        }
    }
    let cost = if costs.len() > 0 {
        digits_only(costs[costs.len() - 1].0.as_str())
    } else {
        0
    };
    let (name, href) = if names.len() > 0 {
        let h = match &names[0].1 {
            Some(h) => h.clone(),
            None => String::new(),
        };
        (crate::text::trim_str(names[0].0.as_str()), h)
    } else {
        (owned("Unknown"), String::new())
    };
    let code = code_from_href(href.as_str());
    let image_url = match app_id {
        Some(id) => {
            let mut v = chars_of("https://cdn.cloudflare.steamstatic.com/steam/apps/");
            let idv = chars_of(id.as_str());
            push_all(&mut v, idv.as_slice());
            let tail = chars_of("/capsule_184x69.jpg");
            push_all(&mut v, tail.as_slice());
            string_from_chars(v.as_slice())
        },
        None => String::new(),
    };
    let pairs = stamps_of(stamps);
    let (ends_at, ends_label) = giveaway_end(&pairs, now);
    let is_entered = match class {
        Some(c) => {
            let cv = chars_of(c.as_str());
            let f = chars_of("is-faded");
            contains(cv.as_slice(), f.as_slice())
        },
        None => false,
    };
    GiveawayItem { name, code, cost, image_url, is_entered, ends_at, ends_label }
}

/// The giveaways of a search page, read at Unix second `now` (see [`parse_search_page`]).
pub fn parse_search_page_at(html: &str, now: i64) -> (r: (u32, String, Vec<GiveawayItem>))
    ensures
        r.0 == nav_points(html@),
        r.1@ == xsrf_of(html@),
        r.2@.len() == row_count(html@),
        forall|i: int| 0 <= i < r.2@.len() ==> (#[trigger] r.2@[i])@ == giveaway_row(html@, i, now),
{
    let points = select_matches(html, ".nav__points", "class");
    let xsrf_m = select_matches(html, "[name='xsrf_token']", "value");
    let xsrf = xsrf_from_matches(&xsrf_m);
    let classes = select_matches(html, ".giveaway__row-inner-wrap", "class");
    let costs = select_row_matches(html, ".giveaway__row-inner-wrap", ".giveaway__heading__thin", "class");
    let names = select_row_matches(html, ".giveaway__row-inner-wrap", ".giveaway__heading__name", "href");
    let icons = select_row_matches(
        html,
        ".giveaway__row-inner-wrap",
        "a.giveaway__icon[href*='steampowered.com/app/']",
        "href",
    );
    let stamps = select_row_matches(html, ".giveaway__row-inner-wrap", "[data-timestamp]", "data-timestamp");
    let n = classes.len();
    let mut items: Vec<GiveawayItem> = Vec::new();
    for i in 0..n
        invariant
            n == row_count(html@),
            classes@.len() == n,
            costs@.len() == n,
            names@.len() == n,
            icons@.len() == n,
            stamps@.len() == n,
            matches_view(classes@) == scraped_matches(html@, row_selector(), "class"@),
            row_matches_view(costs@) == scraped_row_matches(html@, row_selector(), ".giveaway__heading__thin"@, "class"@),
            row_matches_view(names@) == scraped_row_matches(html@, row_selector(), ".giveaway__heading__name"@, "href"@),
            row_matches_view(icons@) == scraped_row_matches(html@, row_selector(), icon_selector(), "href"@),
            row_matches_view(stamps@) == scraped_row_matches(html@, row_selector(), "[data-timestamp]"@, "data-timestamp"@),
            items@.len() == i,
            forall|k: int| 0 <= k < i ==> (#[trigger] items@[k])@ == giveaway_row(html@, k, now),
    {
        let row_icons = &icons[i];
        proof {
            assert(row_matches_view(costs@)[i as int] == matches_view(costs@[i as int]@));
            assert(row_matches_view(names@)[i as int] == matches_view(names@[i as int]@));
            assert(row_matches_view(icons@)[i as int] == matches_view(row_icons@));
            assert(row_matches_view(stamps@)[i as int] == matches_view(stamps@[i as int]@));
            assert(matches_view(classes@)[i as int] == match_view(classes@[i as int]));
            if row_icons@.len() > 0 {
                assert(matches_view(row_icons@)[0] == match_view(row_icons@[0]));
            }
        }
        let app_id = if row_icons.len() > 0 {
            match &row_icons[0].1 {
                Some(h) => capture_app_id(h.as_str()),
                None => None,
            }
        } else {
            None
        };
        let item = giveaway_from_row(&classes[i].1, &costs[i], &names[i], app_id, &stamps[i], now);
        items.push(item);
    }
    (first_number_exec(&points), xsrf, items)
}

/// Points, XSRF token and giveaways of a search page, read with the system clock's time.
pub fn parse_search_page(html: &str) -> (r: (u32, String, Vec<GiveawayItem>))
    ensures
        r.0 == nav_points(html@),
        r.1@ == xsrf_of(html@),
        r.2@.len() == row_count(html@),
        forall|i: int|
            0 <= i < r.2@.len() ==> {
                &&& (#[trigger] r.2@[i]).name@ == giveaway_row(html@, i, 0).name
                &&& r.2@[i].code@ == giveaway_row(html@, i, 0).code
                &&& r.2@[i].cost == giveaway_row(html@, i, 0).cost
                &&& r.2@[i].image_url@ == giveaway_row(html@, i, 0).image_url
                &&& r.2@[i].is_entered == giveaway_row(html@, i, 0).is_entered
            },
{
    let now = unix_now_secs();
    parse_search_page_at(html, now)
}

pub open spec fn won_rows_selector() -> Seq<char> {
    ".table__row-inner-wrap"@
}

pub open spec fn entry_delete_selector() -> Seq<char> {
    "form input[name='do'][value='entry_delete']"@
}

/// The won giveaway of a won page row, from its delete-entry form matches and its heading
/// link matches (text and `href`).
pub open spec fn won_of_row(
    deletes: Seq<(Seq<char>, Option<Seq<char>>)>,
    headings: Seq<(Seq<char>, Option<Seq<char>>)>,
) -> Option<WonView> {
    won_row(
        deletes.len() > 0,
        if headings.len() > 0 {
            Some((headings[0].1, headings[0].0))
        } else {
            None
        },
    )
}

/// The won giveaway of row `i` of the won page.
pub open spec fn won_page_row(html: Seq<char>, i: int) -> Option<WonView> {
    won_of_row(
        scraped_row_matches(html, won_rows_selector(), entry_delete_selector(), "value"@)[i],
        scraped_row_matches(html, won_rows_selector(), ".table__column__heading"@, "href"@)[i],
    )
}

/// The won giveaway a won page row describes (see [`won_of_row`]).
pub fn won_from_matches(deletes: &Vec<Match>, headings: &Vec<Match>) -> (r: Option<WonGiveaway>)
    ensures
        match won_of_row(matches_view(deletes@), matches_view(headings@)) {
            Some(w) => r matches Some(x) && x@ == w,
            None => r is None,
        },
{
    let heading = if headings.len() > 0 {
        assert(matches_view(headings@)[0] == match_view(headings@[0]));
        let h = match &headings[0].1 {
            Some(x) => Some(x.clone()),
            None => None,
        };
        Some((h, headings[0].0.clone()))
    } else {
        None
    };
    won_from_row(deletes.len() > 0, heading)
}

/// The won giveaways of rows `0..k` of the won page, in order.
pub open spec fn won_page_upto(html: Seq<char>, k: int) -> Seq<WonView>
    decreases k,
{
    if k <= 0 {
        Seq::empty()
    } else {
        let rest = won_page_upto(html, k - 1);
        match won_page_row(html, k - 1) {
            Some(w) => rest.push(w),
            None => rest,
        }
    }
}

pub open spec fn won_views(v: Seq<WonGiveaway>) -> Seq<WonView> {
    v.map_values(|w: WonGiveaway| w@)
}

/// The won giveaways listed on the won page (rows still open for entry are skipped).
pub fn parse_won_page(html: &str) -> (r: Vec<WonGiveaway>)
    ensures
        won_views(r@) == won_page_upto(html@, crate::html::scraped_count(html@, won_rows_selector()) as int),
{
    let deletes = select_row_matches(html, ".table__row-inner-wrap", "form input[name='do'][value='entry_delete']", "value");
    let headings = select_row_matches(html, ".table__row-inner-wrap", ".table__column__heading", "href");
    let n = deletes.len();
    let mut out: Vec<WonGiveaway> = Vec::new();
    for i in 0..n
        invariant
            n == crate::html::scraped_count(html@, won_rows_selector()),
            deletes@.len() == n,
            headings@.len() == n,
            row_matches_view(deletes@) == scraped_row_matches(html@, won_rows_selector(), entry_delete_selector(), "value"@),
            row_matches_view(headings@) == scraped_row_matches(html@, won_rows_selector(), ".table__column__heading"@, "href"@),
            won_views(out@) == won_page_upto(html@, i as int),
    {
        proof {
            assert(row_matches_view(deletes@)[i as int] == matches_view(deletes@[i as int]@));
            assert(row_matches_view(headings@)[i as int] == matches_view(headings@[i as int]@));
        }
        let ghost before = won_views(out@);
        if let Some(w) = won_from_matches(&deletes[i], &headings[i]) {
            out.push(w);
            assert(won_views(out@) =~= before.push(w@));
        }
    }
    out
}

} // verus!
