//! Requests through the `curl` program: the arguments it is started with, and the reading
//! of what it printed. Starting the program happens outside this crate.
use vstd::prelude::*;

use crate::settings::string_views;
use crate::text::{
    chars_of, digit_value, eq_ignore_ascii_case, eq_ignore_case_chars, is_ascii_digit, last_index_of,
    contains_seq, occurs_at, owned,
    push_all, rfind, string_from_chars, trim, trim_chars,
};

verus! {

/// Status code and body of an answer.
pub struct CurlResponse {
    pub status: u16,
    pub body: String,
}

/// The user agent the requests announce.
pub open spec fn user_agent() -> Seq<char> {
    "Mozilla/5.0 (Windows NT 10.0; Win64; x64) AppleWebKit/537.36 (KHTML, like Gecko) Chrome/131.0.0.0 Safari/537.36"@
}

/// The text `curl` is told to print after the body, followed by the status code.
pub open spec fn status_marker() -> Seq<char> {
    "__STATUS__"@
}

/// What `str::to_uppercase` gives for `s` (Unicode upper case mapping).
pub uninterp spec fn upper_case(s: Seq<char>) -> Seq<char>;

/// Calls `str::to_uppercase`.
#[verifier::external_body]
fn to_upper(s: &str) -> (r: String)
    ensures
        r@ == upper_case(s@),
{
    s.to_uppercase()
}

/// Whether some header is named `Content-Type`, in any ASCII case.
pub open spec fn has_content_type(headers: Seq<(Seq<char>, Seq<char>)>) -> bool {
    exists|i: int| 0 <= i < headers.len() && eq_ignore_ascii_case(headers[i].0, "content-type"@)
}

/// The `-H` arguments for `headers`, in order.
pub open spec fn header_args(headers: Seq<(Seq<char>, Seq<char>)>) -> Seq<Seq<char>>
    decreases headers.len(),
{
    if headers.len() == 0 {
        Seq::empty()
    } else {
        header_args(headers.drop_last()).push("-H"@).push(
            headers.last().0 + ": "@ + headers.last().1,
        )
    }
}

/// The arguments `curl` is started with.
pub open spec fn curl_arg_list(
    url: Seq<char>,
    method: Seq<char>,
    headers: Seq<(Seq<char>, Seq<char>)>,
    data: Option<Seq<char>>,
) -> Seq<Seq<char>> {
    let base = seq![
        "-sS"@,
        "-L"@,
        "--compressed"@,
        "-w"@,
        "__STATUS__%{http_code}"@,
        "-A"@,
        user_agent(),
        "-X"@,
        upper_case(method),
    ] + header_args(headers);
    let with_data = match data {
        Some(body) => if has_content_type(headers) {
            base.push("--data-raw"@).push(body)
        } else {
            base.push("-H"@).push("Content-Type: application/x-www-form-urlencoded"@).push(
                "--data-raw"@,
            ).push(body)
        },
        None => base,
    };
    with_data.push(url)
}

pub open spec fn header_views(h: Seq<(String, String)>) -> Seq<(Seq<char>, Seq<char>)> {
    h.map_values(|p: (String, String)| (p.0@, p.1@))
}

pub open spec fn opt_view(o: Option<&str>) -> Option<Seq<char>> {
    match o {
        Some(s) => Some(s@),
        None => None,
    }
}

/// The arguments for a request to `url` with `method`, `headers` and, when given, the
/// form body `data`.
pub fn curl_args(url: &str, method: &str, headers: &[(String, String)], data: Option<&str>) -> (r:
    Vec<String>)
    ensures
        string_views(r@) == curl_arg_list(url@, method@, header_views(headers@), opt_view(data)),
{
    let mut args: Vec<String> = Vec::new();
    args.push(owned("-sS"));
    args.push(owned("-L"));
    args.push(owned("--compressed"));
    args.push(owned("-w"));
    args.push(owned("__STATUS__%{http_code}"));
    args.push(owned("-A"));
    args.push(owned(
        "Mozilla/5.0 (Windows NT 10.0; Win64; x64) AppleWebKit/537.36 (KHTML, like Gecko) Chrome/131.0.0.0 Safari/537.36",
    ));
    args.push(owned("-X"));
    args.push(to_upper(method));
    let ghost hs = header_views(headers@);
    let ghost base0 = string_views(args@);
    assert(base0 =~= seq![
        "-sS"@,
        "-L"@,
        "--compressed"@,
        "-w"@,
        "__STATUS__%{http_code}"@,
        "-A"@,
        user_agent(),
        "-X"@,
        upper_case(method@),
    ]);
    assert(hs.take(0) =~= Seq::<(Seq<char>, Seq<char>)>::empty());
    assert(base0 + header_args(hs.take(0)) =~= base0);
    let ct = chars_of("content-type");
    let mut has_ct = false;
    for i in 0..headers.len()
        invariant
            hs == header_views(headers@),
            ct@ == "content-type"@,
            string_views(args@) == base0 + header_args(hs.take(i as int)),
            has_ct == has_content_type(hs.take(i as int)),
    {
        let (key, value) = (&headers[i].0, &headers[i].1);
        let k = chars_of(key.as_str());
        let ghost before = string_views(args@);
        if eq_ignore_case_chars(k.as_slice(), ct.as_slice()) {
            has_ct = true;
        }
        args.push(owned("-H"));
        let mut line = chars_of(key.as_str());
        let sep = chars_of(": ");
        push_all(&mut line, sep.as_slice());
        let v = chars_of(value.as_str());
        push_all(&mut line, v.as_slice());
        args.push(string_from_chars(line.as_slice()));
        proof {
            let t = hs.take(i + 1);
            assert(t.drop_last() =~= hs.take(i as int));
            assert(t.last() == (key@, value@));
            assert(string_views(args@) =~= before.push("-H"@).push(key@ + ": "@ + value@));
            if has_content_type(t) {
                let j = choose|j: int| 0 <= j < t.len() && eq_ignore_ascii_case(t[j].0, "content-type"@);
                if j < i {
                    assert(hs.take(i as int)[j] == t[j]);
                }
            }
            if has_content_type(hs.take(i as int)) {
                let j = choose|j: int| 0 <= j < i && eq_ignore_ascii_case(hs.take(i as int)[j].0, "content-type"@);
                assert(t[j] == hs.take(i as int)[j]);
            }
            if eq_ignore_ascii_case(key@, "content-type"@) {
                assert(t[i as int].0 == key@);
            }
        }
    }
    assert(hs.take(headers.len() as int) =~= hs);
    let ghost base = string_views(args@);
    if let Some(body) = data {
        if !has_ct {
            args.push(owned("-H"));
            args.push(owned("Content-Type: application/x-www-form-urlencoded"));
        }
        args.push(owned("--data-raw"));
        args.push(owned(body));
        if has_ct {
            assert(string_views(args@) =~= base.push("--data-raw"@).push(body@));
        } else {
            assert(string_views(args@) =~= base.push("-H"@).push(
                "Content-Type: application/x-www-form-urlencoded"@,
            ).push("--data-raw"@).push(body@));
        }
    }
    let ghost with_data = string_views(args@);
    args.push(owned(url));
    assert(string_views(args@) =~= with_data.push(url@));
    args
}

/// The error `str::parse::<u16>` reports on an empty text.
pub open spec fn empty_number_error() -> Seq<char> {
    "cannot parse integer from empty string"@
}

/// The error `str::parse::<u16>` reports on a character that is no digit.
pub open spec fn invalid_digit_error() -> Seq<char> {
    "invalid digit found in string"@
}

/// The error `str::parse::<u16>` reports on a value above `u16::MAX`.
pub open spec fn too_large_error() -> Seq<char> {
    "number too large to fit in target type"@
}

/// Reads the digits of `s` from index `i` on, `acc` being the value so far; the first
/// problem met from the left decides the error.
pub open spec fn u16_digits_from(s: Seq<char>, i: int, acc: nat) -> Result<u16, Seq<char>>
    decreases s.len() - i,
{
    if i >= s.len() {
        Ok(acc as u16)
    } else if !is_ascii_digit(s[i]) {
        Err(invalid_digit_error())
    } else if acc * 10 + digit_value(s[i]) > u16::MAX {
        Err(too_large_error())
    } else {
        u16_digits_from(s, i + 1, acc * 10 + digit_value(s[i]))
    }
}

/// What `str::parse::<u16>` gives, with the text of its error.
pub open spec fn parse_u16_result(s: Seq<char>) -> Result<u16, Seq<char>> {
    if s.len() == 0 {
        Err(empty_number_error())
    } else if s[0] == '+' {
        if s.len() == 1 {
            Err(invalid_digit_error())
        } else {
            u16_digits_from(s, 1, 0)
        }
    } else {
        u16_digits_from(s, 0, 0)
    }
}

/// Parses a status code as `str::parse::<u16>` does.
pub fn parse_u16_text(s: &[char]) -> (r: Result<u16, String>)
    ensures
        match (r, parse_u16_result(s@)) {
            (Ok(a), Ok(b)) => a == b,
            (Err(a), Err(b)) => a@ == b,
            _ => false,
        },
{
    if s.len() == 0 {
        return Err(owned("cannot parse integer from empty string"));
    }
    let mut i: usize = 0;
    if s[0] == '+' {
        if s.len() == 1 {
            return Err(owned("invalid digit found in string"));
        }
        i = 1;
    }
    let ghost start = i as int;
    let mut acc: u32 = 0;
    while i < s.len()
        invariant
            start <= i <= s@.len(),
            acc <= u16::MAX,
            (if s@[0] == '+' { start == 1 && s@.len() > 1 } else { start == 0 }),
            s@.len() > 0,
            parse_u16_result(s@) == u16_digits_from(s@, i as int, acc as nat),
        decreases s.len() - i,
    {
        let c = s[i];
        if !('0' <= c && c <= '9') {
            return Err(owned("invalid digit found in string"));
        }
        let d = (c as u32) - ('0' as u32);
        assert(d == digit_value(c));
        if acc * 10 + d > 65535 {
            return Err(owned("number too large to fit in target type"));
        }
        acc = acc * 10 + d;
        i = i + 1;
    }
    Ok(acc as u16)
}

/// What a finished `curl` run comes to: the exit status, and what it printed on its
/// output and error streams.
pub open spec fn curl_result(success: bool, stdout: Seq<char>, stderr: Seq<char>) -> Result<
    (u16, Seq<char>),
    Seq<char>,
> {
    if !success && stdout.len() == 0 {
        Err("curl exited: "@ + stderr)
    } else if !contains_seq(stdout, status_marker()) {
        Err("curl response missing status marker"@)
    } else {
        let m = choose|m: int| last_index_of(stdout, status_marker(), m);
        match parse_u16_result(trim(stdout.subrange(m + status_marker().len(), stdout.len() as int))) {
            Ok(status) => Ok((status, stdout.subrange(0, m))),
            Err(e) => Err("invalid curl status: "@ + e),
        }
    }
}

/// Reads the answer out of a finished `curl` run.
pub fn parse_curl_output(success: bool, stdout: &str, stderr: &str) -> (r: Result<CurlResponse, String>)
    ensures
        match (r, curl_result(success, stdout@, stderr@)) {
            (Ok(a), Ok(b)) => a.status == b.0 && a.body@ == b.1,
            (Err(a), Err(b)) => a@ == b,
            _ => false,
        },
{
    let out = chars_of(stdout);
    if !success && out.len() == 0 {
        let mut v = chars_of("curl exited: ");
        let e = chars_of(stderr);
        push_all(&mut v, e.as_slice());
        return Err(string_from_chars(v.as_slice()));
    }
    let marker = chars_of("__STATUS__");
    let found = rfind(out.as_slice(), marker.as_slice());
    let m = match found {
        Some(m) => m,
        None => {
            return Err(owned("curl response missing status marker"));
        },
    };
    proof {
        reveal_strlit("__STATUS__");
        let mm = choose|mm: int| last_index_of(out@, status_marker(), mm);
        assert(last_index_of(out@, status_marker(), mm));
        if mm < m {
            assert(!occurs_at(out@, status_marker(), m as int));
        }
        if mm > m {
            assert(!occurs_at(out@, status_marker(), mm));
        }
        assert(mm == m);
    }
    let mut body: Vec<char> = Vec::new();
    let mut rest: Vec<char> = Vec::new();
    for i in 0..out.len()
        invariant
            m + 10 <= out@.len(),
            body@ == out@.subrange(0, if i < m { i as int } else { m as int }),
            rest@ == out@.subrange(m + 10, if i < m + 10 { m + 10 } else { i as int }),
    {
        if i < m {
            body.push(out[i]);
        } else if i >= m + 10 {
            rest.push(out[i]);
        }
        assert(body@ =~= out@.subrange(0, if i + 1 < m { i + 1 } else { m as int }));
        assert(rest@ =~= out@.subrange(m + 10, if i + 1 < m + 10 { m + 10 } else { i + 1 }));
    }
    let t = trim_chars(rest.as_slice());
    match parse_u16_text(t.as_slice()) {
        Ok(status) => Ok(CurlResponse { status, body: string_from_chars(body.as_slice()) }),
        Err(e) => {
            let mut v = chars_of("invalid curl status: ");
            let ec = chars_of(e.as_str());
            push_all(&mut v, ec.as_slice());
            Err(string_from_chars(v.as_slice()))
        },
    }
}

} // verus!
