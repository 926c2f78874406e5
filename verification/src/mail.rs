//! Verification codes in e-mails: where a six-digit code is looked for in a mail's text, how a
//! mail is found in a JSON reply of a mailbox service, and which mail belongs to the address
//! being registered.
use vstd::prelude::*;
use crate::json::{Json, JsonValue, JsonMember, models, member_models, lemma_models, opt_str_view};
use crate::text::{
    CharClass, owned, concat, concat3, chars_of, string_from_chars, trim, trim_class, contains,
    first_piece, byte_len, char_count, is_all_ascii_digits, spec_trim, spec_trim_both, spec_contains,
    spec_find, spec_rfind, spec_first_piece, all_ascii_digits, str_len, is_ascii_alphanumeric,
    is_ascii_digit_char,
};
use crate::numbers::{parse_usize, spec_parse_unsigned, usize_text, u64_text, spec_decimal, digit_of};
use crate::outside::{
    regex_group1, regex_remove_all, spec_regex_group1, spec_regex_remove_all, to_lowercase, spec_lowercase,
    random_alphanumeric, random_in_range, url_encode, spec_url_encode,
};

verus! {

pub open spec fn first_some(a: Option<Seq<char>>, b: Option<Seq<char>>) -> Option<Seq<char>> {
    match a {
        Some(x) => Some(x),
        None => b,
    }
}

pub open spec fn group(pattern: Seq<char>, text: Seq<char>) -> Option<Seq<char>> {
    spec_regex_group1(pattern, text)
}

pub open spec fn removed(pattern: Seq<char>, text: Seq<char>) -> Seq<char> {
    spec_regex_remove_all(pattern, text)
}

// The patterns, as the regular expression crate reads them.
pub open spec fn six_between_newlines() -> Seq<char> {
    "\\n(\\d{6})\\n"@
}

pub open spec fn six_alone() -> Seq<char> {
    "\\b(\\d{6})\\b"@
}

/// The code in a mail's plain text: six digits on a line of their own, else any six digits
/// standing alone; `Err("未能从文本中提取验证码")` when there is none.
pub open spec fn spec_code_from_text(text: Seq<char>) -> Result<Seq<char>, Seq<char>> {
    match first_some(group(six_between_newlines(), text), group(six_alone(), text)) {
        Some(c) => Ok(c),
        None => Err("未能从文本中提取验证码"@),
    }
}

pub fn extract_verification_code_from_text(text: &str) -> (r: Result<String, String>)
    ensures
        match r {
            Ok(c) => spec_code_from_text(text@) == Ok::<Seq<char>, Seq<char>>(c@),
            Err(e) => spec_code_from_text(text@) == Err::<Seq<char>, Seq<char>>(e@),
        },
{
    match regex_group1("\\n(\\d{6})\\n", text) {
        Some(c) => return Ok(c),
        None => {},
    }
    match regex_group1("\\b(\\d{6})\\b", text) {
        Some(c) => Ok(c),
        None => Err(owned("未能从文本中提取验证码")),
    }
}

/// The text with colour codes ("#414141"), numbers after a '+' ("+123456") and six digits
/// followed by a domain ("801304.xyz") removed, in that order.
pub open spec fn cleaned_content(content: Seq<char>) -> Seq<char> {
    removed(
        "\\b\\d{6}\\.[a-zA-Z][a-zA-Z0-9.-]*"@,
        removed("\\+\\d{6}\\b"@, removed("#([0-9a-fA-F]{6})\\b"@, content)),
    )
}

/// The code in a mail: six digits between line ends (in the order "\n…\r", "\r\n…\r\n",
/// "\n…\n", "\r…\r"), then after "code is ", "验证码为：" or "verification code is: ", and last
/// any six digits standing alone once colour codes, '+'-numbers and domains are removed.
pub open spec fn spec_code_from_content(content: Seq<char>) -> Option<Seq<char>> {
    first_some(
        group("\\n(\\d{6})\\r"@, content),
        first_some(
            group("\\r\\n(\\d{6})\\r\\n"@, content),
            first_some(
                group("\\n(\\d{6})\\n"@, content),
                first_some(
                    group("\\r(\\d{6})\\r"@, content),
                    first_some(
                        group("code is (\\d{6})"@, content),
                        first_some(
                            group("验证码为：(\\d{6})"@, content),
                            first_some(
                                group("verification code is: (\\d{6})"@, content),
                                group(six_alone(), cleaned_content(content)),
                            ),
                        ),
                    ),
                ),
            ),
        ),
    )
}

pub fn extract_verification_code_from_content(content: &str) -> (r: Option<String>)
    ensures
        opt_str_view(r) == spec_code_from_content(content@),
{
    match regex_group1("\\n(\\d{6})\\r", content) {
        Some(c) => return Some(c),
        None => {},
    }
    match regex_group1("\\r\\n(\\d{6})\\r\\n", content) {
        Some(c) => return Some(c),
        None => {},
    }
    match regex_group1("\\n(\\d{6})\\n", content) {
        Some(c) => return Some(c),
        None => {},
    }
    match regex_group1("\\r(\\d{6})\\r", content) {
        Some(c) => return Some(c),
        None => {},
    }
    match regex_group1("code is (\\d{6})", content) {
        Some(c) => return Some(c),
        None => {},
    }
    match regex_group1("验证码为：(\\d{6})", content) {
        Some(c) => return Some(c),
        None => {},
    }
    match regex_group1("verification code is: (\\d{6})", content) {
        Some(c) => return Some(c),
        None => {},
    }
    let a = regex_remove_all("#([0-9a-fA-F]{6})\\b", content);
    let b = regex_remove_all("\\+\\d{6}\\b", a.as_str());
    let c = regex_remove_all("\\b\\d{6}\\.[a-zA-Z][a-zA-Z0-9.-]*", b.as_str());
    regex_group1("\\b(\\d{6})\\b", c.as_str())
}

/// Where the code in a mail comes from. Each of the fixed-context patterns that finds a code
/// gives the result when the ones before it found none; the first tried is six digits between
/// "\n" and "\r". When none of them finds a code, the result is the first group of the
/// pattern `\b(\d{6})\b` (six digits between word boundaries, whatever character follows) in
/// the content after colour codes, numbers after '+' and six digits before a domain are removed.
/// No code comes out when no pattern finds one. (Which text a pattern matches is the regex
/// crate's to say.)
pub proof fn lemma_code_from_content_sources(content: Seq<char>)
    ensures
        ({
            let p1 = spec_regex_group1("\\n(\\d{6})\\r"@, content);
            let p2 = spec_regex_group1("\\r\\n(\\d{6})\\r\\n"@, content);
            let p3 = spec_regex_group1("\\n(\\d{6})\\n"@, content);
            let p4 = spec_regex_group1("\\r(\\d{6})\\r"@, content);
            let p5 = spec_regex_group1("code is (\\d{6})"@, content);
            let p6 = spec_regex_group1("验证码为：(\\d{6})"@, content);
            let p7 = spec_regex_group1("verification code is: (\\d{6})"@, content);
            let cleaned = spec_regex_remove_all(
                "\\b\\d{6}\\.[a-zA-Z][a-zA-Z0-9.-]*"@,
                spec_regex_remove_all("\\+\\d{6}\\b"@, spec_regex_remove_all("#([0-9a-fA-F]{6})\\b"@, content)),
            );
            let p8 = spec_regex_group1("\\b(\\d{6})\\b"@, cleaned);
            let r = spec_code_from_content(content);
            &&& p1 is Some ==> r == p1
            &&& (p1 is None && p2 is Some) ==> r == p2
            &&& (p1 is None && p2 is None && p3 is Some) ==> r == p3
            &&& (p1 is None && p2 is None && p3 is None && p4 is Some) ==> r == p4
            &&& (p1 is None && p2 is None && p3 is None && p4 is None && p5 is Some) ==> r == p5
            &&& (p1 is None && p2 is None && p3 is None && p4 is None && p5 is None && p6 is Some) ==> r == p6
            &&& (p1 is None && p2 is None && p3 is None && p4 is None && p5 is None && p6 is None && p7 is Some)
                ==> r == p7
            &&& (p1 is None && p2 is None && p3 is None && p4 is None && p5 is None && p6 is None && p7 is None) ==> r
                == p8
            &&& r is None <==> (p1 is None && p2 is None && p3 is None && p4 is None && p5 is None && p6 is None
                && p7 is None && p8 is None)
        }),
{
}

/// The raw mail with colour codes and six digits after '+', '@' or '=' removed, then six digits
/// followed by a domain.
pub open spec fn cleaned_raw(raw: Seq<char>) -> Seq<char> {
    removed(
        "\\b\\d{6}\\.[a-zA-Z][a-zA-Z0-9.-]*"@,
        removed("=\\d{6}"@, removed("@\\d{6}"@, removed("\\+\\d{6}"@, removed("#([0-9a-fA-F]{6})\\b"@, raw)))),
    )
}

/// The code in a raw mail (MIME source): as in a mail's content, else after "code is" (with or
/// without ':'), else six digits standing alone once the raw text is cleaned.
pub open spec fn spec_code_from_raw(raw: Seq<char>) -> Option<Seq<char>> {
    first_some(
        spec_code_from_content(raw),
        first_some(
            group("code is (\\d{6})"@, raw),
            first_some(group("code is:\\s*(\\d{6})"@, raw), group(six_alone(), cleaned_raw(raw))),
        ),
    )
}

pub fn extract_verification_code_from_mail_raw_body(raw: &str) -> (r: Option<String>)
    ensures
        opt_str_view(r) == spec_code_from_raw(raw@),
{
    match extract_verification_code_from_content(raw) {
        Some(c) => return Some(c),
        None => {},
    }
    match regex_group1("code is (\\d{6})", raw) {
        Some(c) => return Some(c),
        None => {},
    }
    match regex_group1("code is:\\s*(\\d{6})", raw) {
        Some(c) => return Some(c),
        None => {},
    }
    let a = regex_remove_all("#([0-9a-fA-F]{6})\\b", raw);
    let b = regex_remove_all("\\+\\d{6}", a.as_str());
    let c = regex_remove_all("@\\d{6}", b.as_str());
    let d = regex_remove_all("=\\d{6}", c.as_str());
    let e = regex_remove_all("\\b\\d{6}\\.[a-zA-Z][a-zA-Z0-9.-]*", d.as_str());
    regex_group1("\\b(\\d{6})\\b", e.as_str())
}

// ---------------------------------------------------------------------------
// Mailbox services
// ---------------------------------------------------------------------------

/// The tempmail.plus listing of the latest ten mails of `email`, opened with `pin`.
pub fn tempmail_list_url(email: &str, pin: &str) -> (r: String)
    ensures
        r@ == "https://tempmail.plus/api/mails?email="@ + spec_url_encode(email@) + "&limit=10&epin="@
            + pin@,
{
    let enc = url_encode(email);
    let mut r = owned("https://tempmail.plus/api/mails?email=");
    r.append(enc.as_str());
    r.append("&limit=10&epin=");
    r.append(pin);
    r
}

/// The tempmail.plus page of the mail `mail_id` of `email`, opened with `pin`.
pub fn tempmail_detail_url(mail_id: u64, email: &str, pin: &str) -> (r: String)
    ensures
        r@ == "https://tempmail.plus/api/mails/"@ + spec_decimal(mail_id as int) + "?email="@
            + spec_url_encode(email@) + "&epin="@ + pin@,
{
    let enc = url_encode(email);
    let id = u64_text(mail_id);
    let mut r = owned("https://tempmail.plus/api/mails/");
    r.append(id.as_str());
    r.append("?email=");
    r.append(enc.as_str());
    r.append("&epin=");
    r.append(pin);
    r
}

/// The Outlook mail service's latest mails of `email`: the inbox (box type 1), or the junk
/// folder (box type 2) when `junk` holds.
pub fn outlook_box_url(email: &str, junk: bool) -> (r: String)
    ensures
        r@ == "http://query.paopaodw.com/api/GetLastEmails?email="@ + spec_url_encode(email@)
            + (if junk { "&boxType=2"@ } else { "&boxType=1"@ }),
{
    let enc = url_encode(email);
    let mut r = owned("http://query.paopaodw.com/api/GetLastEmails?email=");
    r.append(enc.as_str());
    if junk {
        r.append("&boxType=2");
    } else {
        r.append("&boxType=1");
    }
    r
}

/// The code in the first mail of a Cloudflare mailbox listing (`first_raw`: its "raw" text).
pub fn cloudflare_code(first_raw: Option<&str>) -> (r: Option<String>)
    ensures
        opt_str_view(r) == match first_raw {
            Some(raw) => spec_code_from_raw(raw@),
            None => None,
        },
{
    match first_raw {
        Some(raw) => extract_verification_code_from_mail_raw_body(raw),
        None => None,
    }
}

/// The code of the first mail, in listing order from `k` on, whose "Body" holds one.
pub open spec fn outlook_code_from(items: Seq<Json>, k: int) -> Option<Seq<char>>
    decreases items.len() - k,
{
    if k < 0 || k >= items.len() {
        None
    } else {
        match items[k].get_str("Body"@) {
            Some(body) => match spec_code_from_content(body) {
                Some(c) => Some(c),
                None => outlook_code_from(items, k + 1),
            },
            None => outlook_code_from(items, k + 1),
        }
    }
}

/// The code in an Outlook mailbox listing: from the first mail in its "data" whose "Body" holds
/// one.
pub open spec fn spec_outlook_code(listing: Json) -> Option<Seq<char>> {
    match listing.get_array("data"@) {
        Some(a) => outlook_code_from(a, 0),
        None => None,
    }
}

pub fn outlook_code(listing: &JsonValue) -> (r: Option<String>)
    ensures
        opt_str_view(r) == spec_outlook_code(listing.model()),
{
    match listing.get_array("data") {
        Some(arr) => {
            proof {
                lemma_models(arr@);
            }
            let ghost items = models(arr@);
            let mut i: usize = 0;
            while i < arr.len()
                invariant
                    i <= arr.len(),
                    items == models(arr@),
                    items.len() == arr.len(),
                    forall|k: int| 0 <= k < arr.len() ==> #[trigger] items[k] == arr@[k].model(),
                    outlook_code_from(items, 0) == outlook_code_from(items, i as int),
                    listing.model().get_array("data"@) == Some(items),
                decreases arr.len() - i,
            {
                match arr[i].get_str("Body") {
                    Some(body) => match extract_verification_code_from_content(body.as_str()) {
                        Some(c) => return Some(c),
                        None => {},
                    },
                    None => {},
                }
                i += 1;
            }
            None
        },
        None => None,
    }
}

/// The code in a mail of the tempmail service: only a mail whose HTML names the address being
/// registered counts; its text is tried first, then its HTML.
pub open spec fn spec_tempmail_code(ok: bool, html: Seq<char>, text: Seq<char>, register_email: Seq<char>) -> Option<Seq<char>> {
    if ok && spec_contains(html, register_email) {
        match spec_code_from_text(text) {
            Ok(c) => Some(c),
            Err(_) => spec_code_from_content(html),
        }
    } else {
        None
    }
}

pub fn tempmail_code(ok: bool, html: &str, text: &str, register_email: &str) -> (r: Option<String>)
    ensures
        opt_str_view(r) == spec_tempmail_code(ok, html@, text@, register_email@),
{
    if !(ok && contains(html, register_email)) {
        return None;
    }
    match extract_verification_code_from_text(text) {
        Ok(c) => Some(c),
        Err(_) => extract_verification_code_from_content(html),
    }
}

// ---------------------------------------------------------------------------
// A self-hosted mailbox API: where the mail is in its reply
// ---------------------------------------------------------------------------

/// Whether the last ']' of a path segment does not come before its first '['; the segment is
/// cut between them.
pub open spec fn brackets_ordered(seg: Seq<char>) -> bool {
    match (spec_find(seg, seq!['[']), spec_rfind(seg, seq![']'])) {
        (Some(o), Some(c)) => c > o,
        _ => true,
    }
}

/// One step of a path: "key[i]" (or "[i]") indexes the array under `key` (or the value itself),
/// a number indexes the value, anything else names a member.
pub open spec fn spec_navigate(v: Json, segment: Seq<char>) -> Result<Json, Seq<char>> {
    let seg = spec_trim(segment);
    if seg.len() == 0 {
        Err("JSON路径存在空段"@)
    } else {
        match spec_find(seg, seq!['[']) {
            Some(o) => {
                let key = spec_trim(seg.subrange(0, o));
                match spec_rfind(seg, seq![']']) {
                    None => Err("路径段括号不匹配: "@ + seg),
                    Some(c) => {
                        let idx_text = spec_trim(seg.subrange(o + 1, c));
                        match spec_parse_unsigned(idx_text, usize::MAX as nat) {
                            None => Err("无效的数组下标: "@ + idx_text),
                            Some(idx) => {
                                let parent = if key.len() == 0 {
                                    Some(v)
                                } else {
                                    v.get(key)
                                };
                                match parent {
                                    None => Err("JSON路径不存在: "@ + key),
                                    Some(p) => match p.as_array() {
                                        None => Err(
                                            "路径 "@ + (if key.len() == 0 {
                                                "根"@
                                            } else {
                                                key
                                            }) + " 不是数组"@,
                                        ),
                                        Some(a) => if idx < a.len() {
                                            Ok(a[idx as int])
                                        } else {
                                            Err("数组下标 "@ + spec_decimal(idx as int) + " 越界"@)
                                        },
                                    },
                                }
                            },
                        }
                    },
                }
            },
            None => if all_ascii_digits(seg) {
                match spec_parse_unsigned(seg, usize::MAX as nat) {
                    None => Err("无效数字路径段: "@ + seg),
                    Some(idx) => match v.as_array() {
                        None => Err("当前节点不是数组，无法使用下标 "@ + spec_decimal(idx as int)),
                        Some(a) => if idx < a.len() {
                            Ok(a[idx as int])
                        } else {
                            Err("数组下标 "@ + spec_decimal(idx as int) + " 越界"@)
                        },
                    },
                }
            } else {
                match v.get(seg) {
                    Some(x) => Ok(x),
                    None => Err("JSON路径不存在: "@ + seg),
                }
            },
        }
    }
}

fn index_error(idx: usize) -> (r: String)
    ensures
        r@ == "数组下标 "@ + spec_decimal(idx as int) + " 越界"@,
{
    concat3("数组下标 ", usize_text(idx).as_str(), " 越界")
}

fn element_at(a: &Vec<JsonValue>, idx: usize) -> (r: Result<&JsonValue, String>)
    ensures
        ({
            let m = models(a@);
            match r {
                Ok(x) => idx < m.len() && x.model() == m[idx as int],
                Err(e) => idx >= m.len() && e@ == "数组下标 "@ + spec_decimal(idx as int) + " 越界"@,
            }
        }),
{
    proof {
        lemma_models(a@);
    }
    if idx < a.len() {
        Ok(&a[idx])
    } else {
        Err(index_error(idx))
    }
}

/// One step of a path into a JSON reply.
pub fn json_navigate_one_segment<'a>(v: &'a JsonValue, segment: &str) -> (r: Result<&'a JsonValue, String>)
    requires
        brackets_ordered(spec_trim(segment@)),
    ensures
        match r {
            Ok(x) => spec_navigate(v.model(), segment@) == Ok::<Json, Seq<char>>(x.model()),
            Err(e) => spec_navigate(v.model(), segment@) == Err::<Json, Seq<char>>(e@),
        },
{
    let seg = trim(segment);
    let sv = chars_of(seg.as_str());
    if sv.len() == 0 {
        return Err(owned("JSON路径存在空段"));
    }
    let mut open_v: Vec<char> = Vec::new();
    open_v.push('[');
    let mut close_v: Vec<char> = Vec::new();
    close_v.push(']');
    assert(open_v@ =~= seq!['[']);
    assert(close_v@ =~= seq![']']);
    match crate::text::find_chars_from(&sv, &open_v, 0) {
        Some(o) => {
            proof {
                crate::text::lemma_find_from_result(seg@, seq!['['], 0);
            }
            let key_raw = string_from_chars(&sv, 0, o);
            let key = trim(key_raw.as_str());
            match crate::text::rfind_chars(&sv, &close_v) {
                None => Err(concat("路径段括号不匹配: ", seg.as_str())),
                Some(c) => {
                    let idx_raw = string_from_chars(&sv, o + 1, c);
                    let idx_text = trim(idx_raw.as_str());
                    match parse_usize(idx_text.as_str()) {
                        None => Err(concat("无效的数组下标: ", idx_text.as_str())),
                        Some(idx) => {
                            let key_empty = char_count(key.as_str()) == 0;
                            let parent: &JsonValue = if key_empty {
                                v
                            } else {
                                match v.get(key.as_str()) {
                                    Some(p) => p,
                                    None => {
                                        return Err(concat("JSON路径不存在: ", key.as_str()));
                                    },
                                }
                            };
                            match parent.as_array() {
                                None => {
                                    if key_empty {
                                        Err(concat3("路径 ", "根", " 不是数组"))
                                    } else {
                                        Err(concat3("路径 ", key.as_str(), " 不是数组"))
                                    }
                                },
                                Some(a) => element_at(a, idx),
                            }
                        },
                    }
                },
            }
        },
        None => {
            if is_all_ascii_digits(seg.as_str()) {
                match parse_usize(seg.as_str()) {
                    None => Err(concat("无效数字路径段: ", seg.as_str())),
                    Some(idx) => match v.as_array() {
                        None => Err(concat("当前节点不是数组，无法使用下标 ", usize_text(idx).as_str())),
                        Some(a) => element_at(a, idx),
                    },
                }
            } else {
                match v.get(seg.as_str()) {
                    Some(x) => Ok(x),
                    None => Err(concat("JSON路径不存在: ", seg.as_str())),
                }
            }
        },
    }
}


/// The steps of a path after the first `k` of its '.'-separated pieces (blank pieces skipped).
pub open spec fn spec_walk(v: Json, pieces: Seq<Seq<char>>, k: int) -> Result<Json, Seq<char>>
    decreases pieces.len() - k,
{
    if k < 0 || k >= pieces.len() {
        Ok(v)
    } else if spec_trim(pieces[k]).len() == 0 {
        spec_walk(v, pieces, k + 1)
    } else {
        match spec_navigate(v, pieces[k]) {
            Ok(x) => spec_walk(x, pieces, k + 1),
            Err(e) => Err(e),
        }
    }
}

pub open spec fn path_pieces(path: Seq<char>) -> Seq<Seq<char>> {
    crate::text::spec_split_char(spec_trim(path), '.')
}

/// Every step of the path has its brackets in order.
pub open spec fn path_brackets_ordered(path: Seq<char>) -> bool {
    forall|k: int| 0 <= k < path_pieces(path).len() ==> brackets_ordered(spec_trim(#[trigger] path_pieces(path)[k]))
}

/// The value a '.'-separated path leads to, or the first step's error;
/// `Err("响应JSON路径为空")` for a blank path.
pub open spec fn spec_value_at_path(root: Json, path: Seq<char>) -> Result<Json, Seq<char>> {
    if spec_trim(path).len() == 0 {
        Err("响应JSON路径为空"@)
    } else {
        spec_walk(root, path_pieces(path), 0)
    }
}

/// Follows a path such as "results[0].raw" into a JSON reply.
pub fn json_value_at_path<'a>(root: &'a JsonValue, path: &str) -> (r: Result<&'a JsonValue, String>)
    requires
        path_brackets_ordered(path@),
    ensures
        match r {
            Ok(x) => spec_value_at_path(root.model(), path@) == Ok::<Json, Seq<char>>(x.model()),
            Err(e) => spec_value_at_path(root.model(), path@) == Err::<Json, Seq<char>>(e@),
        },
{
    let p = trim(path);
    if char_count(p.as_str()) == 0 {
        return Err(owned("响应JSON路径为空"));
    }
    let parts = crate::text::split_char(p.as_str(), '.');
    let ghost pieces = path_pieces(path@);
    let mut cur: &JsonValue = root;
    let mut i: usize = 0;
    while i < parts.len()
        invariant
            i <= parts.len(),
            pieces == path_pieces(path@),
            parts@.map_values(|x: String| x@) == pieces,
            path_brackets_ordered(path@),
            spec_walk(root.model(), pieces, 0) == spec_walk(cur.model(), pieces, i as int),
        decreases parts.len() - i,
    {
        assert(pieces[i as int] == parts@[i as int]@);
        let t = trim(parts[i].as_str());
        if char_count(t.as_str()) > 0 {
            assert(brackets_ordered(spec_trim(pieces[i as int])));
            match json_navigate_one_segment(cur, parts[i].as_str()) {
                Ok(x) => {
                    cur = x;
                },
                Err(e) => {
                    return Err(e);
                },
            }
        }
        i += 1;
    }
    Ok(cur)
}

/// Why a value is not the text of a mail.
pub enum MailRawError {
    /// The path leads to null.
    Null,
    /// The path leads to something other than a string.
    NotText,
}

impl MailRawError {
    /// The error's message; `shown` is how the value that is not text is printed.
    pub fn message(&self, shown: &str) -> (r: String)
        ensures
            r@ == match self {
                MailRawError::Null => "JSON路径指向 null"@,
                MailRawError::NotText => "JSON路径须指向字符串（邮件原文），当前为: "@ + shown@,
            },
    {
        match self {
            MailRawError::Null => owned("JSON路径指向 null"),
            MailRawError::NotText => concat("JSON路径须指向字符串（邮件原文），当前为: ", shown),
        }
    }
}

/// The mail text a path leads to: a string, else an error saying whether it is null or another
/// kind of value.
pub fn json_value_to_mail_raw(v: &JsonValue) -> (r: Result<String, MailRawError>)
    ensures
        match v.model() {
            Json::Str(s) => r matches Ok(t) && t@ == s,
            Json::Null => r matches Err(MailRawError::Null),
            _ => r matches Err(MailRawError::NotText),
        },
{
    match v {
        JsonValue::Str(s) => Ok(s.clone()),
        JsonValue::Null => Err(MailRawError::Null),
        _ => Err(MailRawError::NotText),
    }
}

/// The request headers of the self-hosted mailbox API, from the parse of their JSON text (or
/// the parser's error message): the members of a JSON object, else an error.
pub fn parse_self_hosted_headers(parsed: Result<JsonValue, String>) -> (r: Result<Vec<JsonMember>, String>)
    ensures
        match parsed {
            Err(e) => r matches Err(m) && m@ == "请求 Headers 须为合法 JSON 对象: "@ + e@,
            Ok(v) => match v.model() {
                Json::Object(members) => r matches Ok(o) && member_models(o@) == members,
                _ => r matches Err(m) && m@ == "请求 Headers 须为 JSON 对象（键值对）"@,
            },
        },
{
    match parsed {
        Err(e) => Err(concat("请求 Headers 须为合法 JSON 对象: ", e.as_str())),
        Ok(JsonValue::Object(members)) => Ok(members),
        Ok(_) => Err(owned("请求 Headers 须为 JSON 对象（键值对）")),
    }
}

/// The path of the mail in the API's reply: as configured, without surrounding spaces and dots;
/// "results[0].raw" when that leaves nothing.
pub open spec fn spec_response_path(p: Seq<char>) -> Seq<char> {
    let t = spec_trim_both(spec_trim(p), CharClass::Exactly('.'));
    if t.len() == 0 {
        "results[0].raw"@
    } else {
        t
    }
}

pub fn self_hosted_response_path(p: &str) -> (r: String)
    ensures
        r@ == spec_response_path(p@),
{
    let a = trim(p);
    let b = trim_class(a.as_str(), CharClass::Exactly('.'));
    if char_count(b.as_str()) == 0 {
        owned("results[0].raw")
    } else {
        b
    }
}

/// The API's URL, trimmed; `Err("自建邮箱 API URL 为空")` when blank.
pub fn self_hosted_url(url: &str) -> (r: Result<String, String>)
    ensures
        match r {
            Ok(u) => u@ == spec_trim(url@) && u@.len() > 0,
            Err(e) => spec_trim(url@).len() == 0 && e@ == "自建邮箱 API URL 为空"@,
        },
{
    let u = trim(url);
    if char_count(u.as_str()) == 0 {
        Err(owned("自建邮箱 API URL 为空"))
    } else {
        Ok(u)
    }
}

/// The request that empties the mailbox before waiting for the code: none when that is off;
/// else the trimmed URL (an error when blank) and the trimmed method ("GET" by default).
pub fn clear_request(clear_enabled: bool, clear_url: Option<&str>, clear_method: Option<&str>) -> (r: Result<Option<(String, String)>, String>)
    ensures
        !clear_enabled ==> r matches Ok(None),
        clear_enabled ==> {
            let url = spec_trim(
                match clear_url {
                    Some(u) => u@,
                    None => Seq::empty(),
                },
            );
            let method = spec_trim(
                match clear_method {
                    Some(m) => m@,
                    None => "GET"@,
                },
            );
            match r {
                Ok(Some(req)) => url.len() > 0 && req.0@ == url && req.1@ == method,
                Ok(None) => false,
                Err(e) => url.len() == 0 && e@ == "已开启清空邮箱，但清空 URL 为空"@,
            }
        },
{
    if !clear_enabled {
        return Ok(None);
    }
    proof {
        reveal_strlit("");
        assert(""@ =~= Seq::<char>::empty());
    }
    let url = match clear_url {
        Some(u) => trim(u),
        None => trim(""),
    };
    if char_count(url.as_str()) == 0 {
        return Err(owned("已开启清空邮箱，但清空 URL 为空"));
    }
    let method = match clear_method {
        Some(m) => trim(m),
        None => trim("GET"),
    };
    Ok(Some((url, method)))
}

/// The address being registered, as mails are matched against it: trimmed and lowercased.
pub fn normalized_register_email(email: Option<&str>) -> (r: String)
    ensures
        r@ == spec_lowercase(
            spec_trim(
                match email {
                    Some(e) => e@,
                    None => Seq::empty(),
                },
            ),
        ),
{
    proof {
        reveal_strlit("");
        assert(""@ =~= Seq::<char>::empty());
    }
    let t = match email {
        Some(e) => trim(e),
        None => trim(""),
    };
    to_lowercase(t.as_str())
}

/// The local part of an address (before the first '@'), trimmed.
pub fn email_local_part(email: &str) -> (r: String)
    ensures
        r@ == spec_trim(spec_first_piece(email@, '@')),
{
    let f = first_piece(email, '@');
    trim(f.as_str())
}

/// Whether a mail belongs to the address being registered: its lowercased text holds the
/// address, or the local part when that has at least three bytes.
pub open spec fn spec_mail_matches(text: Seq<char>, expected: Seq<char>, local: Seq<char>) -> bool {
    let lower = spec_lowercase(text);
    spec_contains(lower, expected) || (str_len(local) >= 3 && spec_contains(lower, local))
}

pub fn mail_matches_email(text: &str, expected: &str, local: &str) -> (r: bool)
    ensures
        r == spec_mail_matches(text@, expected@, local@),
{
    let lower = to_lowercase(text);
    contains(lower.as_str(), expected) || (byte_len(local) >= 3 && contains(lower.as_str(), local))
}

// ---------------------------------------------------------------------------
// Random mailbox names
// ---------------------------------------------------------------------------

/// Every character of `s` is an ASCII letter or digit.
pub open spec fn all_alphanumeric(s: Seq<char>) -> bool {
    forall|i: int| 0 <= i < s.len() ==> is_ascii_alphanumeric(#[trigger] s[i])
}

/// The three drawn parts of a random mailbox name: five letters or digits, one to three
/// decimal digits, and one to three letters or digits.
pub open spec fn random_name_parts(a: Seq<char>, d: Seq<char>, b: Seq<char>) -> bool {
    &&& a.len() == 5 && all_alphanumeric(a)
    &&& 1 <= d.len() <= 3 && all_ascii_digits(d)
    &&& 1 <= b.len() <= 3 && all_alphanumeric(b)
}

/// `n` characters drawn from rand's `Alphanumeric` distribution.
fn random_alphanumeric_text(n: u64) -> (s: String)
    ensures
        s@.len() == n,
        all_alphanumeric(s@),
{
    let mut s = String::new();
    let mut i: u64 = 0;
    while i < n
        invariant
            i <= n,
            s@.len() == i,
            all_alphanumeric(s@),
        decreases n - i,
    {
        let c = random_alphanumeric();
        s.push(c);
        i = i + 1;
    }
    s
}

/// `n` decimal digits, each drawn from 0..=9.
fn random_digit_text(n: u64) -> (s: String)
    ensures
        s@.len() == n,
        all_ascii_digits(s@),
{
    let mut s = String::new();
    let mut i: u64 = 0;
    while i < n
        invariant
            i <= n,
            s@.len() == i,
            all_ascii_digits(s@),
        decreases n - i,
    {
        let d = random_in_range(0, 9);
        let c = digit_of(d);
        s.push(c);
        assert(is_ascii_digit_char(c));
        i = i + 1;
    }
    s
}

/// A random local part for a temporary mailbox: five letters or digits, one to three decimal
/// digits, then one to three letters or digits, each letter part lower-cased.
pub fn generate_random_email_name() -> (r: String)
    ensures
        exists|a: Seq<char>, d: Seq<char>, b: Seq<char>|
            #[trigger] random_name_parts(a, d, b) && r@ == spec_lowercase(a) + d
                + spec_lowercase(b),
{
    let head = random_alphanumeric_text(5);
    let letters1 = to_lowercase(head.as_str());
    let count = random_in_range(1, 3);
    let numbers = random_digit_text(count);
    let tail_len = random_in_range(1, 3);
    let tail = random_alphanumeric_text(tail_len);
    let letters2 = to_lowercase(tail.as_str());
    let r = concat3(letters1.as_str(), numbers.as_str(), letters2.as_str());
    assert(random_name_parts(head@, numbers@, tail@));
    r
}

// ---------------------------------------------------------------------------
// How long codes are polled for
// ---------------------------------------------------------------------------

/// A loop that keeps fetching a verification code until one comes.
#[derive(PartialEq, Eq, Structural, Clone, Copy)]
pub enum CodePoll {
    /// The listing of a Cloudflare temporary mailbox.
    CloudflareMailbox,
    /// The rounds over a tempmail.plus mailbox.
    TempmailMailbox,
    /// The inbox and junk folder of the Outlook mail service.
    OutlookMailbox,
    /// The self-hosted mailbox API.
    SelfHostedMailbox,
    /// The automatic filling of a code from the Cloudflare mailbox during a registration.
    CloudflareAutoFill,
    /// The automatic filling of a code from the Outlook mail service during a registration.
    OutlookAutoFill,
    /// The automatic filling of a code from tempmail.plus during a registration.
    TempmailAutoFill,
}

/// What a poll does after an attempt that found no code.
pub enum PollAction {
    /// Wait `wait_secs` seconds, then fetch again.
    Retry { wait_secs: u64 },
    /// Wait `wait_secs` seconds, then stop with `message`.
    GiveUp { wait_secs: u64, message: String },
}

/// How many fetches a poll makes before it gives up.
pub open spec fn poll_attempts(p: CodePoll) -> nat {
    match p {
        CodePoll::TempmailMailbox => 10,
        CodePoll::CloudflareAutoFill => 10,
        CodePoll::OutlookAutoFill => 10,
        CodePoll::TempmailAutoFill => 1,
        _ => 30,
    }
}

/// The seconds between two fetches.
pub open spec fn poll_wait(p: CodePoll) -> nat {
    match p {
        CodePoll::TempmailMailbox => 12,
        CodePoll::TempmailAutoFill => 0,
        _ => 10,
    }
}

/// The seconds waited before the first fetch.
pub open spec fn poll_first_wait(p: CodePoll) -> nat {
    match p {
        CodePoll::SelfHostedMailbox => 30,
        CodePoll::CloudflareAutoFill => 5,
        CodePoll::OutlookAutoFill => 8,
        CodePoll::TempmailAutoFill => 5,
        _ => 0,
    }
}

/// Whether the poll also waits after its last fetch (the Cloudflare listing waits after every
/// fetch).
pub open spec fn waits_after_last(p: CodePoll) -> bool {
    p == CodePoll::CloudflareMailbox
}

/// What the poll says when it gives up.
pub open spec fn poll_give_up_message(p: CodePoll) -> Seq<char> {
    match p {
        CodePoll::CloudflareMailbox => "获取验证码超时"@,
        CodePoll::TempmailMailbox => "从tempmail获取验证码失败，已尝试10轮查找（约2分钟），请手动输入验证码"@,
        CodePoll::OutlookMailbox => "获取验证码超时，请检查邮箱或稍后重试"@,
        CodePoll::SelfHostedMailbox => "自建邮箱 API 获取验证码超时"@,
        CodePoll::CloudflareAutoFill => "获取验证码失败"@,
        CodePoll::OutlookAutoFill => "自动获取验证码失败，请手动输入验证码"@,
        CodePoll::TempmailAutoFill => "自动获取验证码超时，请手动输入验证码"@,
    }
}

/// Whether the poll gives up after its `attempt`-th fetch found nothing.
pub open spec fn gives_up_after(p: CodePoll, attempt: nat) -> bool {
    attempt >= poll_attempts(p)
}

/// The seconds waited after the `attempt`-th fetch found nothing.
pub open spec fn wait_after_miss(p: CodePoll, attempt: nat) -> nat {
    if !gives_up_after(p, attempt) || waits_after_last(p) {
        poll_wait(p)
    } else {
        0
    }
}

/// The seconds waited in all when the first `n` fetches found nothing.
pub open spec fn waited_after(p: CodePoll, n: nat) -> nat
    decreases n,
{
    if n == 0 {
        poll_first_wait(p)
    } else {
        waited_after(p, (n - 1) as nat) + wait_after_miss(p, n)
    }
}

/// `a` is what the poll `p` does after its `attempt`-th fetch, waiting `wait` seconds: fetch
/// again before the last attempt, else give up with the poll's message.
pub open spec fn poll_action_is(a: PollAction, p: CodePoll, attempt: nat, wait: nat) -> bool {
    match a {
        PollAction::Retry { wait_secs } => !gives_up_after(p, attempt) && wait_secs == wait,
        PollAction::GiveUp { wait_secs, message } => gives_up_after(p, attempt) && wait_secs == wait
            && message@ == poll_give_up_message(p),
    }
}

/// The seconds to wait before the first fetch.
pub fn first_wait_secs(p: CodePoll) -> (r: u64)
    ensures
        r == poll_first_wait(p),
{
    match p {
        CodePoll::SelfHostedMailbox => 30,
        CodePoll::CloudflareAutoFill => 5,
        CodePoll::OutlookAutoFill => 8,
        CodePoll::TempmailAutoFill => 5,
        _ => 0,
    }
}

/// What to do after the `attempt`-th fetch (counted from 1) found no code: fetch again after
/// the wait, or, after the last attempt, stop with the poll's message.
pub fn after_missed_attempt(p: CodePoll, attempt: u64) -> (r: PollAction)
    ensures
        poll_action_is(r, p, attempt as nat, wait_after_miss(p, attempt as nat)),
{
    let (attempts, wait): (u64, u64) = match p {
        CodePoll::TempmailMailbox => (10, 12),
        CodePoll::CloudflareAutoFill => (10, 10),
        CodePoll::OutlookAutoFill => (10, 10),
        CodePoll::TempmailAutoFill => (1, 0),
        _ => (30, 10),
    };
    if attempt < attempts {
        return PollAction::Retry { wait_secs: wait };
    }
    let last_wait: u64 = match p {
        CodePoll::CloudflareMailbox => wait,
        _ => 0,
    };
    let message = match p {
        CodePoll::CloudflareMailbox => owned("获取验证码超时"),
        CodePoll::TempmailMailbox => owned("从tempmail获取验证码失败，已尝试10轮查找（约2分钟），请手动输入验证码"),
        CodePoll::OutlookMailbox => owned("获取验证码超时，请检查邮箱或稍后重试"),
        CodePoll::SelfHostedMailbox => owned("自建邮箱 API 获取验证码超时"),
        CodePoll::CloudflareAutoFill => owned("获取验证码失败"),
        CodePoll::OutlookAutoFill => owned("自动获取验证码失败，请手动输入验证码"),
        CodePoll::TempmailAutoFill => owned("自动获取验证码超时，请手动输入验证码"),
    };
    PollAction::GiveUp { wait_secs: last_wait, message }
}

proof fn lemma_waited_before_last(p: CodePoll, n: nat)
    requires
        n < poll_attempts(p),
    ensures
        waited_after(p, n) == poll_first_wait(p) + n * poll_wait(p),
    decreases n,
{
    if n > 0 {
        lemma_waited_before_last(p, (n - 1) as nat);
        let w = poll_wait(p);
        assert((n - 1) * w + w == n * w) by (nonlinear_arith);
    }
}

/// A poll whose fetches all find nothing fetches exactly its number of attempts, then gives
/// up; by then it has waited its first wait, the wait between each two fetches, and, for the
/// Cloudflare listing, one wait more after the last fetch.
pub proof fn lemma_poll_schedule(p: CodePoll)
    ensures
        forall|a: nat| 1 <= a < poll_attempts(p) ==> !#[trigger] gives_up_after(p, a),
        gives_up_after(p, poll_attempts(p)),
        waited_after(p, poll_attempts(p)) == poll_first_wait(p) + (poll_attempts(p) - 1) * poll_wait(p)
            + (if waits_after_last(p) { poll_wait(p) } else { 0 }),
{
    let n = poll_attempts(p);
    lemma_waited_before_last(p, (n - 1) as nat);
}

// ---------------------------------------------------------------------------
// One fetch of the self-hosted mailbox poll
// ---------------------------------------------------------------------------

/// Which fetch of an attempt the self-hosted mailbox poll has made.
#[derive(PartialEq, Eq, Structural, Clone, Copy)]
pub enum SelfHostedFetch {
    /// The attempt's regular fetch.
    Regular,
    /// The fetch made at once after a mail for another address.
    Refetch,
}

/// What a fetch of the self-hosted mailbox leads to.
pub enum SelfHostedStep {
    /// The verification code was found.
    Code(String),
    /// The mail is for another address: fetch once more at once, in the same attempt.
    RefetchNow,
    /// The attempt is over; go on as the action says.
    Then(PollAction),
}

/// The outcome of a fetch, before the attempt count is taken into account.
pub enum SelfHostedOutcome {
    Code(Seq<char>),
    RefetchNow,
    /// No code in this attempt; the poll's usual wait follows.
    Missed,
    /// The second fetch brought nothing usable either; the next attempt follows without a wait.
    NextAttemptNow,
}

/// What a fetch that gave the mail text `mail` (`None` when the reply was not a success, not
/// JSON, or had no text at the configured path) leads to. A mail for another address than
/// `expected` (when that is not empty) makes the regular fetch repeat at once; after the
/// repeat, the attempt ends without a wait. Otherwise the code is looked for in the mail.
pub open spec fn spec_self_hosted_outcome(
    fetch: SelfHostedFetch,
    mail: Option<Seq<char>>,
    expected: Seq<char>,
    local: Seq<char>,
) -> SelfHostedOutcome {
    match mail {
        None => if fetch == SelfHostedFetch::Regular {
            SelfHostedOutcome::Missed
        } else {
            SelfHostedOutcome::NextAttemptNow
        },
        Some(raw) => if expected.len() > 0 && !spec_mail_matches(raw, expected, local) {
            if fetch == SelfHostedFetch::Regular {
                SelfHostedOutcome::RefetchNow
            } else {
                SelfHostedOutcome::NextAttemptNow
            }
        } else {
            match spec_code_from_content(raw) {
                Some(c) => SelfHostedOutcome::Code(c),
                None => SelfHostedOutcome::Missed,
            }
        },
    }
}

/// The decision after a fetch of the self-hosted mailbox in the `attempt`-th attempt
/// (counted from 1): the code, a repeat at once, or the next attempt after the poll's wait
/// (no wait after a repeat that did not help), or giving up after the last attempt.
/// `expected` is the normalized address being registered and `local` its local part.
pub fn self_hosted_step(
    fetch: SelfHostedFetch,
    mail: Option<&str>,
    expected: &str,
    local: &str,
    attempt: u64,
) -> (r: SelfHostedStep)
    ensures
        match spec_self_hosted_outcome(
            fetch,
            match mail {
                Some(m) => Some(m@),
                None => None,
            },
            expected@,
            local@,
        ) {
            SelfHostedOutcome::Code(c) => r matches SelfHostedStep::Code(t) && t@ == c,
            SelfHostedOutcome::RefetchNow => r is RefetchNow,
            SelfHostedOutcome::Missed => r matches SelfHostedStep::Then(a) && poll_action_is(
                a,
                CodePoll::SelfHostedMailbox,
                attempt as nat,
                wait_after_miss(CodePoll::SelfHostedMailbox, attempt as nat),
            ),
            SelfHostedOutcome::NextAttemptNow => r matches SelfHostedStep::Then(a) && poll_action_is(
                a,
                CodePoll::SelfHostedMailbox,
                attempt as nat,
                0,
            ),
        },
{
    let raw = match mail {
        None => {
            if fetch == SelfHostedFetch::Regular {
                return SelfHostedStep::Then(after_missed_attempt(CodePoll::SelfHostedMailbox, attempt));
            } else {
                return SelfHostedStep::Then(next_attempt_now(attempt));
            }
        },
        Some(m) => m,
    };
    if char_count(expected) > 0 && !mail_matches_email(raw, expected, local) {
        if fetch == SelfHostedFetch::Regular {
            return SelfHostedStep::RefetchNow;
        } else {
            return SelfHostedStep::Then(next_attempt_now(attempt));
        }
    }
    match extract_verification_code_from_content(raw) {
        Some(c) => SelfHostedStep::Code(c),
        None => SelfHostedStep::Then(after_missed_attempt(CodePoll::SelfHostedMailbox, attempt)),
    }
}

/// The next attempt of the self-hosted poll without a wait, or giving up after the last one.
fn next_attempt_now(attempt: u64) -> (r: PollAction)
    ensures
        poll_action_is(r, CodePoll::SelfHostedMailbox, attempt as nat, 0),
{
    if attempt < 30 {
        PollAction::Retry { wait_secs: 0 }
    } else {
        PollAction::GiveUp { wait_secs: 0, message: owned("自建邮箱 API 获取验证码超时") }
    }
}

} // verus!
