//! Account registration through the bundled browser-automation program: the lines it prints,
//! the arguments and configuration it is started with, the result read back from it, and the
//! helpers around it (bank cards, the phone-number service, Codex automation steps, saved Codex
//! tokens).
use vstd::prelude::*;
use std::hash::{Hash, Hasher};
use crate::json::{JsonValue, JsonNumber, JsonMember, Json, opt_model, opt_str_view, models, lemma_models};
use crate::text::{
    CharClass, owned, concat, concat3, str_eq, contains, starts_with, ends_with, chars_of,
    string_from_chars, trim, trim_start_class, trim_end_class, char_count, byte_len, extract_digits,
    spec_contains, spec_starts_with, spec_ends_with, spec_trim, spec_trim_start, spec_trim_end,
    spec_truncate, keep_chars, is_ascii_digit_char, is_ascii_char, str_len, all_ascii_digits,
    is_all_ascii_digits,
};
use crate::numbers::{u64_text, usize_text, spec_decimal};
use crate::outside::{
    regex_remove_all, regex_group1, spec_regex_remove_all, spec_regex_group1, utf8_text, gbk_text,
    spec_gbk_decode,
};

verus! {

// ---------------------------------------------------------------------------
// The program's output
// ---------------------------------------------------------------------------

/// The pattern of ANSI escape sequences (colours, cursor moves) in the program's output.
pub open spec fn ansi_pattern() -> Seq<char> {
    "\\x1B\\[[0-9;?]*[ -/]*[@-~]"@
}

/// The characters of `s` other than the replacement character U+FFFD.
pub open spec fn without_replacement_chars(s: Seq<char>) -> Seq<char> {
    keep_chars(s, |c: char| c != '\u{FFFD}')
}

/// A line with escape sequences, replacement characters and trailing line ends removed; when
/// the console replaced a leading emoji by "? ", that prefix is dropped too if what follows
/// (after spaces) starts with '[' or with a non-ASCII character.
pub open spec fn spec_sanitize(line: Seq<char>) -> Seq<char> {
    let cleaned = spec_trim_end(
        without_replacement_chars(spec_regex_remove_all(ansi_pattern(), line)),
        CharClass::LineEnd,
    );
    if spec_starts_with(cleaned, "? "@) {
        let rest = spec_trim_start(cleaned.skip(2), CharClass::Whitespace);
        if rest.len() > 0 && (rest[0] == '[' || !is_ascii_char(rest[0])) {
            rest
        } else {
            cleaned
        }
    } else {
        cleaned
    }
}

fn remove_replacement_chars(s: &str) -> (r: String)
    ensures
        r@ == without_replacement_chars(s@),
{
    let v = chars_of(s);
    let mut out = String::new();
    let mut i: usize = 0;
    while i < v.len()
        invariant
            v@ == s@,
            i <= v.len(),
            out@ == keep_chars(v@.take(i as int), |c: char| c != '\u{FFFD}'),
        decreases v.len() - i,
    {
        assert(v@.take(i + 1).drop_last() =~= v@.take(i as int));
        if v[i] != '\u{FFFD}' {
            out.push(v[i]);
        }
        i += 1;
    }
    assert(v@.take(v.len() as int) =~= v@);
    out
}

/// A line of the program's output as it is shown and kept.
pub fn sanitize_python_output_line(line: &str) -> (r: String)
    ensures
        r@ == spec_sanitize(line@),
{
    let stripped = regex_remove_all("\\x1B\\[[0-9;?]*[ -/]*[@-~]", line);
    let no_fffd = remove_replacement_chars(stripped.as_str());
    let cleaned = trim_end_class(no_fffd.as_str(), CharClass::LineEnd);
    if starts_with(cleaned.as_str(), "? ") {
        proof {
            reveal_strlit("? ");
        }
        let v = chars_of(cleaned.as_str());
        let after = string_from_chars(&v, 2, v.len());
        assert(after@ =~= cleaned@.skip(2));
        let rest = trim_start_class(after.as_str(), CharClass::Whitespace);
        let rv = chars_of(rest.as_str());
        if rv.len() > 0 && (rv[0] == '[' || !(rv[0] < '\u{80}')) {
            return rest;
        }
    }
    cleaned
}

/// The text of a chunk of output: UTF-8 when it is valid, else GBK (as a Chinese Windows console
/// writes), without trailing line ends.
pub open spec fn spec_decode_output(buffer: Seq<u8>) -> Seq<char> {
    let text = if vstd::utf8::valid_utf8(buffer) {
        vstd::utf8::decode_utf8(buffer)
    } else {
        spec_gbk_decode(buffer)
    };
    spec_sanitize(spec_trim_end(text, CharClass::LineEnd))
}

/// Decodes and cleans a chunk of the program's output.
pub fn decode_python_output(buffer: &[u8]) -> (r: String)
    ensures
        r@ == spec_decode_output(buffer@),
{
    let text = match utf8_text(buffer) {
        Some(t) => t,
        None => gbk_text(buffer),
    };
    let trimmed = trim_end_class(text.as_str(), CharClass::LineEnd);
    sanitize_python_output_line(trimmed.as_str())
}

/// Whether a line of output asks for the verification code to be typed in.
pub open spec fn spec_requests_code(line: Seq<char>) -> bool {
    spec_contains(line, "等待前端输入验证码"@) || spec_contains(line, "request_verification_code"@)
}

/// Whether a line of output says that fetching the code timed out and it must be typed in.
pub open spec fn spec_reports_code_timeout(line: Seq<char>) -> bool {
    spec_contains(line, "verification_timeout"@) || spec_contains(line, "manual_input_required"@)
}

pub fn line_requests_code(line: &str) -> (r: bool)
    ensures
        r == spec_requests_code(line@),
{
    contains(line, "等待前端输入验证码") || contains(line, "request_verification_code")
}

pub fn line_reports_code_timeout(line: &str) -> (r: bool)
    ensures
        r == spec_reports_code_timeout(line@),
{
    contains(line, "verification_timeout") || contains(line, "manual_input_required")
}

// ---------------------------------------------------------------------------
// Arguments
// ---------------------------------------------------------------------------

/// "true" or "false" for an optional switch with default `default`.
pub fn switch_text(v: Option<bool>, default: bool) -> (r: String)
    ensures
        r@ == (if (match v {
            Some(b) => b,
            None => default,
        }) {
            "true"@
        } else {
            "false"@
        }),
{
    let on = match v {
        Some(b) => b,
        None => default,
    };
    if on {
        owned("true")
    } else {
        owned("false")
    }
}

/// "1" when phone verification is to be skipped (off unless asked), else "0".
pub fn skip_phone_flag(v: Option<bool>) -> (r: String)
    ensures
        r@ == (if v == Some(true) {
            "1"@
        } else {
            "0"@
        }),
{
    match v {
        Some(true) => owned("1"),
        _ => owned("0"),
    }
}

/// Whether `code` is a verification code: six ASCII digits.
pub fn is_valid_verification_code(code: &str) -> (r: bool)
    ensures
        r == (all_ascii_digits(code@) && str_len(code@) == 6),
{
    is_all_ascii_digits(code) && byte_len(code) == 6
}

/// The check of a submitted verification code; `Err("验证码必须是6位数字")` when it is not one.
pub fn check_verification_code(code: &str) -> (r: Result<(), String>)
    ensures
        r is Ok <==> (all_ascii_digits(code@) && str_len(code@) == 6),
        r matches Err(e) ==> e@ == "验证码必须是6位数字"@,
{
    if is_valid_verification_code(code) {
        Ok(())
    } else {
        Err(owned("验证码必须是6位数字"))
    }
}

/// The file the program reads a typed-in code from: one per task, or the shared one.
pub fn verification_code_file_name(task_id: Option<&str>) -> (r: String)
    ensures
        r@ == match task_id {
            Some(t) => "cursor_verification_code_"@ + t@ + ".txt"@,
            None => "cursor_verification_code.txt"@,
        },
{
    match task_id {
        Some(t) => concat3("cursor_verification_code_", t, ".txt"),
        None => owned("cursor_verification_code.txt"),
    }
}

/// The signal that lets a paused automation go on: the action, trimmed ("continue" by
/// default); `Err("继续信号不能为空")` when it is blank.
pub fn continue_signal(action: Option<String>) -> (r: Result<String, String>)
    ensures
        match action {
            Some(a) => match r {
                Ok(s) => s@ == spec_trim(a@) && spec_trim(a@).len() > 0,
                Err(e) => spec_trim(a@).len() == 0 && e@ == "继续信号不能为空"@,
            },
            None => r matches Ok(s) && s@ == "continue"@,
        },
{
    match action {
        Some(a) => {
            let s = trim(a.as_str());
            if char_count(s.as_str()) == 0 {
                Err(owned("继续信号不能为空"))
            } else {
                Ok(s)
            }
        },
        None => {
            proof {
                reveal_strlit("continue");
            }
            let s = trim("continue");
            proof {
                assert(spec_trim_start("continue"@, CharClass::Whitespace) == "continue"@);
                assert(spec_trim_end("continue"@, CharClass::Whitespace) == "continue"@);
            }
            Ok(s)
        },
    }
}


// ---------------------------------------------------------------------------
// Bank cards
// ---------------------------------------------------------------------------

/// The cards of a bank card configuration: its "cards" array, or (in the older layout) the
/// whole configuration as one card.
pub open spec fn card_list(data: Json) -> Seq<Json> {
    match data.get_array("cards"@) {
        Some(a) => a,
        None => seq![data],
    }
}

pub open spec fn spec_select_card(data: Json, selected: Option<u32>) -> Result<nat, Seq<char>> {
    let cards = card_list(data);
    let idx: nat = match selected {
        Some(i) => i as nat,
        None => 0,
    };
    if cards.len() == 0 {
        Err("银行卡配置为空，请先配置至少一张银行卡"@)
    } else if idx >= cards.len() {
        Err("银行卡索引 "@ + spec_decimal(idx as int) + " 超出范围（总共 "@ + spec_decimal(cards.len() as int)
            + " 张卡）"@)
    } else {
        Ok(idx)
    }
}

/// The index of the card a registration will use (the selected one, else the first); an error
/// when there is no card or the index is out of range.
pub fn select_bank_card(data: &JsonValue, selected: Option<u32>) -> (r: Result<usize, String>)
    ensures
        match r {
            Ok(i) => spec_select_card(data.model(), selected) == Ok::<nat, Seq<char>>(i as nat),
            Err(e) => spec_select_card(data.model(), selected) == Err::<nat, Seq<char>>(e@),
        },
{
    let count: usize = match data.get_array("cards") {
        Some(a) => {
            proof {
                lemma_models(a@);
            }
            a.len()
        },
        None => 1,
    };
    assert(count == card_list(data.model()).len());
    let idx: usize = match selected {
        Some(i) => i as usize,
        None => 0,
    };
    if count == 0 {
        return Err(owned("银行卡配置为空，请先配置至少一张银行卡"));
    }
    if idx >= count {
        let a = concat("银行卡索引 ", usize_text(idx).as_str());
        let b = concat3(a.as_str(), " 超出范围（总共 ", usize_text(count).as_str());
        return Err(concat(b.as_str(), " 张卡）"));
    }
    Ok(idx)
}

/// The fields every card of the older layout must fill.
pub open spec fn required_card_fields() -> Seq<Seq<char>> {
    seq![
        "cardNumber"@,
        "cardExpiry"@,
        "cardCvc"@,
        "billingName"@,
        "billingCountry"@,
        "billingPostalCode"@,
        "billingAdministrativeArea"@,
        "billingLocality"@,
        "billingDependentLocality"@,
        "billingAddressLine1"@,
    ]
}

/// The first of the fields from `k` on that `data` lacks or leaves empty.
pub open spec fn first_missing_field(data: Json, fields: Seq<Seq<char>>, k: int) -> Option<Seq<char>>
    decreases fields.len() - k,
{
    if k < 0 || k >= fields.len() {
        None
    } else if match data.get_str(fields[k]) {
        Some(v) => v.len() > 0,
        None => false,
    } {
        first_missing_field(data, fields, k + 1)
    } else {
        Some(fields[k])
    }
}

/// What converting a bank card configuration to the "cards" layout gives: `Ok(None)` when it
/// already has that layout, the converted configuration when the one card is complete, else an
/// error naming the first missing field.
pub open spec fn spec_convert_card_config(data: Json) -> Result<Option<Json>, Seq<char>> {
    if data.get_array("cards"@) is Some {
        Ok(None)
    } else {
        match first_missing_field(data, required_card_fields(), 0) {
            Some(f) => Err("银行卡配置缺少必需字段: "@ + f),
            None => Ok(Some(empty_object_with_cards(data))),
        }
    }
}

pub open spec fn empty_object_with_cards(card: Json) -> Json {
    crate::json::empty_object().insert("cards"@, Json::Array(seq![card]))
}

fn card_field(i: usize) -> (r: String)
    requires
        i < 10,
    ensures
        r@ == required_card_fields()[i as int],
{
    if i == 0 {
        owned("cardNumber")
    } else if i == 1 {
        owned("cardExpiry")
    } else if i == 2 {
        owned("cardCvc")
    } else if i == 3 {
        owned("billingName")
    } else if i == 4 {
        owned("billingCountry")
    } else if i == 5 {
        owned("billingPostalCode")
    } else if i == 6 {
        owned("billingAdministrativeArea")
    } else if i == 7 {
        owned("billingLocality")
    } else if i == 8 {
        owned("billingDependentLocality")
    } else {
        owned("billingAddressLine1")
    }
}

/// Converts a bank card configuration of the older one-card layout to the "cards" layout.
pub fn convert_bank_card_config(data: &JsonValue) -> (r: Result<Option<JsonValue>, String>)
    ensures
        match r {
            Ok(None) => spec_convert_card_config(data.model()) == Ok::<Option<Json>, Seq<char>>(None),
            Ok(Some(c)) => spec_convert_card_config(data.model()) == Ok::<Option<Json>, Seq<char>>(Some(c.model())),
            Err(e) => spec_convert_card_config(data.model()) == Err::<Option<Json>, Seq<char>>(e@),
        },
{
    if data.get_array("cards").is_some() {
        return Ok(None);
    }
    let ghost fields = required_card_fields();
    let mut i: usize = 0;
    while i < 10
        invariant
            i <= 10,
            fields == required_card_fields(),
            fields.len() == 10,
            data.model().get_array("cards"@) is None,
            first_missing_field(data.model(), fields, 0) == first_missing_field(data.model(), fields, i as int),
        decreases 10 - i,
    {
        let f = card_field(i);
        let filled = match data.get_str(f.as_str()) {
            Some(v) => char_count(v.as_str()) > 0,
            None => false,
        };
        if !filled {
            assert(first_missing_field(data.model(), fields, i as int) == Some(fields[i as int]));
            return Err(concat("银行卡配置缺少必需字段: ", f.as_str()));
        }
        i += 1;
    }
    assert(first_missing_field(data.model(), fields, 10) is None);
    let mut cards: Vec<JsonValue> = Vec::new();
    cards.push(data.deep_clone());
    let mut out = JsonValue::new_object();
    proof {
        lemma_models(cards@);
    }
    assert(models(cards@) =~= seq![data.model()]);
    let arr = JsonValue::Array(cards);
    out.insert(owned("cards"), arr);
    Ok(Some(out))
}

// ---------------------------------------------------------------------------
// The configuration handed to the program
// ---------------------------------------------------------------------------

pub open spec fn u64_or(v: Option<u64>, d: u64) -> u64 {
    match v {
        Some(x) => x,
        None => d,
    }
}

pub open spec fn bool_or(v: Option<bool>, d: bool) -> bool {
    match v {
        Some(x) => x,
        None => d,
    }
}

/// The runtime configuration before the phone-number service settings: the subscription
/// choices from the front end (with their defaults), the card index, the front end's proxy,
/// and the custom browser path.
pub open spec fn spec_base_config(frontend: Option<Json>, card_index: u32, browser: Option<Seq<char>>) -> Json {
    let btn = match frontend {
        Some(f) => u64_or(f.get_u64("btnIndex"@), 1),
        None => 1,
    };
    let tier = match frontend {
        Some(f) => match f.get_str("subscriptionTier"@) {
            Some(t) => t,
            None => "pro"@,
        },
        None => "pro"@,
    };
    let auto_pay = match frontend {
        Some(f) => bool_or(f.get_bool("allowAutomaticPayment"@), true),
        None => true,
    };
    let trial = match frontend {
        Some(f) => bool_or(f.get_bool("allowTrial"@), true),
        None => true,
    };
    let api = match frontend {
        Some(f) => u64_or(f.get_u64("useApiForBindCard"@), 1),
        None => 1,
    };
    let base = crate::json::empty_object().insert("btnIndex"@, crate::json::spec_json_u64(btn)).insert(
        "subscriptionTier"@,
        Json::Str(tier),
    ).insert("allowAutomaticPayment"@, Json::Bool(auto_pay)).insert("allowTrial"@, Json::Bool(trial)).insert(
        "useApiForBindCard"@,
        crate::json::spec_json_u64(api),
    ).insert("cardIndex"@, crate::json::spec_json_u64(card_index as u64));
    let with_proxy = match frontend {
        Some(f) => match f.get("proxy"@) {
            Some(p) => base.insert("proxy"@, p),
            None => base,
        },
        None => base,
    };
    match browser {
        Some(b) => with_proxy.insert("custom_browser_path"@, Json::Str(b)),
        None => with_proxy,
    }
}

/// The phone-number service settings that the program gets: the saved ones with the front
/// end's merged over them, either alone, or none.
pub open spec fn spec_haozhuma_settings(frontend: Option<Json>, saved: Option<Json>) -> Option<Json> {
    let from_frontend = match frontend {
        Some(f) => f.get("haozhuma"@),
        None => None,
    };
    match (saved, from_frontend) {
        (Some(s), Some(h)) => Some(crate::json::spec_merge(s, h)),
        (Some(s), None) => Some(s),
        (None, Some(h)) => Some(h),
        (None, None) => None,
    }
}

pub open spec fn owned_model(o: Option<JsonValue>) -> Option<Json> {
    match o {
        Some(j) => Some(j.model()),
        None => None,
    }
}

/// The runtime configuration of a registration.
pub open spec fn spec_runtime_config(
    frontend: Option<Json>,
    card_index: u32,
    browser: Option<Seq<char>>,
    saved_haozhuma: Option<Json>,
) -> Json {
    let base = spec_base_config(frontend, card_index, browser);
    match spec_haozhuma_settings(frontend, saved_haozhuma) {
        Some(h) => base.insert("haozhuma"@, h),
        None => base,
    }
}

/// Merges the phone-number service settings into a runtime configuration: the saved settings
/// (`saved`, when the settings file is not blank and parses) with the front end's "haozhuma"
/// merged over them.
pub fn merge_haozhuma_config_into_runtime_config(
    config_obj: &mut JsonValue,
    frontend_config: Option<&JsonValue>,
    saved: Option<JsonValue>,
)
    ensures
        final(config_obj).model() == match spec_haozhuma_settings(opt_model(frontend_config), owned_model(saved)) {
            Some(h) => old(config_obj).model().insert("haozhuma"@, h),
            None => old(config_obj).model(),
        },
{
    let from_frontend: Option<&JsonValue> = match frontend_config {
        Some(f) => f.get("haozhuma"),
        None => None,
    };
    let merged = match saved {
        Some(mut s) => match from_frontend {
            Some(h) => {
                crate::json::merge_json_value(&mut s, h);
                s
            },
            None => s,
        },
        None => match from_frontend {
            Some(h) => h.deep_clone(),
            None => {
                return;
            },
        },
    };
    config_obj.insert(owned("haozhuma"), merged);
}

/// Builds the runtime configuration of a registration.
pub fn registration_runtime_config(
    frontend: Option<&JsonValue>,
    card_index: u32,
    browser: Option<String>,
    saved_haozhuma: Option<JsonValue>,
) -> (r: JsonValue)
    ensures
        r.model() == spec_runtime_config(
            opt_model(frontend),
            card_index,
            opt_str_view(browser),
            owned_model(saved_haozhuma),
        ),
{
    let btn: u64 = match frontend {
        Some(f) => match f.get_u64("btnIndex") {
            Some(x) => x,
            None => 1,
        },
        None => 1,
    };
    let tier: String = match frontend {
        Some(f) => match f.get_str("subscriptionTier") {
            Some(t) => t,
            None => owned("pro"),
        },
        None => owned("pro"),
    };
    let auto_pay: bool = match frontend {
        Some(f) => match f.get_bool("allowAutomaticPayment") {
            Some(x) => x,
            None => true,
        },
        None => true,
    };
    let trial: bool = match frontend {
        Some(f) => match f.get_bool("allowTrial") {
            Some(x) => x,
            None => true,
        },
        None => true,
    };
    let api: u64 = match frontend {
        Some(f) => match f.get_u64("useApiForBindCard") {
            Some(x) => x,
            None => 1,
        },
        None => 1,
    };
    let mut c = JsonValue::new_object();
    c.insert(owned("btnIndex"), JsonValue::from_u64(btn));
    c.insert(owned("subscriptionTier"), JsonValue::Str(tier));
    c.insert(owned("allowAutomaticPayment"), JsonValue::Bool(auto_pay));
    c.insert(owned("allowTrial"), JsonValue::Bool(trial));
    c.insert(owned("useApiForBindCard"), JsonValue::from_u64(api));
    c.insert(owned("cardIndex"), JsonValue::from_u64(card_index as u64));
    match frontend {
        Some(f) => match f.get("proxy") {
            Some(p) => c.insert(owned("proxy"), p.deep_clone()),
            None => {},
        },
        None => {},
    }
    match browser {
        Some(b) => c.insert(owned("custom_browser_path"), JsonValue::Str(b)),
        None => {},
    }
    merge_haozhuma_config_into_runtime_config(&mut c, frontend, saved_haozhuma);
    c
}


// ---------------------------------------------------------------------------
// The result of a run
// ---------------------------------------------------------------------------

pub open spec fn line_views(s: Seq<String>) -> Seq<Seq<char>> {
    s.map_values(|t: String| t@)
}

/// The lines joined with "\n" between them.
pub open spec fn joined(lines: Seq<Seq<char>>) -> Seq<char>
    decreases lines.len(),
{
    if lines.len() == 0 {
        Seq::empty()
    } else if lines.len() == 1 {
        lines[0]
    } else {
        joined(lines.drop_last()) + "\n"@ + lines.last()
    }
}

/// `lines.join("\n")`.
pub fn join_lines(lines: &Vec<String>) -> (r: String)
    ensures
        r@ == joined(line_views(lines@)),
{
    let mut out = String::new();
    let mut i: usize = 0;
    while i < lines.len()
        invariant
            i <= lines.len(),
            out@ == joined(line_views(lines@).take(i as int)),
        decreases lines.len() - i,
    {
        let ghost prev = line_views(lines@).take(i as int);
        assert(line_views(lines@).take(i as int + 1).drop_last() =~= prev);
        if i > 0 {
            out.push('\n');
        }
        out.append(lines[i].as_str());
        proof {
            reveal_strlit("\n");
            if i == 0 {
                assert(line_views(lines@).take(1) =~= seq![lines@[0]@]);
            }
        }
        assert(out@ =~= joined(line_views(lines@).take(i as int + 1)));
        i += 1;
    }
    assert(line_views(lines@).take(lines.len() as int) =~= line_views(lines@));
    out
}

/// The message of a run that ended well without saying more.
pub open spec fn finished_message() -> Seq<char> {
    "注册成功（进程成功退出）"@
}

/// The result of a run whose output holds no JSON line.
pub open spec fn spec_default_result(email: Seq<char>, success: bool, killed: bool, lines: Seq<Seq<char>>) -> Json {
    if success {
        crate::json::empty_object().insert("success"@, Json::Bool(true)).insert("email"@, Json::Str(email)).insert(
            "message"@,
            Json::Str(finished_message()),
        ).insert("output_lines"@, crate::json::spec_str_array(lines)).insert("raw_output"@, Json::Str(joined(lines)))
    } else {
        crate::json::empty_object().insert("success"@, Json::Bool(false)).insert(
            "error"@,
            Json::Str(
                if killed {
                    "进程超时被终止"@
                } else {
                    "进程执行失败"@
                },
            ),
        ).insert("output_lines"@, crate::json::spec_str_array(lines)).insert("raw_output"@, Json::Str(joined(lines)))
    }
}

/// A JSON line of the output with the run's output added: all lines, their text, the error
/// output when there is some, and, for a run that ended well, success (with the default message
/// when the line gave none).
pub open spec fn spec_patched_result(parsed: Json, success: bool, lines: Seq<Seq<char>>, errors: Seq<Seq<char>>) -> Json {
    let a = parsed.insert("output_lines"@, crate::json::spec_str_array(lines)).insert(
        "raw_output"@,
        Json::Str(joined(lines)),
    );
    let b = if joined(errors).len() > 0 {
        a.insert("error_output"@, Json::Str(joined(errors)))
    } else {
        a
    };
    if success && b.get_bool("success"@) != Some(true) {
        let c = b.insert("success"@, Json::Bool(true));
        if c.get("message"@) is None {
            c.insert("message"@, Json::Str(finished_message()))
        } else {
            c
        }
    } else {
        b
    }
}

/// The last line among the first `n` that is JSON: one that starts with '{' once trimmed and
/// that parsed.
pub open spec fn last_json_line(lines: Seq<Seq<char>>, parsed: Seq<Option<Json>>, n: int) -> Option<int>
    decreases n,
{
    if n <= 0 {
        None
    } else if spec_starts_with(spec_trim(lines[n - 1]), seq!['{']) && parsed[n - 1] is Some {
        Some(n - 1)
    } else {
        last_json_line(lines, parsed, n - 1)
    }
}

/// The result of a run: the last JSON line of its output, completed, or a plain success or
/// failure.
pub open spec fn spec_registration_result(
    email: Seq<char>,
    exited_ok: bool,
    was_killed: bool,
    lines: Seq<Seq<char>>,
    errors: Seq<Seq<char>>,
    parsed: Seq<Option<Json>>,
) -> Json {
    let success = exited_ok && !was_killed;
    match last_json_line(lines, parsed, lines.len() as int) {
        Some(i) => spec_patched_result(parsed[i].unwrap(), success, lines, errors),
        None => spec_default_result(email, success, was_killed, lines),
    }
}

pub open spec fn parsed_models(s: Seq<Option<JsonValue>>) -> Seq<Option<Json>> {
    s.map_values(|o: Option<JsonValue>| owned_model(o))
}

/// Each parsed line is an object (what a line that starts with '{' parses to).
pub open spec fn parsed_are_objects(s: Seq<Option<JsonValue>>) -> bool {
    forall|i: int| 0 <= i < s.len() ==> (#[trigger] s[i] matches Some(j) ==> j.model() is Object)
}

fn json_line_at(lines: &Vec<String>, parsed: &Vec<Option<JsonValue>>, i: usize) -> (r: bool)
    requires
        i < lines.len(),
        parsed.len() == lines.len(),
    ensures
        r == (spec_starts_with(spec_trim(line_views(lines@)[i as int]), seq!['{'])
            && parsed_models(parsed@)[i as int] is Some),
{
    let t = trim(lines[i].as_str());
    proof {
        reveal_strlit("{");
        assert("{"@ =~= seq!['{']);
    }
    crate::text::starts_with(t.as_str(), "{") && parsed[i].is_some()
}

/// The result of a run of the program, from how it ended (`exited_ok`: it exited with success;
/// `was_killed`: it was stopped after the time limit), its output and error lines, and each
/// output line parsed as JSON where it is JSON (`parsed[i]`, for the trimmed line `i`).
pub fn registration_result(
    email: &str,
    exited_ok: bool,
    was_killed: bool,
    lines: &Vec<String>,
    errors: &Vec<String>,
    parsed: &Vec<Option<JsonValue>>,
) -> (r: JsonValue)
    requires
        parsed.len() == lines.len(),
        parsed_are_objects(parsed@),
    ensures
        r.model() == spec_registration_result(
            email@,
            exited_ok,
            was_killed,
            line_views(lines@),
            line_views(errors@),
            parsed_models(parsed@),
        ),
{
    let success = exited_ok && !was_killed;
    let ghost lv = line_views(lines@);
    let ghost pm = parsed_models(parsed@);
    let mut k: usize = lines.len();
    while k > 0 && !json_line_at(lines, parsed, k - 1)
        invariant
            k <= lines.len(),
            parsed.len() == lines.len(),
            lv == line_views(lines@),
            pm == parsed_models(parsed@),
            last_json_line(lv, pm, lines.len() as int) == last_json_line(lv, pm, k as int),
        decreases k,
    {
        k -= 1;
    }
    let raw = join_lines(lines);
    let all = JsonValue::from_strings(lines);
    if k == 0 {
        let mut r = JsonValue::new_object();
        if success {
            r.insert(owned("success"), JsonValue::Bool(true));
            r.insert(owned("email"), JsonValue::Str(owned(email)));
            r.insert(owned("message"), JsonValue::Str(owned("注册成功（进程成功退出）")));
        } else {
            r.insert(owned("success"), JsonValue::Bool(false));
            let e = if was_killed {
                owned("进程超时被终止")
            } else {
                owned("进程执行失败")
            };
            r.insert(owned("error"), JsonValue::Str(e));
        }
        r.insert(owned("output_lines"), all);
        r.insert(owned("raw_output"), JsonValue::Str(raw));
        return r;
    }
    let mut r = match &parsed[k - 1] {
        Some(j) => j.deep_clone(),
        None => JsonValue::Null,
    };
    r.insert(owned("output_lines"), all);
    r.insert(owned("raw_output"), JsonValue::Str(raw));
    let err = join_lines(errors);
    if char_count(err.as_str()) > 0 {
        r.insert(owned("error_output"), JsonValue::Str(err));
    }
    if success && r.get_bool("success") != Some(true) {
        r.insert(owned("success"), JsonValue::Bool(true));
        if r.get("message").is_none() {
            r.insert(owned("message"), JsonValue::Str(owned("注册成功（进程成功退出）")));
        }
    }
    r
}

// ---------------------------------------------------------------------------
// Task ids
// ---------------------------------------------------------------------------

/// Hashes `email` and then `millis` with `std::collections::hash_map::DefaultHasher::new()`.
/// std does not specify the algorithm nor promise the same hash across platforms or releases,
/// so nothing is stated of the value.
#[verifier::external_body]
fn task_hash(email: &str, millis: u128) -> (r: u64) {
    let mut hasher = std::collections::hash_map::DefaultHasher::new();
    email.hash(&mut hasher);
    millis.hash(&mut hasher);
    hasher.finish()
}

/// The milliseconds since the Unix epoch on the system clock (`SystemTime::now()` and
/// `duration_since`), or `None` when the clock reads before the epoch. Nothing is promised of
/// the value: it is the time.
#[verifier::external_body]
fn now_millis() -> (r: Option<u128>) {
    match std::time::SystemTime::now().duration_since(std::time::UNIX_EPOCH) {
        Ok(d) => Some(d.as_millis()),
        Err(_) => None,
    }
}

/// A task id for a registration of `email`: the hash of the address and the current time, in
/// hexadecimal, so that parallel registrations keep their verification code files apart. A
/// clock that reads before 1970 counts as time 0.
pub fn generate_task_id(email: &str) -> (r: String)
    ensures
        exists|h: u64| r@ == crate::numbers::spec_hex(h as nat),
{
    let t = match now_millis() {
        Some(t) => t,
        None => 0,
    };
    let h = task_hash(email, t);
    crate::numbers::hex_text(h)
}

// ---------------------------------------------------------------------------
// The web server port
// ---------------------------------------------------------------------------

/// The port of the web server: the "port" of its configuration, cut to 16 bits as `as u16`
/// does, else 34567.
pub fn web_server_port(config: Option<&JsonValue>) -> (r: u16)
    ensures
        r == match opt_model(config) {
            Some(j) => match j.get_u64("port"@) {
                Some(p) => (p % 65536) as u16,
                None => 34567u16,
            },
            None => 34567u16,
        },
{
    match config {
        Some(j) => match j.get_u64("port") {
            Some(p) => (p % 65536) as u16,
            None => 34567,
        },
        None => 34567,
    }
}

/// The message after the port has been saved.
pub fn port_saved_message(port: u16) -> (r: String)
    ensures
        r@ == "端口已设置为: "@ + spec_decimal(port as int) + ", 需要重启应用生效"@,
{
    concat3("端口已设置为: ", u64_text(port as u64).as_str(), ", 需要重启应用生效")
}


// ---------------------------------------------------------------------------
// The phone-number service
// ---------------------------------------------------------------------------

/// The token in a JSON reply: the first of "token", "Token", "data", "result" that holds a
/// string of at least 8 bytes once trimmed.
pub open spec fn json_token(v: Json) -> Option<Seq<char>> {
    let keys = seq!["token"@, "Token"@, "data"@, "result"@];
    json_token_from(v, keys, 0)
}

pub open spec fn json_token_from(v: Json, keys: Seq<Seq<char>>, k: int) -> Option<Seq<char>>
    decreases keys.len() - k,
{
    if k < 0 || k >= keys.len() {
        None
    } else {
        match v.get_str(keys[k]) {
            Some(s) => if str_len(spec_trim(s)) >= 8 {
                Some(spec_trim(s))
            } else {
                json_token_from(v, keys, k + 1)
            },
            None => json_token_from(v, keys, k + 1),
        }
    }
}

/// The first piece from `k` on that is non-empty and at least 8 bytes long once trimmed.
pub open spec fn first_long_piece(pieces: Seq<Seq<char>>, k: int) -> Option<Seq<char>>
    decreases pieces.len() - k,
{
    if k < 0 || k >= pieces.len() {
        None
    } else if spec_trim(pieces[k]).len() > 0 && str_len(spec_trim(pieces[k])) >= 8 {
        Some(spec_trim(pieces[k]))
    } else {
        first_long_piece(pieces, k + 1)
    }
}

/// The token in a piece of text separated by `sep`, when the text holds `sep`.
pub open spec fn separated_token(text: Seq<char>, sep: char) -> Option<Seq<char>> {
    if spec_contains(text, seq![sep]) {
        first_long_piece(crate::text::spec_split_char(text, sep), 0)
    } else {
        None
    }
}

/// The token in a login reply: from its JSON (`parsed`, when the reply is JSON), else from its
/// pieces separated by '|', ',' or ';', else the first run of 8 or more ASCII letters and digits.
pub open spec fn spec_extract_token(text: Seq<char>, parsed: Option<Json>) -> Option<Seq<char>> {
    let from_json = match parsed {
        Some(v) => json_token(v),
        None => None,
    };
    match from_json {
        Some(t) => Some(t),
        None => match separated_token(text, '|') {
            Some(t) => Some(t),
            None => match separated_token(text, ',') {
                Some(t) => Some(t),
                None => match separated_token(text, ';') {
                    Some(t) => Some(t),
                    None => spec_regex_group1("([A-Za-z0-9]{8,})"@, text),
                },
            },
        },
    }
}

fn token_key(i: usize) -> (r: String)
    requires
        i < 4,
    ensures
        r@ == seq!["token"@, "Token"@, "data"@, "result"@][i as int],
{
    if i == 0 {
        owned("token")
    } else if i == 1 {
        owned("Token")
    } else if i == 2 {
        owned("data")
    } else {
        owned("result")
    }
}

fn json_token_exec(v: &JsonValue) -> (r: Option<String>)
    ensures
        opt_str_view(r) == json_token(v.model()),
{
    let ghost keys = seq!["token"@, "Token"@, "data"@, "result"@];
    let mut i: usize = 0;
    while i < 4
        invariant
            i <= 4,
            keys == seq!["token"@, "Token"@, "data"@, "result"@],
            json_token(v.model()) == json_token_from(v.model(), keys, i as int),
        decreases 4 - i,
    {
        let key = token_key(i);
        match v.get_str(key.as_str()) {
            Some(s) => {
                let t = trim(s.as_str());
                if byte_len(t.as_str()) >= 8 {
                    return Some(t);
                }
            },
            None => {},
        }
        i += 1;
    }
    None
}

fn separated_token_exec(text: &str, sep: char) -> (r: Option<String>)
    ensures
        opt_str_view(r) == separated_token(text@, sep),
{
    if !crate::text::contains_char(text, sep) {
        return None;
    }
    let parts = crate::text::split_char(text, sep);
    let ghost pieces = crate::text::spec_split_char(text@, sep);
    let mut i: usize = 0;
    while i < parts.len()
        invariant
            i <= parts.len(),
            pieces == crate::text::spec_split_char(text@, sep),
            spec_contains(text@, seq![sep]),
            parts@.map_values(|x: String| x@) == pieces,
            first_long_piece(pieces, 0) == first_long_piece(pieces, i as int),
        decreases parts.len() - i,
    {
        let t = trim(parts[i].as_str());
        assert(pieces[i as int] == parts@[i as int]@);
        if char_count(t.as_str()) > 0 && byte_len(t.as_str()) >= 8 {
            return Some(t);
        }
        i += 1;
    }
    None
}

/// The token in a login reply of the phone-number service (`parsed`: the reply read as JSON,
/// when it is JSON).
pub fn extract_token_from_text(text: &str, parsed: Option<&JsonValue>) -> (r: Option<String>)
    ensures
        opt_str_view(r) == spec_extract_token(text@, opt_model(parsed)),
{
    match parsed {
        Some(v) => match json_token_exec(v) {
            Some(t) => return Some(t),
            None => {},
        },
        None => {},
    }
    match separated_token_exec(text, '|') {
        Some(t) => return Some(t),
        None => {},
    }
    match separated_token_exec(text, ',') {
        Some(t) => return Some(t),
        None => {},
    }
    match separated_token_exec(text, ';') {
        Some(t) => return Some(t),
        None => {},
    }
    regex_group1("([A-Za-z0-9]{8,})", text)
}

/// The service's SMS endpoint for `api_domain`: "https://" is put in front of a bare domain,
/// trailing '/' are dropped, and "/sms/" is appended.
pub open spec fn spec_sms_url(api_domain: Seq<char>) -> Seq<char> {
    let base = spec_trim(api_domain);
    let full = if spec_starts_with(base, "http://"@) || spec_starts_with(base, "https://"@) {
        base
    } else {
        "https://"@ + base
    };
    spec_trim_end(full, CharClass::Exactly('/')) + "/sms/"@
}

pub fn haozhuma_sms_url(api_domain: &str) -> (r: String)
    ensures
        r@ == spec_sms_url(api_domain@),
{
    let base = trim(api_domain);
    let full = if starts_with(base.as_str(), "http://") || starts_with(base.as_str(), "https://") {
        base
    } else {
        concat("https://", base.as_str())
    };
    let cut = trim_end_class(full.as_str(), CharClass::Exactly('/'));
    concat(cut.as_str(), "/sms/")
}

pub open spec fn pair_text_views(s: Seq<(String, String)>) -> Seq<(Seq<char>, Seq<char>)> {
    s.map_values(|p: (String, String)| (p.0@, p.1@))
}

/// The phone filters the service is asked with, in order: each filter of `filters` that holds a
/// non-blank string, trimmed, under the service's parameter name.
pub open spec fn filter_params(filters: Json) -> Seq<(Seq<char>, Seq<char>)> {
    filter_from(filters, 0)
}

pub open spec fn filter_keys() -> Seq<(Seq<char>, Seq<char>)> {
    seq![
        ("isp"@, "isp"@),
        ("province"@, "Province"@),
        ("ascription"@, "ascription"@),
        ("paragraph"@, "paragraph"@),
        ("exclude"@, "exclude"@),
        ("uid"@, "uid"@),
        ("author"@, "author"@),
    ]
}

pub open spec fn filter_from(filters: Json, k: int) -> Seq<(Seq<char>, Seq<char>)>
    decreases 7 - k,
{
    if k < 0 || k >= 7 {
        Seq::empty()
    } else {
        let rest = filter_from(filters, k + 1);
        match filters.get_str(filter_keys()[k].0) {
            Some(v) => if spec_trim(v).len() > 0 {
                seq![(filter_keys()[k].1, spec_trim(v))] + rest
            } else {
                rest
            },
            None => rest,
        }
    }
}

fn filter_key(i: usize) -> (r: (String, String))
    requires
        i < 7,
    ensures
        (r.0@, r.1@) == filter_keys()[i as int],
{
    if i == 0 {
        (owned("isp"), owned("isp"))
    } else if i == 1 {
        (owned("province"), owned("Province"))
    } else if i == 2 {
        (owned("ascription"), owned("ascription"))
    } else if i == 3 {
        (owned("paragraph"), owned("paragraph"))
    } else if i == 4 {
        (owned("exclude"), owned("exclude"))
    } else if i == 5 {
        (owned("uid"), owned("uid"))
    } else {
        (owned("author"), owned("author"))
    }
}

/// The query of a phone-number request: the API name, the token, the project id, then the
/// filters.
pub fn haozhuma_phone_params(token: &str, sid: &str, filters: &JsonValue) -> (r: Vec<(String, String)>)
    ensures
        pair_text_views(r@) == seq![("api"@, "getPhone"@), ("token"@, token@), ("sid"@, sid@)] + filter_params(
            filters.model(),
        ),
{
    let mut out: Vec<(String, String)> = Vec::new();
    out.push((owned("api"), owned("getPhone")));
    out.push((owned("token"), owned(token)));
    out.push((owned("sid"), owned(sid)));
    let ghost head = seq![("api"@, "getPhone"@), ("token"@, token@), ("sid"@, sid@)];
    assert(pair_text_views(out@) =~= head);
    let mut i: usize = 0;
    while i < 7
        invariant
            i <= 7,
            head == seq![("api"@, "getPhone"@), ("token"@, token@), ("sid"@, sid@)],
            pair_text_views(out@) + filter_from(filters.model(), i as int) == head + filter_params(filters.model()),
        decreases 7 - i,
    {
        let (key, name) = filter_key(i);
        let ghost before = out@;
        match filters.get_str(key.as_str()) {
            Some(v) => {
                let t = trim(v.as_str());
                if char_count(t.as_str()) > 0 {
                    let ghost pv = (name@, t@);
                    out.push((name, t));
                    assert(pair_text_views(out@) =~= pair_text_views(before).push(pv));
                    assert(pair_text_views(out@) + filter_from(filters.model(), i as int + 1) =~= pair_text_views(before)
                        + filter_from(filters.model(), i as int));
                }
            },
            None => {},
        }
        i += 1;
    }
    assert(filter_from(filters.model(), 7) =~= Seq::<(Seq<char>, Seq<char>)>::empty());
    assert(pair_text_views(out@) =~= pair_text_views(out@) + filter_from(filters.model(), 7));
    out
}

/// What testing the phone-number service needs from its configuration, trimmed.
pub struct HaozhumaTestInput {
    pub api_domain: String,
    pub username: String,
    pub password: String,
    pub project_id: String,
    pub fixed_phone: String,
}

pub open spec fn trimmed_field(config: Json, key: Seq<char>) -> Seq<char> {
    spec_trim(
        match config.get_str(key) {
            Some(v) => v,
            None => Seq::empty(),
        },
    )
}

fn trimmed_field_exec(config: &JsonValue, key: &str) -> (r: String)
    ensures
        r@ == trimmed_field(config.model(), key@),
{
    match config.get_str(key) {
        Some(v) => trim(v.as_str()),
        None => {
            proof {
                reveal_strlit("");
                assert(""@ =~= Seq::<char>::empty());
            }
            trim("")
        },
    }
}

/// The settings of a service test; an error when the domain, user, password or project id is
/// blank.
pub fn haozhuma_test_input(config: &JsonValue) -> (r: Result<HaozhumaTestInput, String>)
    ensures
        ({
            let c = config.model();
            let complete = trimmed_field(c, "api_domain"@).len() > 0 && trimmed_field(c, "username"@).len() > 0
                && trimmed_field(c, "password"@).len() > 0 && trimmed_field(c, "project_id"@).len() > 0;
            match r {
                Ok(t) => complete && t.api_domain@ == trimmed_field(c, "api_domain"@) && t.username@
                    == trimmed_field(c, "username"@) && t.password@ == trimmed_field(c, "password"@)
                    && t.project_id@ == trimmed_field(c, "project_id"@) && t.fixed_phone@ == trimmed_field(
                    c,
                    "fixed_phone"@,
                ),
                Err(e) => !complete && e@
                    == "豪猪配置不完整：需要 api_domain / username / password / project_id"@,
            }
        }),
{
    proof {
        reveal_strlit("");
    }
    let api_domain = trimmed_field_exec(config, "api_domain");
    let username = trimmed_field_exec(config, "username");
    let password = trimmed_field_exec(config, "password");
    let project_id = trimmed_field_exec(config, "project_id");
    let fixed_phone = trimmed_field_exec(config, "fixed_phone");
    if char_count(api_domain.as_str()) == 0 || char_count(username.as_str()) == 0 || char_count(password.as_str()) == 0
        || char_count(project_id.as_str()) == 0 {
        return Err(owned("豪猪配置不完整：需要 api_domain / username / password / project_id"));
    }
    Ok(HaozhumaTestInput {
        api_domain: api_domain,
        username: username,
        password: password,
        project_id: project_id,
        fixed_phone: fixed_phone,
    })
}

pub open spec fn digits_of(s: Seq<char>) -> Seq<char> {
    keep_chars(s, |c: char| is_ascii_digit_char(c))
}

/// The number of a given phone: its digits; an error when there are fewer than six.
pub fn fixed_phone_digits(fixed_phone: &str) -> (r: Result<String, String>)
    ensures
        match r {
            Ok(d) => d@ == digits_of(fixed_phone@) && str_len(digits_of(fixed_phone@)) >= 6,
            Err(e) => str_len(digits_of(fixed_phone@)) < 6 && e@ == "指定手机号无效（至少 6 位）："@ + fixed_phone@,
        },
{
    let d = extract_digits(fixed_phone);
    if byte_len(d.as_str()) < 6 {
        return Err(concat("指定手机号无效（至少 6 位）：", fixed_phone));
    }
    Ok(d)
}

/// The number in a phone-number reply: its digits; an error quoting the reply (its first 300
/// characters) when there are fewer than six.
pub fn phone_from_reply(reply: &str) -> (r: Result<String, String>)
    ensures
        match r {
            Ok(d) => d@ == digits_of(reply@) && str_len(digits_of(reply@)) >= 6,
            Err(e) => str_len(digits_of(reply@)) < 6 && e@ == "豪猪取号未解析到号码，响应: "@ + reply@.take(
                if reply@.len() < 300 { reply@.len() as int } else { 300 },
            ),
        },
{
    let d = extract_digits(reply);
    if byte_len(d.as_str()) < 6 {
        let v = chars_of(reply);
        let n: usize = if v.len() < 300 { v.len() } else { 300 };
        let head = string_from_chars(&v, 0, n);
        assert(head@ =~= reply@.take(n as int));
        return Err(concat("豪猪取号未解析到号码，响应: ", head.as_str()));
    }
    Ok(d)
}

/// The error of a login reply without a token, quoting its first 300 characters.
pub fn login_token_error(reply: &str) -> (r: String)
    ensures
        r@ == "豪猪登录未解析到 token，响应: "@ + reply@.take(
            if reply@.len() < 300 { reply@.len() as int } else { 300 },
        ),
{
    let v = chars_of(reply);
    let n: usize = if v.len() < 300 { v.len() } else { 300 };
    let head = string_from_chars(&v, 0, n);
    assert(head@ =~= reply@.take(n as int));
    concat("豪猪登录未解析到 token，响应: ", head.as_str())
}

/// What a successful service test reports.
pub struct HaozhumaTestResult {
    pub success: bool,
    pub message: String,
    pub token_len: Option<usize>,
    pub phone_last4: Option<String>,
}

/// The last four characters of a phone number at least four bytes long.
pub open spec fn spec_last4(phone: Seq<char>) -> Option<Seq<char>> {
    if str_len(phone) >= 4 {
        Some(
            if phone.len() >= 4 {
                phone.subrange(phone.len() - 4, phone.len() as int)
            } else {
                phone
            },
        )
    } else {
        None
    }
}

pub fn phone_last4(phone: &str) -> (r: Option<String>)
    ensures
        opt_str_view(r) == spec_last4(phone@),
{
    if byte_len(phone) < 4 {
        return None;
    }
    let v = chars_of(phone);
    if v.len() >= 4 {
        Some(string_from_chars(&v, v.len() - 4, v.len()))
    } else {
        Some(owned(phone))
    }
}

/// The report of a successful test with `token` and `phone` (`fixed`: the phone was given).
pub fn haozhuma_test_result(token: &str, phone: &str, fixed: bool) -> (r: HaozhumaTestResult)
    ensures
        r.success,
        r.message@ == (if fixed {
            "豪猪 API 连接测试成功（使用指定手机号）"@
        } else {
            "豪猪 API 连接测试成功"@
        }),
        r.token_len == Some(str_len(token@)),
        opt_str_view(r.phone_last4) == spec_last4(phone@),
{
    let message = if fixed {
        owned("豪猪 API 连接测试成功（使用指定手机号）")
    } else {
        owned("豪猪 API 连接测试成功")
    };
    HaozhumaTestResult { success: true, message: message, token_len: Some(byte_len(token)), phone_last4: phone_last4(phone) }
}


// ---------------------------------------------------------------------------
// Codex sign-up automation steps
// ---------------------------------------------------------------------------

/// A step as configured: its type ("click" or "input"), selector, value and whether to wait for
/// the page to load.
pub struct CodexCdpStep {
    pub step_type: String,
    pub selector: String,
    pub value: Option<String>,
    pub wait_for_load: Option<bool>,
}

/// A step as handed to the automation program.
pub enum CodexCdpCliStep {
    Click { selector: String, wait_for_load: bool },
    Input { selector: String, value: String },
}

pub enum CliStepView {
    Click(Seq<char>, bool),
    Input(Seq<char>, Seq<char>),
}

impl View for CodexCdpCliStep {
    type V = CliStepView;

    open spec fn view(&self) -> CliStepView {
        match self {
            CodexCdpCliStep::Click { selector, wait_for_load } => CliStepView::Click(selector@, *wait_for_load),
            CodexCdpCliStep::Input { selector, value } => CliStepView::Input(selector@, value@),
        }
    }
}

pub open spec fn cli_views(s: Seq<CodexCdpCliStep>) -> Seq<CliStepView> {
    s.map_values(|x: CodexCdpCliStep| x@)
}

pub open spec fn submit_button() -> Seq<char> {
    "css:button[type='submit']"@
}

/// The built-in sign-up steps for `email` with `access_password`.
pub open spec fn spec_default_steps(email: Seq<char>, access_password: Seq<char>) -> Seq<CliStepView> {
    seq![
        CliStepView::Click("css:button[class*='btn-secondary']"@, false),
        CliStepView::Input("css:input#email"@, email),
        CliStepView::Click(submit_button(), false),
        CliStepView::Input("css:input[type='password']"@, access_password),
        CliStepView::Click(submit_button(), false),
        CliStepView::Input("@name=otp"@, "__AUTO__"@),
        CliStepView::Input("@name=name"@, "__RANDOM_EN_NAME__"@),
        CliStepView::Click(submit_button(), false),
        CliStepView::Click(submit_button(), false),
        CliStepView::Input("@name=age"@, "25"@),
        CliStepView::Click("@name=allCheckboxes"@, false),
        CliStepView::Click(submit_button(), false),
        CliStepView::Click(
            "xpath://button[@type='submit' and (contains(normalize-space(.), 'Yes') or contains(normalize-space(.), '确定'))]"@,
            false,
        ),
    ]
}

fn click(selector: &str) -> (r: CodexCdpCliStep)
    ensures
        r@ == CliStepView::Click(selector@, false),
{
    CodexCdpCliStep::Click { selector: owned(selector), wait_for_load: false }
}

fn input(selector: &str, value: &str) -> (r: CodexCdpCliStep)
    ensures
        r@ == CliStepView::Input(selector@, value@),
{
    CodexCdpCliStep::Input { selector: owned(selector), value: owned(value) }
}

/// The built-in sign-up steps.
pub fn default_codex_cdp_cli_steps(email: &str, access_password: &str) -> (r: Vec<CodexCdpCliStep>)
    ensures
        cli_views(r@) == spec_default_steps(email@, access_password@),
{
    let mut v: Vec<CodexCdpCliStep> = Vec::new();
    v.push(click("css:button[class*='btn-secondary']"));
    v.push(input("css:input#email", email));
    v.push(click("css:button[type='submit']"));
    v.push(input("css:input[type='password']", access_password));
    v.push(click("css:button[type='submit']"));
    v.push(input("@name=otp", "__AUTO__"));
    v.push(input("@name=name", "__RANDOM_EN_NAME__"));
    v.push(click("css:button[type='submit']"));
    v.push(click("css:button[type='submit']"));
    v.push(input("@name=age", "25"));
    v.push(click("@name=allCheckboxes"));
    v.push(click("css:button[type='submit']"));
    v.push(
        click(
            "xpath://button[@type='submit' and (contains(normalize-space(.), 'Yes') or contains(normalize-space(.), '确定'))]",
        ),
    );
    assert(cli_views(v@) =~= spec_default_steps(email@, access_password@));
    v
}

/// A configured value with its placeholders filled: "__REGISTER_EMAIL__" and
/// "__ACCESS_PASSWORD__" (once trimmed) stand for the address and the password.
pub open spec fn spec_resolve_value(value: Seq<char>, email: Seq<char>, access_password: Seq<char>) -> Seq<char> {
    if spec_trim(value) == "__REGISTER_EMAIL__"@ {
        email
    } else if spec_trim(value) == "__ACCESS_PASSWORD__"@ {
        access_password
    } else {
        value
    }
}

pub fn resolve_codex_cdp_step_value(value: &str, email: &str, access_password: &str) -> (r: String)
    ensures
        r@ == spec_resolve_value(value@, email@, access_password@),
{
    let t = trim(value);
    if str_eq(t.as_str(), "__REGISTER_EMAIL__") {
        owned(email)
    } else if str_eq(t.as_str(), "__ACCESS_PASSWORD__") {
        owned(access_password)
    } else {
        owned(value)
    }
}

pub struct StepView {
    pub step_type: Seq<char>,
    pub selector: Seq<char>,
    pub value: Option<Seq<char>>,
    pub wait_for_load: Option<bool>,
}

impl View for CodexCdpStep {
    type V = StepView;

    open spec fn view(&self) -> StepView {
        StepView {
            step_type: self.step_type@,
            selector: self.selector@,
            value: opt_str_view(self.value),
            wait_for_load: self.wait_for_load,
        }
    }
}

pub open spec fn step_views(s: Seq<CodexCdpStep>) -> Seq<StepView> {
    s.map_values(|x: CodexCdpStep| x@)
}

/// What the configured step at `index` becomes, or the error it causes.
pub open spec fn spec_step(step: StepView, index: int, email: Seq<char>, access_password: Seq<char>) -> Result<CliStepView, Seq<char>> {
    let selector = spec_trim(step.selector);
    let prefix = "Codex CDP steps["@ + spec_decimal(index);
    if selector.len() == 0 {
        Err(prefix + "].selector 不能为空"@)
    } else if spec_trim(step.step_type) == "click"@ {
        Ok(CliStepView::Click(selector, bool_or(step.wait_for_load, false)))
    } else if spec_trim(step.step_type) == "input"@ {
        match step.value {
            Some(v) => Ok(CliStepView::Input(selector, spec_resolve_value(v, email, access_password))),
            None => Err(prefix + "].value 不能为空"@),
        }
    } else {
        Err(prefix + "].type 不支持: "@ + spec_trim(step.step_type) + "，仅支持 click / input"@)
    }
}

/// The first `n` configured steps converted in order; the first error ends the conversion.
pub open spec fn spec_parse_steps(steps: Seq<StepView>, n: int, email: Seq<char>, access_password: Seq<char>) -> Result<Seq<CliStepView>, Seq<char>>
    decreases n,
{
    if n <= 0 {
        Ok(Seq::empty())
    } else {
        match spec_parse_steps(steps, n - 1, email, access_password) {
            Err(e) => Err(e),
            Ok(done) => match spec_step(steps[n - 1], n - 1, email, access_password) {
                Ok(x) => Ok(done.push(x)),
                Err(e) => Err(e),
            },
        }
    }
}

proof fn lemma_parse_error_stays(steps: Seq<StepView>, m: int, n: int, email: Seq<char>, access_password: Seq<char>)
    requires
        0 <= m <= n,
        spec_parse_steps(steps, m, email, access_password) is Err,
    ensures
        spec_parse_steps(steps, n, email, access_password) == spec_parse_steps(steps, m, email, access_password),
    decreases n - m,
{
    if n > m {
        lemma_parse_error_stays(steps, m, n - 1, email, access_password);
    }
}

/// Converts the configured steps for the automation program; an error for the first step with
/// a blank selector, an input without value, or another type than "click" and "input".
pub fn parse_codex_cdp_cli_steps(steps: &Vec<CodexCdpStep>, email: &str, access_password: &str) -> (r: Result<Vec<CodexCdpCliStep>, String>)
    ensures
        match r {
            Ok(v) => spec_parse_steps(step_views(steps@), steps.len() as int, email@, access_password@)
                == Ok::<Seq<CliStepView>, Seq<char>>(cli_views(v@)),
            Err(e) => spec_parse_steps(step_views(steps@), steps.len() as int, email@, access_password@)
                == Err::<Seq<CliStepView>, Seq<char>>(e@),
        },
{
    let ghost sv = step_views(steps@);
    let mut out: Vec<CodexCdpCliStep> = Vec::new();
    let mut i: usize = 0;
    assert(cli_views(out@) =~= Seq::<CliStepView>::empty());
    while i < steps.len()
        invariant
            i <= steps.len(),
            sv == step_views(steps@),
            sv.len() == steps.len(),
            spec_parse_steps(sv, i as int, email@, access_password@) == Ok::<Seq<CliStepView>, Seq<char>>(
                cli_views(out@),
            ),
        decreases steps.len() - i,
    {
        let step = &steps[i];
        assert(sv[i as int] == step@);
        let selector = trim(step.selector.as_str());
        let prefix = concat("Codex CDP steps[", usize_text(i).as_str());
        let ghost before = out@;
        if char_count(selector.as_str()) == 0 {
            let e = concat(prefix.as_str(), "].selector 不能为空");
            proof {
                lemma_parse_error_stays(sv, i as int + 1, steps.len() as int, email@, access_password@);
            }
            return Err(e);
        }
        let kind = trim(step.step_type.as_str());
        if str_eq(kind.as_str(), "click") {
            let wait = match step.wait_for_load {
                Some(b) => b,
                None => false,
            };
            out.push(CodexCdpCliStep::Click { selector: selector, wait_for_load: wait });
        } else if str_eq(kind.as_str(), "input") {
            match &step.value {
                Some(v) => {
                    let value = resolve_codex_cdp_step_value(v.as_str(), email, access_password);
                    out.push(CodexCdpCliStep::Input { selector: selector, value: value });
                },
                None => {
                    let e = concat(prefix.as_str(), "].value 不能为空");
                    proof {
                        lemma_parse_error_stays(sv, i as int + 1, steps.len() as int, email@, access_password@);
                    }
                    return Err(e);
                },
            }
        } else {
            let a = concat3(prefix.as_str(), "].type 不支持: ", kind.as_str());
            let e = concat(a.as_str(), "，仅支持 click / input");
            proof {
                lemma_parse_error_stays(sv, i as int + 1, steps.len() as int, email@, access_password@);
            }
            return Err(e);
        }
        assert(cli_views(out@) =~= cli_views(before).push(out@.last()@));
        i += 1;
    }
    Ok(out)
}

// ---------------------------------------------------------------------------
// Saved Codex tokens
// ---------------------------------------------------------------------------

/// A saved Codex token file.
pub struct CodexTokenFileInfo {
    pub file_name: String,
    pub file_path: String,
    pub created_at_unix: u64,
    pub updated_at_unix: u64,
    pub content: String,
}

pub struct TokenFileView {
    pub file_name: Seq<char>,
    pub file_path: Seq<char>,
    pub created_at_unix: u64,
    pub updated_at_unix: u64,
    pub content: Seq<char>,
}

impl View for CodexTokenFileInfo {
    type V = TokenFileView;

    open spec fn view(&self) -> TokenFileView {
        TokenFileView {
            file_name: self.file_name@,
            file_path: self.file_path@,
            created_at_unix: self.created_at_unix,
            updated_at_unix: self.updated_at_unix,
            content: self.content@,
        }
    }
}

pub open spec fn token_file_views(s: Seq<CodexTokenFileInfo>) -> Seq<TokenFileView> {
    s.map_values(|x: CodexTokenFileInfo| x@)
}

/// Whether a file of the token directory holds a token: "token_<...>.json".
pub fn is_codex_token_file_name(name: &str) -> (r: bool)
    ensures
        r == (spec_starts_with(name@, "token_"@) && spec_ends_with(name@, ".json"@)),
{
    starts_with(name, "token_") && ends_with(name, ".json")
}

/// The order of the token list: `a` may come before `b` when it was not updated earlier.
pub open spec fn updated_not_earlier() -> spec_fn(TokenFileView, TokenFileView) -> bool {
    |a: TokenFileView, b: TokenFileView| a.updated_at_unix >= b.updated_at_unix
}

/// The token files, most recently updated first; files updated at the same second keep their
/// order.
pub open spec fn spec_recent_first(s: Seq<TokenFileView>) -> Seq<TokenFileView> {
    crate::sorting::sort_stable(s, updated_not_earlier())
}

fn copy_token_file(t: &CodexTokenFileInfo) -> (r: CodexTokenFileInfo)
    ensures
        r@ == t@,
{
    CodexTokenFileInfo {
        file_name: t.file_name.clone(),
        file_path: t.file_path.clone(),
        created_at_unix: t.created_at_unix,
        updated_at_unix: t.updated_at_unix,
        content: t.content.clone(),
    }
}

fn insert_recent_first(out: &mut Vec<CodexTokenFileInfo>, x: CodexTokenFileInfo)
    ensures
        token_file_views(final(out)@) == crate::sorting::insert_sorted(
            token_file_views(old(out)@),
            x@,
            updated_not_earlier(),
        ),
{
    let mut j: usize = out.len();
    while j > 0 && out[j - 1].updated_at_unix < x.updated_at_unix
        invariant
            j <= out.len(),
            forall|k: int| j <= k < out.len() ==> #[trigger] out@[k].updated_at_unix < x.updated_at_unix,
        decreases j,
    {
        j -= 1;
    }
    let ghost s = token_file_views(out@);
    let ghost xv = x@;
    proof {
        assert forall|k: int| j <= k < s.len() implies !(updated_not_earlier())(#[trigger] s[k], xv) by {
            assert(s[k] == out@[k]@);
        }
        if j > 0 {
            assert(s[j - 1] == out@[j - 1]@);
        }
        crate::sorting::lemma_insert_sorted_at(s, xv, updated_not_earlier(), j as int);
    }
    out.insert(j, x);
    assert(token_file_views(out@) =~= s.insert(j as int, xv));
}

/// Orders the token files most recently updated first, as
/// `sort_by(|a, b| b.updated_at_unix.cmp(&a.updated_at_unix))`.
pub fn sort_token_files_recent_first(files: &mut Vec<CodexTokenFileInfo>)
    ensures
        token_file_views(final(files)@) == spec_recent_first(token_file_views(old(files)@)),
{
    let ghost all = token_file_views(files@);
    let mut out: Vec<CodexTokenFileInfo> = Vec::new();
    let mut i: usize = 0;
    assert(all.take(0) =~= Seq::<TokenFileView>::empty());
    while i < files.len()
        invariant
            i <= files.len(),
            all == token_file_views(files@),
            all.len() == files.len(),
            token_file_views(out@) == crate::sorting::sort_stable(all.take(i as int), updated_not_earlier()),
        decreases files.len() - i,
    {
        let item = copy_token_file(&files[i]);
        proof {
            assert(all[i as int] == item@);
            assert(all.take(i as int + 1).drop_last() =~= all.take(i as int));
        }
        insert_recent_first(&mut out, item);
        i += 1;
    }
    assert(all.take(all.len() as int) =~= all);
    *files = out;
}

/// Output line `k` is a JSON line: it starts with '{' once trimmed and it parsed.
pub open spec fn is_json_output_line(lines: Seq<Seq<char>>, parsed: Seq<Option<Json>>, k: int) -> bool {
    spec_starts_with(spec_trim(lines[k]), seq!['{']) && parsed[k] is Some
}

/// The line that a run's result is built from is the last JSON line of the output: it is a
/// JSON line and none after it is; when there is no JSON line there is none.
pub proof fn lemma_last_json_line_is_last(lines: Seq<Seq<char>>, parsed: Seq<Option<Json>>, n: int)
    requires
        0 <= n,
    ensures
        last_json_line(lines, parsed, n) matches Some(i) ==> {
            &&& 0 <= i < n
            &&& is_json_output_line(lines, parsed, i)
            &&& forall|j: int| i < j < n ==> !#[trigger] is_json_output_line(lines, parsed, j)
        },
        last_json_line(lines, parsed, n) is None ==> forall|j: int|
            0 <= j < n ==> !#[trigger] is_json_output_line(lines, parsed, j),
    decreases n,
{
    if n > 0 {
        lemma_last_json_line_is_last(lines, parsed, n - 1);
    }
}

/// When the output holds JSON lines, the result of the run is built from the last of them:
/// every member of that line other than "output_lines", "raw_output", "error_output",
/// "success" and "message" is in the result unchanged.
pub proof fn lemma_result_keeps_last_json_line(
    email: Seq<char>,
    exited_ok: bool,
    was_killed: bool,
    lines: Seq<Seq<char>>,
    errors: Seq<Seq<char>>,
    parsed: Seq<Option<Json>>,
    i: int,
    key: Seq<char>,
)
    requires
        parsed.len() == lines.len(),
        0 <= i < lines.len(),
        is_json_output_line(lines, parsed, i),
        forall|j: int| i < j < lines.len() ==> !#[trigger] is_json_output_line(lines, parsed, j),
        key != "output_lines"@,
        key != "raw_output"@,
        key != "error_output"@,
        key != "success"@,
        key != "message"@,
    ensures
        spec_registration_result(email, exited_ok, was_killed, lines, errors, parsed).get(key)
            == parsed[i].unwrap().get(key),
{
    lemma_last_json_line_is_last(lines, parsed, lines.len() as int);
    match last_json_line(lines, parsed, lines.len() as int) {
        Some(k) => {
            if k < i {
                assert(is_json_output_line(lines, parsed, i));
            }
            if k > i {
                assert(!is_json_output_line(lines, parsed, k));
            }
            assert(k == i);
        },
        None => {
            assert(!is_json_output_line(lines, parsed, i));
        },
    }
    let p = parsed[i].unwrap();
    let a0 = p.insert("output_lines"@, crate::json::spec_str_array(lines));
    let a = a0.insert("raw_output"@, Json::Str(joined(lines)));
    crate::storage::lemma_insert_get_other(p, "output_lines"@, crate::json::spec_str_array(lines), key);
    crate::storage::lemma_insert_get_other(a0, "raw_output"@, Json::Str(joined(lines)), key);
    let b = if joined(errors).len() > 0 {
        a.insert("error_output"@, Json::Str(joined(errors)))
    } else {
        a
    };
    crate::storage::lemma_insert_get_other(a, "error_output"@, Json::Str(joined(errors)), key);
    let c = b.insert("success"@, Json::Bool(true));
    crate::storage::lemma_insert_get_other(b, "success"@, Json::Bool(true), key);
    crate::storage::lemma_insert_get_other(c, "message"@, Json::Str(finished_message()), key);
}

/// The result of a run always carries all output lines and their joined text. A run that ended
/// well is reported as a success; a run that did not, and printed no JSON line, is reported as
/// a failure, with the time-out or the failed exit as its error.
pub proof fn lemma_result_reports_run(
    email: Seq<char>,
    exited_ok: bool,
    was_killed: bool,
    lines: Seq<Seq<char>>,
    errors: Seq<Seq<char>>,
    parsed: Seq<Option<Json>>,
)
    requires
        parsed.len() == lines.len(),
        forall|k: int| 0 <= k < parsed.len() ==> (#[trigger] parsed[k] matches Some(j) ==> j is Object),
    ensures
        ({
            let r = spec_registration_result(email, exited_ok, was_killed, lines, errors, parsed);
            &&& r.get("output_lines"@) == Some(crate::json::spec_str_array(lines))
            &&& r.get("raw_output"@) == Some(Json::Str(joined(lines)))
            &&& (exited_ok && !was_killed) ==> r.get_bool("success"@) == Some(true)
            &&& (!(exited_ok && !was_killed) && last_json_line(lines, parsed, lines.len() as int) is None) ==> {
                &&& r.get_bool("success"@) == Some(false)
                &&& r.get_str("error"@) == Some(
                    if was_killed {
                        "进程超时被终止"@
                    } else {
                        "进程执行失败"@
                    },
                )
            }
        }),
{
    reveal_strlit("output_lines");
    reveal_strlit("raw_output");
    reveal_strlit("error_output");
    reveal_strlit("success");
    reveal_strlit("message");
    reveal_strlit("email");
    reveal_strlit("error");
    assert("output_lines"@[0] != "raw_output"@[0]);
    assert("output_lines"@[0] != "error_output"@[0]);
    assert("output_lines"@[0] != "success"@[0]);
    assert("output_lines"@[0] != "message"@[0]);
    assert("raw_output"@[0] != "error_output"@[0]);
    assert("raw_output"@[0] != "success"@[0]);
    assert("raw_output"@[0] != "message"@[0]);
    assert("success"@[0] != "message"@[0]);
    assert("success"@[0] != "email"@[0]);
    assert("success"@[0] != "error"@[0]);
    assert("error"@[1] != "email"@[1]);
    assert("error"@.len() != "output_lines"@.len());
    assert("email"@.len() != "output_lines"@.len());
    let arr = crate::json::spec_str_array(lines);
    let raw = Json::Str(joined(lines));
    let success = exited_ok && !was_killed;
    lemma_last_json_line_is_last(lines, parsed, lines.len() as int);
    match last_json_line(lines, parsed, lines.len() as int) {
        Some(i) => {
            let p = parsed[i].unwrap();
            assert(parsed[i] matches Some(j) ==> j is Object);
            let a0 = p.insert("output_lines"@, arr);
            let a = a0.insert("raw_output"@, raw);
            crate::storage::lemma_insert_get_same(p, "output_lines"@, arr);
            crate::storage::lemma_insert_get_other(a0, "raw_output"@, raw, "output_lines"@);
            crate::storage::lemma_insert_get_same(a0, "raw_output"@, raw);
            let e = Json::Str(joined(errors));
            let b = if joined(errors).len() > 0 {
                a.insert("error_output"@, e)
            } else {
                a
            };
            crate::storage::lemma_insert_get_other(a, "error_output"@, e, "output_lines"@);
            crate::storage::lemma_insert_get_other(a, "error_output"@, e, "raw_output"@);
            let c = b.insert("success"@, Json::Bool(true));
            crate::storage::lemma_insert_get_other(b, "success"@, Json::Bool(true), "output_lines"@);
            crate::storage::lemma_insert_get_other(b, "success"@, Json::Bool(true), "raw_output"@);
            crate::storage::lemma_insert_get_same(b, "success"@, Json::Bool(true));
            let m = Json::Str(finished_message());
            crate::storage::lemma_insert_get_other(c, "message"@, m, "output_lines"@);
            crate::storage::lemma_insert_get_other(c, "message"@, m, "raw_output"@);
            crate::storage::lemma_insert_get_other(c, "message"@, m, "success"@);
        },
        None => {
            let o = crate::json::empty_object();
            if success {
                let d1 = o.insert("success"@, Json::Bool(true));
                let d2 = d1.insert("email"@, Json::Str(email));
                let d3 = d2.insert("message"@, Json::Str(finished_message()));
                let d4 = d3.insert("output_lines"@, arr);
                crate::storage::lemma_insert_get_same(o, "success"@, Json::Bool(true));
                crate::storage::lemma_insert_get_other(d1, "email"@, Json::Str(email), "success"@);
                crate::storage::lemma_insert_get_other(d2, "message"@, Json::Str(finished_message()), "success"@);
                crate::storage::lemma_insert_get_other(d3, "output_lines"@, arr, "success"@);
                crate::storage::lemma_insert_get_same(d3, "output_lines"@, arr);
                crate::storage::lemma_insert_get_other(d4, "raw_output"@, raw, "success"@);
                crate::storage::lemma_insert_get_other(d4, "raw_output"@, raw, "output_lines"@);
                crate::storage::lemma_insert_get_same(d4, "raw_output"@, raw);
            } else {
                let err = Json::Str(
                    if was_killed {
                        "进程超时被终止"@
                    } else {
                        "进程执行失败"@
                    },
                );
                let d1 = o.insert("success"@, Json::Bool(false));
                let d2 = d1.insert("error"@, err);
                let d3 = d2.insert("output_lines"@, arr);
                crate::storage::lemma_insert_get_same(o, "success"@, Json::Bool(false));
                crate::storage::lemma_insert_get_other(d1, "error"@, err, "success"@);
                crate::storage::lemma_insert_get_same(d1, "error"@, err);
                crate::storage::lemma_insert_get_other(d2, "output_lines"@, arr, "success"@);
                crate::storage::lemma_insert_get_other(d2, "output_lines"@, arr, "error"@);
                crate::storage::lemma_insert_get_same(d2, "output_lines"@, arr);
                crate::storage::lemma_insert_get_other(d3, "raw_output"@, raw, "success"@);
                crate::storage::lemma_insert_get_other(d3, "raw_output"@, raw, "error"@);
                crate::storage::lemma_insert_get_other(d3, "raw_output"@, raw, "output_lines"@);
                crate::storage::lemma_insert_get_same(d3, "raw_output"@, raw);
            }
        },
    }
}

/// The token list is ordered by update time, most recent first, and holds every file once.
pub proof fn lemma_recent_first(s: Seq<TokenFileView>)
    ensures
        forall|i: int, j: int|
            0 <= i < j < spec_recent_first(s).len() ==> spec_recent_first(s)[i].updated_at_unix
                >= spec_recent_first(s)[j].updated_at_unix,
        spec_recent_first(s).to_multiset() == s.to_multiset(),
{
    let le = updated_not_earlier();
    assert(crate::sorting::total_preorder(le));
    crate::sorting::lemma_sort_stable_sorted(s, le);
    crate::sorting::lemma_sort_stable_permutation(s, le);
    let t = spec_recent_first(s);
    assert forall|i: int, j: int| 0 <= i < j < t.len() implies t[i].updated_at_unix >= t[j].updated_at_unix by {
        assert(le(t[i], t[j]));
    }
}


// ---------------------------------------------------------------------------
// Runs that read their verification mail themselves
// ---------------------------------------------------------------------------

/// Whether a line of output asks for the mail's code; `extended` adds the wordings that the
/// Outlook, self-hosted and Codex flows print.
pub open spec fn spec_awaits_mail_code(line: Seq<char>, extended: bool) -> bool {
    spec_contains(line, "等待验证码"@) || spec_contains(line, "request_verification_code"@) || (extended && (
    spec_contains(line, "需要邮箱验证码"@) || spec_contains(line, "请输入验证码"@)))
}

pub fn line_awaits_mail_code(line: &str, extended: bool) -> (r: bool)
    ensures
        r == spec_awaits_mail_code(line@, extended),
{
    contains(line, "等待验证码") || contains(line, "request_verification_code") || (extended && (contains(
        line,
        "需要邮箱验证码",
    ) || contains(line, "请输入验证码")))
}

/// The event and message the front end gets when fetching a code failed: a time-out asks for
/// the code after the wait, anything else asks for it at once.
pub fn fetch_failure_event(error: &str) -> (r: (String, String))
    ensures
        spec_contains(error@, "超时"@) ==> r.0@ == "verification-code-timeout"@ && r.1@ == "自动获取验证码超时，请手动输入验证码"@,
        !spec_contains(error@, "超时"@) ==> r.0@ == "verification-code-manual-input-required"@ && r.1@
            == "自动获取验证码失败，请手动输入验证码"@,
{
    if contains(error, "超时") {
        (owned("verification-code-timeout"), owned("自动获取验证码超时，请手动输入验证码"))
    } else {
        (owned("verification-code-manual-input-required"), owned("自动获取验证码失败，请手动输入验证码"))
    }
}

/// The error of a run that exited with failure: its exit code as `{:?}` prints it.
pub open spec fn spec_exit_failure(code: Option<i32>) -> Seq<char> {
    "Python脚本执行失败，退出码: "@ + match code {
        Some(c) => "Some("@ + spec_decimal(c as int) + ")"@,
        None => "None"@,
    }
}

pub fn exit_failure_message(code: Option<i32>) -> (r: String)
    ensures
        r@ == spec_exit_failure(code),
{
    let shown = match code {
        Some(c) => {
            let n = crate::numbers::i64_text(c as i64);
            concat3("Some(", n.as_str(), ")")
        },
        None => owned("None"),
    };
    concat("Python脚本执行失败，退出码: ", shown.as_str())
}

/// The flows whose result is fixed once the program has exited well.
#[derive(PartialEq, Eq, Structural, Clone, Copy)]
pub enum FixedResultFlow {
    CloudflareTemp,
    Outlook,
    SelfHosted,
    Codex,
}

/// The result such a flow reports for `email`.
pub open spec fn spec_fixed_result(flow: FixedResultFlow, email: Seq<char>) -> Json {
    match flow {
        FixedResultFlow::CloudflareTemp => crate::json::empty_object().insert("email"@, Json::Str(email)).insert(
            "email_type"@,
            Json::Str("cloudflare_temp"@),
        ),
        FixedResultFlow::Outlook => crate::json::empty_object().insert("success"@, Json::Bool(false)).insert(
            "message"@,
            Json::Str("注册进程已退出"@),
        ).insert("email"@, Json::Str(email)).insert("email_type"@, Json::Str("outlook-default"@)),
        FixedResultFlow::SelfHosted => crate::json::empty_object().insert("success"@, Json::Bool(false)).insert(
            "message"@,
            Json::Str("注册进程已退出"@),
        ).insert("email"@, Json::Str(email)).insert("email_type"@, Json::Str("self_hosted_mail_api"@)),
        FixedResultFlow::Codex => crate::json::empty_object().insert("success"@, Json::Bool(true)).insert(
            "message"@,
            Json::Str("Codex 注册流程已完成"@),
        ).insert("email"@, Json::Str(email)).insert("email_type"@, Json::Str("codex_self_hosted_mail_api"@)),
    }
}

pub fn fixed_flow_result(flow: FixedResultFlow, email: &str) -> (r: JsonValue)
    ensures
        r.model() == spec_fixed_result(flow, email@),
{
    let mut r = JsonValue::new_object();
    match flow {
        FixedResultFlow::CloudflareTemp => {
            r.insert(owned("email"), JsonValue::Str(owned(email)));
            r.insert(owned("email_type"), JsonValue::Str(owned("cloudflare_temp")));
        },
        FixedResultFlow::Outlook => {
            r.insert(owned("success"), JsonValue::Bool(false));
            r.insert(owned("message"), JsonValue::Str(owned("注册进程已退出")));
            r.insert(owned("email"), JsonValue::Str(owned(email)));
            r.insert(owned("email_type"), JsonValue::Str(owned("outlook-default")));
        },
        FixedResultFlow::SelfHosted => {
            r.insert(owned("success"), JsonValue::Bool(false));
            r.insert(owned("message"), JsonValue::Str(owned("注册进程已退出")));
            r.insert(owned("email"), JsonValue::Str(owned(email)));
            r.insert(owned("email_type"), JsonValue::Str(owned("self_hosted_mail_api")));
        },
        FixedResultFlow::Codex => {
            r.insert(owned("success"), JsonValue::Bool(true));
            r.insert(owned("message"), JsonValue::Str(owned("Codex 注册流程已完成")));
            r.insert(owned("email"), JsonValue::Str(owned(email)));
            r.insert(owned("email_type"), JsonValue::Str(owned("codex_self_hosted_mail_api")));
        },
    }
    r
}

/// The result of a tempmail run that exited well, from what it printed (`parsed`: the output
/// read as JSON, when it is JSON).
pub open spec fn spec_tempmail_result(output: Seq<char>, parsed: Option<Json>, email: Seq<char>) -> Json {
    if spec_trim(output).len() == 0 {
        crate::json::empty_object().insert("success"@, Json::Bool(true)).insert("email"@, Json::Str(email)).insert(
            "message"@,
            Json::Str(finished_message()),
        )
    } else {
        match parsed {
            Some(p) => p,
            None => crate::json::empty_object().insert("success"@, Json::Bool(true)).insert(
                "email"@,
                Json::Str(email),
            ).insert("message"@, Json::Str("注册成功（进程成功退出，但JSON解析失败）"@)).insert(
                "raw_output"@,
                Json::Str(output),
            ),
        }
    }
}

pub fn tempmail_result(output: &str, parsed: Option<JsonValue>, email: &str) -> (r: JsonValue)
    ensures
        r.model() == spec_tempmail_result(output@, owned_model(parsed), email@),
{
    let t = trim(output);
    if char_count(t.as_str()) == 0 {
        let mut r = JsonValue::new_object();
        r.insert(owned("success"), JsonValue::Bool(true));
        r.insert(owned("email"), JsonValue::Str(owned(email)));
        r.insert(owned("message"), JsonValue::Str(owned("注册成功（进程成功退出）")));
        return r;
    }
    match parsed {
        Some(p) => p,
        None => {
            let mut r = JsonValue::new_object();
            r.insert(owned("success"), JsonValue::Bool(true));
            r.insert(owned("email"), JsonValue::Str(owned(email)));
            r.insert(owned("message"), JsonValue::Str(owned("注册成功（进程成功退出，但JSON解析失败）")));
            r.insert(owned("raw_output"), JsonValue::Str(owned(output)));
            r
        },
    }
}

/// The address to save after a tempmail run: its "email", when the result says it succeeded
/// or its message says "注册成功".
pub open spec fn spec_account_to_save(result: Json) -> Option<Seq<char>> {
    let ok = result.get_bool("success"@) == Some(true) || match result.get_str("message"@) {
        Some(m) => spec_contains(m, "注册成功"@),
        None => false,
    };
    if ok {
        result.get_str("email"@)
    } else {
        None
    }
}

pub fn account_to_save(result: &JsonValue) -> (r: Option<String>)
    ensures
        opt_str_view(r) == spec_account_to_save(result.model()),
{
    let ok = result.get_bool("success") == Some(true) || match result.get_str("message") {
        Some(m) => contains(m.as_str(), "注册成功"),
        None => false,
    };
    if ok {
        result.get_str("email")
    } else {
        None
    }
}

// ---------------------------------------------------------------------------
// The Codex automation program
// ---------------------------------------------------------------------------

/// The command-line arguments of the steps: "--click" or "--click-wait-load" with the
/// selector, "--input" with "selector=value".
pub open spec fn spec_step_args(steps: Seq<CliStepView>) -> Seq<Seq<char>>
    decreases steps.len(),
{
    if steps.len() == 0 {
        Seq::empty()
    } else {
        spec_step_args(steps.drop_last()) + match steps.last() {
            CliStepView::Click(sel, wait) => seq![
                if wait {
                    "--click-wait-load"@
                } else {
                    "--click"@
                },
                sel,
            ],
            CliStepView::Input(sel, value) => seq!["--input"@, sel + "="@ + value],
        }
    }
}

pub fn codex_step_args(steps: &Vec<CodexCdpCliStep>) -> (r: Vec<String>)
    ensures
        line_views(r@) == spec_step_args(cli_views(steps@)),
{
    let mut out: Vec<String> = Vec::new();
    let mut i: usize = 0;
    assert(line_views(out@) =~= spec_step_args(cli_views(steps@).take(0)));
    while i < steps.len()
        invariant
            i <= steps.len(),
            line_views(out@) == spec_step_args(cli_views(steps@).take(i as int)),
        decreases steps.len() - i,
    {
        let ghost before = line_views(out@);
        let ghost cv = cli_views(steps@);
        assert(cv.take(i as int + 1).drop_last() =~= cv.take(i as int));
        assert(cv.take(i as int + 1).last() == steps@[i as int]@);
        match &steps[i] {
            CodexCdpCliStep::Click { selector, wait_for_load } => {
                if *wait_for_load {
                    out.push(owned("--click-wait-load"));
                } else {
                    out.push(owned("--click"));
                }
                out.push(selector.clone());
            },
            CodexCdpCliStep::Input { selector, value } => {
                out.push(owned("--input"));
                out.push(concat3(selector.as_str(), "=", value.as_str()));
            },
        }
        assert(line_views(out@) =~= spec_step_args(cv.take(i as int + 1)));
        i += 1;
    }
    assert(cli_views(steps@).take(steps.len() as int) =~= cli_views(steps@));
    out
}

/// `v` when it is not blank, else `default`.
pub fn non_blank_or(v: Option<String>, default: &str) -> (r: String)
    ensures
        r@ == match v {
            Some(x) => if spec_trim(x@).len() > 0 {
                x@
            } else {
                default@
            },
            None => default@,
        },
{
    match v {
        Some(x) => if char_count(trim(x.as_str()).as_str()) > 0 {
            x
        } else {
            owned(default)
        },
        None => owned(default),
    }
}

/// The password of new Codex accounts: the configured one, else the built-in default.
pub fn access_password_or_default(p: Option<String>) -> (r: String)
    ensures
        r@ == match p {
            Some(x) => x@,
            None => "AUTOCURSOT_WUQI_2002"@,
        },
{
    match p {
        Some(x) => x,
        None => owned("AUTOCURSOT_WUQI_2002"),
    }
}

/// `v` when it is not blank, else `d`.
pub open spec fn spec_non_blank_or(v: Option<Seq<char>>, d: Seq<char>) -> Seq<char> {
    match v {
        Some(x) => if spec_trim(x).len() > 0 {
            x
        } else {
            d
        },
        None => d,
    }
}

/// The arguments that come before the steps in a Codex run: the start page (the configured one
/// when not blank, else "https://chatgpt.com/"), private browsing (on unless turned off), the
/// program's configuration, the three timing settings as given, and the script run after the
/// OAuth step (the configured one when not blank, else "openai_oauth_step1.py").
pub open spec fn spec_codex_head_args(
    url: Option<Seq<char>>,
    incognito: Option<bool>,
    config_json: Seq<char>,
    wait_after_open: Seq<char>,
    element_timeout: Seq<char>,
    wait_after_action: Seq<char>,
    post_oauth_script: Option<Seq<char>>,
) -> Seq<Seq<char>> {
    seq![
        "--url"@,
        spec_non_blank_or(url, "https://chatgpt.com/"@),
        "--incognito"@,
        if incognito == Some(false) { "false"@ } else { "true"@ },
        "--custom-config-json"@,
        config_json,
        "--wait-after-open"@,
        wait_after_open,
        "--element-timeout"@,
        element_timeout,
        "--wait-after-action"@,
        wait_after_action,
        "--post-oauth-step1-py"@,
        spec_non_blank_or(post_oauth_script, "openai_oauth_step1.py"@),
    ]
}

/// The command-line arguments of a Codex run: the head arguments, then the configured steps
/// when there are any (an error when they do not convert), else the built-in steps. The timing
/// settings come already written as text.
pub fn codex_command_args(
    url: Option<String>,
    incognito: Option<bool>,
    config_json: &str,
    wait_after_open: &str,
    element_timeout: &str,
    wait_after_action: &str,
    post_oauth_script: Option<String>,
    steps: Option<&Vec<CodexCdpStep>>,
    email: &str,
    access_password: &str,
) -> (r: Result<Vec<String>, String>)
    ensures
        ({
            let head = spec_codex_head_args(
                opt_str_view(url),
                incognito,
                config_json@,
                wait_after_open@,
                element_timeout@,
                wait_after_action@,
                opt_str_view(post_oauth_script),
            );
            match steps {
                Some(s) => match spec_parse_steps(step_views(s@), s.len() as int, email@, access_password@) {
                    Ok(cv) => r matches Ok(a) && line_views(a@) == head + spec_step_args(cv),
                    Err(e) => r matches Err(m) && m@ == e,
                },
                None => r matches Ok(a) && line_views(a@) == head + spec_step_args(
                    spec_default_steps(email@, access_password@),
                ),
            }
        }),
{
    let cli_steps = match steps {
        Some(s) => match parse_codex_cdp_cli_steps(s, email, access_password) {
            Ok(v) => v,
            Err(e) => return Err(e),
        },
        None => default_codex_cdp_cli_steps(email, access_password),
    };
    let step_args = codex_step_args(&cli_steps);
    let mut out: Vec<String> = Vec::new();
    out.push(owned("--url"));
    out.push(non_blank_or(url, "https://chatgpt.com/"));
    out.push(owned("--incognito"));
    if incognito == Some(false) {
        out.push(owned("false"));
    } else {
        out.push(owned("true"));
    }
    out.push(owned("--custom-config-json"));
    out.push(owned(config_json));
    out.push(owned("--wait-after-open"));
    out.push(owned(wait_after_open));
    out.push(owned("--element-timeout"));
    out.push(owned(element_timeout));
    out.push(owned("--wait-after-action"));
    out.push(owned(wait_after_action));
    out.push(owned("--post-oauth-step1-py"));
    out.push(non_blank_or(post_oauth_script, "openai_oauth_step1.py"));
    let ghost head = line_views(out@);
    let mut i: usize = 0;
    while i < step_args.len()
        invariant
            i <= step_args.len(),
            line_views(out@) == head + line_views(step_args@).take(i as int),
        decreases step_args.len() - i,
    {
        let ghost before = out@;
        out.push(step_args[i].clone());
        assert(line_views(out@) =~= line_views(before).push(step_args@[i as int]@));
        assert(line_views(step_args@).take(i as int + 1) =~= line_views(step_args@).take(i as int).push(
            step_args@[i as int]@,
        ));
        i += 1;
    }
    assert(line_views(step_args@).take(step_args.len() as int) =~= line_views(step_args@));
    Ok(out)
}

/// The configuration of a Codex run split into what the program gets, whether the user
/// confirms before the OAuth step ("manualConfirmBeforePostOauth", off by default), and the
/// automation overrides ("codexCdpOverrides"); both keys are taken out of what the program gets.
pub fn codex_config_parts(config: Option<JsonValue>) -> (r: (JsonValue, bool, Option<JsonValue>))
    ensures
        ({
            let c = match owned_model(config) {
                Some(j) => j,
                None => crate::json::empty_object(),
            };
            &&& r.0.model() == c.remove("manualConfirmBeforePostOauth"@).remove("codexCdpOverrides"@)
            &&& r.1 == (c.get_bool("manualConfirmBeforePostOauth"@) == Some(true))
            &&& owned_model(r.2) == c.get("codexCdpOverrides"@)
        }),
{
    let mut c = match config {
        Some(j) => j,
        None => JsonValue::new_object(),
    };
    let manual = c.get_bool("manualConfirmBeforePostOauth") == Some(true);
    let overrides = match c.get("codexCdpOverrides") {
        Some(o) => Some(o.deep_clone()),
        None => None,
    };
    c.remove("manualConfirmBeforePostOauth");
    c.remove("codexCdpOverrides");
    (c, manual, overrides)
}

/// What the front end is shown when the automation waits for the user: for an output line whose
/// JSON has "action" "wait_for_user", its reason, message, files and status (with defaults).
pub open spec fn spec_manual_step(event: Json, task_id: Seq<char>, email: Seq<char>) -> Option<Json> {
    if event.get_str("action"@) == Some("wait_for_user"@) {
        let opt = |k: Seq<char>|
            match event.get_str(k) {
                Some(v) => Json::Str(v),
                None => Json::Null,
            };
        let or = |k: Seq<char>, d: Seq<char>|
            match event.get_str(k) {
                Some(v) => v,
                None => d,
            };
        Some(
            crate::json::empty_object().insert("task_id"@, Json::Str(task_id)).insert("email"@, Json::Str(email)).insert(
                "reason"@,
                Json::Str(or("reason"@, "manual_step"@)),
            ).insert("message"@, Json::Str(or("message"@, "请完成手动步骤后继续"@))).insert(
                "continue_file"@,
                opt("continue_file"@),
            ).insert("cancel_file"@, opt("cancel_file"@)).insert("status"@, Json::Str(or("status"@, "waiting"@))),
        )
    } else {
        None
    }
}

fn str_or_null(event: &JsonValue, key: &str) -> (r: JsonValue)
    ensures
        r.model() == match event.model().get_str(key@) {
            Some(v) => Json::Str(v),
            None => Json::Null,
        },
{
    match event.get_str(key) {
        Some(v) => JsonValue::Str(v),
        None => JsonValue::Null,
    }
}

fn str_or(event: &JsonValue, key: &str, default: &str) -> (r: String)
    ensures
        r@ == match event.model().get_str(key@) {
            Some(v) => v,
            None => default@,
        },
{
    match event.get_str(key) {
        Some(v) => v,
        None => owned(default),
    }
}

pub fn codex_manual_step(event: &JsonValue, task_id: &str, email: &str) -> (r: Option<JsonValue>)
    ensures
        owned_model(r) == spec_manual_step(event.model(), task_id@, email@),
{
    match event.get_str("action") {
        Some(a) => {
            if !str_eq(a.as_str(), "wait_for_user") {
                return None;
            }
        },
        None => {
            return None;
        },
    }
    let mut r = JsonValue::new_object();
    r.insert(owned("task_id"), JsonValue::Str(owned(task_id)));
    r.insert(owned("email"), JsonValue::Str(owned(email)));
    r.insert(owned("reason"), JsonValue::Str(str_or(event, "reason", "manual_step")));
    r.insert(owned("message"), JsonValue::Str(str_or(event, "message", "请完成手动步骤后继续")));
    r.insert(owned("continue_file"), str_or_null(event, "continue_file"));
    r.insert(owned("cancel_file"), str_or_null(event, "cancel_file"));
    r.insert(owned("status"), JsonValue::Str(str_or(event, "status", "waiting")));
    Some(r)
}

} // verus!
