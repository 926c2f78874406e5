use auto_cursor::cursor_info::{
    custom_path_version_error, linux_version_candidates, version_from_info_plist, version_from_package_json,
    windows_version_candidates,
};
use auto_cursor::json::{JsonMember, JsonNumber, JsonValue};
use auto_cursor::mail::{
    after_missed_attempt, first_wait_secs, self_hosted_step, SelfHostedFetch, SelfHostedStep, outlook_box_url, tempmail_detail_url, tempmail_list_url, CodePoll,
    PollAction,
    clear_request, cloudflare_code, email_local_part, extract_verification_code_from_content,
    extract_verification_code_from_mail_raw_body, extract_verification_code_from_text, json_navigate_one_segment,
    generate_random_email_name, json_value_at_path, json_value_to_mail_raw, mail_matches_email, normalized_register_email, outlook_code, parse_self_hosted_headers,
    self_hosted_response_path, self_hosted_url, tempmail_code, MailRawError,
};

fn to_value(v: &serde_json::Value) -> JsonValue {
    match v {
        serde_json::Value::Null => JsonValue::Null,
        serde_json::Value::Bool(b) => JsonValue::Bool(*b),
        serde_json::Value::Number(n) => JsonValue::Number(JsonNumber {
            as_i64: n.as_i64(),
            as_u64: n.as_u64(),
            text: n.to_string(),
        }),
        serde_json::Value::String(s) => JsonValue::Str(s.clone()),
        serde_json::Value::Array(a) => JsonValue::Array(a.iter().map(to_value).collect()),
        serde_json::Value::Object(m) => JsonValue::Object(
            m.iter()
                .map(|(k, v)| JsonMember { key: k.clone(), value: to_value(v) })
                .collect(),
        ),
    }
}

fn json(text: &str) -> JsonValue {
    to_value(&serde_json::from_str::<serde_json::Value>(text).unwrap())
}

fn text_of(v: &JsonValue) -> Option<String> {
    match v {
        JsonValue::Str(s) => Some(s.clone()),
        _ => None,
    }
}

#[test]
fn codes_in_plain_text() {
    assert_eq!(extract_verification_code_from_text("Code:\n604152\n\nThanks"), Ok("604152".to_string()));
    assert_eq!(extract_verification_code_from_text("your code 123456."), Ok("123456".to_string()));
    assert_eq!(extract_verification_code_from_text("no code"), Err("未能从文本中提取验证码".to_string()));
    assert_eq!(extract_verification_code_from_text("1234567"), Err("未能从文本中提取验证码".to_string()));
}

#[test]
fn codes_in_mail_content() {
    assert_eq!(extract_verification_code_from_content("Your code is 123456."), Some("123456".to_string()));
    assert_eq!(extract_verification_code_from_content("验证码为：654321"), Some("654321".to_string()));
    assert_eq!(extract_verification_code_from_content("<td>\n177872\r</td> 999999"), Some("177872".to_string()));
    assert_eq!(
        extract_verification_code_from_content("color #414141 then 246810"),
        Some("246810".to_string())
    );
    assert_eq!(extract_verification_code_from_content("call +123456 now"), None);
    assert_eq!(extract_verification_code_from_content("visit 801304.xyz now"), None);
    assert_eq!(extract_verification_code_from_content("nothing"), None);
}

#[test]
fn codes_in_raw_mails() {
    assert_eq!(extract_verification_code_from_mail_raw_body("code is: 112233"), Some("112233".to_string()));
    assert_eq!(extract_verification_code_from_mail_raw_body("id@123456 and +654321"), Some("123456".to_string()));
    assert_eq!(extract_verification_code_from_content("code is:123456abc"), None);
    assert_eq!(extract_verification_code_from_mail_raw_body("code is:123456abc"), Some("123456".to_string()));
    assert_eq!(cloudflare_code(Some("Your code is 135790")), Some("135790".to_string()));
    assert_eq!(cloudflare_code(None), None);
}

#[test]
fn codes_from_mailbox_services() {
    let listing = json(r#"{"data": [{"Body": "hello"}, {"Subject": "x"}, {"Body": "code is 555666"}]}"#);
    assert_eq!(outlook_code(&listing), Some("555666".to_string()));
    assert_eq!(outlook_code(&json(r#"{"data": []}"#)), None);
    assert_eq!(
        tempmail_code(true, "<p>for me@x.com</p> 111222", "code:\n333444\n", "me@x.com"),
        Some("333444".to_string())
    );
    assert_eq!(tempmail_code(true, "<p>for me@x.com</p> 111222", "no code", "me@x.com"), Some("111222".to_string()));
    assert_eq!(tempmail_code(true, "<p>for other@x.com</p> 111222", "333444", "me@x.com"), None);
    assert_eq!(tempmail_code(false, "me@x.com 111222", "333444", "me@x.com"), None);
}

#[test]
fn json_paths_in_replies() {
    let root = json(r#"{"results": [{"raw": "mail text"}], "n": null, "list": [1, 2]}"#);
    let leaf = json_value_at_path(&root, "results[0].raw").ok().unwrap();
    assert_eq!(text_of(leaf), Some("mail text".to_string()));
    assert_eq!(json_value_at_path(&root, " .results[1].raw").err(), Some("数组下标 1 越界".to_string()));
    assert_eq!(json_value_at_path(&root, "missing").err(), Some("JSON路径不存在: missing".to_string()));
    assert_eq!(json_value_at_path(&root, "  ").err(), Some("响应JSON路径为空".to_string()));
    assert_eq!(json_value_at_path(&root, "results[x]").err(), Some("无效的数组下标: x".to_string()));
    assert_eq!(json_value_at_path(&root, "results[0").err(), Some("路径段括号不匹配: results[0".to_string()));
    assert_eq!(json_value_at_path(&root, "n[0]").err(), Some("路径 n 不是数组".to_string()));
    assert_eq!(json_value_at_path(&root, "[0]").err(), Some("路径 根 不是数组".to_string()));
    assert_eq!(json_value_at_path(&root, "n.0").err(), Some("当前节点不是数组，无法使用下标 0".to_string()));
    let second = json_value_at_path(&root, "list.1").ok().unwrap();
    assert!(matches!(second, JsonValue::Number(n) if n.as_i64 == Some(2)));
    assert!(json_navigate_one_segment(&root, "  ").is_err());
}

#[test]
fn mail_text_at_the_path() {
    assert_eq!(json_value_to_mail_raw(&JsonValue::Str("m".to_string())).ok(), Some("m".to_string()));
    match json_value_to_mail_raw(&JsonValue::Null) {
        Err(e) => assert_eq!(e.message("Null"), "JSON路径指向 null"),
        Ok(_) => panic!("expected an error"),
    }
    match json_value_to_mail_raw(&JsonValue::Bool(true)) {
        Err(e) => {
            assert!(matches!(e, MailRawError::NotText));
            assert_eq!(e.message("Bool(true)"), "JSON路径须指向字符串（邮件原文），当前为: Bool(true)");
        }
        Ok(_) => panic!("expected an error"),
    }
}

#[test]
fn self_hosted_mailbox_settings() {
    assert_eq!(self_hosted_response_path(" ..data.raw. "), "data.raw");
    assert_eq!(self_hosted_response_path(" . "), "results[0].raw");
    assert_eq!(self_hosted_url("  "), Err("自建邮箱 API URL 为空".to_string()));
    assert_eq!(self_hosted_url(" https://m "), Ok("https://m".to_string()));
    assert_eq!(clear_request(false, None, None), Ok(None));
    assert_eq!(clear_request(true, Some(" "), None), Err("已开启清空邮箱，但清空 URL 为空".to_string()));
    assert_eq!(
        clear_request(true, Some(" https://c "), None),
        Ok(Some(("https://c".to_string(), "GET".to_string())))
    );
    assert_eq!(normalized_register_email(Some("  Me@X.com ")), "me@x.com");
    assert_eq!(normalized_register_email(None), "");
    assert_eq!(email_local_part("me@x.com"), "me");
    assert!(mail_matches_email("To: ME@X.COM", "me@x.com", "me"));
    assert!(mail_matches_email("dear john, code", "john@x.com", "john"));
    assert!(!mail_matches_email("dear jo", "jo@x.com", "jo"));
}

#[test]
fn cursor_versions() {
    let plist = "<dict>\n<key>CFBundleShortVersionString</key>\n<string>0.42.3</string>\n</dict>";
    assert_eq!(version_from_info_plist(plist), Some("0.42.3".to_string()));
    assert_eq!(version_from_info_plist("<string>1</string>"), None);
    assert_eq!(version_from_package_json(&json(r#"{"version": "1.2.3"}"#)), Ok("1.2.3".to_string()));
    assert_eq!(version_from_package_json(&json(r#"{"name": "x"}"#)), Err("JSON 中没有找到 version 字段".to_string()));
    assert_eq!(custom_path_version_error("D:/cursor"), "无法从自定义路径 D:/cursor 读取版本");
}

#[test]
fn places_searched_for_cursor() {
    let linux = linux_version_candidates("/home/me");
    assert_eq!(linux[0], "/home/me/.local/share/cursor/resources/app/package.json");
    assert_eq!(linux.len(), 3);
    let win = windows_version_candidates("C:\\Users\\me\\AppData\\Local");
    assert_eq!(win.len(), 40);
    assert_eq!(win[0], "C:\\Users\\me\\AppData\\Local\\Programs\\Cursor\\resources\\app\\package.json");
    assert_eq!(win[3], "C:\\Program Files\\Cursor\\resources\\app\\package.json");
    assert_eq!(win[5], "C:\\cursor\\resources\\app\\package.json");
    assert_eq!(win[39], "G:\\Programs\\Cursor\\resources\\app\\package.json");
}

#[test]
fn random_email_name_has_the_documented_shape() {
    for _ in 0..50 {
        let name = generate_random_email_name();
        let chars: Vec<char> = name.chars().collect();
        assert!(chars.len() >= 7 && chars.len() <= 11, "{}", name);
        assert!(chars.iter().all(|c| c.is_ascii_lowercase() || c.is_ascii_digit()), "{}", name);
        assert!(chars[5].is_ascii_digit(), "{}", name);
        assert!(chars.last().map(|c| c.is_ascii_alphanumeric()).unwrap_or(false), "{}", name);
    }
}

#[test]
fn self_hosted_headers_keep_an_object_and_refuse_the_rest() {
    let obj = to_value(&serde_json::from_str::<serde_json::Value>("{\"Authorization\": \"Bearer x\"}").unwrap());
    let members = parse_self_hosted_headers(Ok(obj)).unwrap();
    assert_eq!(members.len(), 1);
    assert_eq!(members[0].key, "Authorization");
    let arr = to_value(&serde_json::from_str::<serde_json::Value>("[1]").unwrap());
    assert_eq!(parse_self_hosted_headers(Ok(arr)).err().unwrap(), "请求 Headers 须为 JSON 对象（键值对）");
    assert_eq!(
        parse_self_hosted_headers(Err("EOF".to_string())).err().unwrap(),
        "请求 Headers 须为合法 JSON 对象: EOF"
    );
}

#[test]
fn mailbox_urls_percent_encode_the_address() {
    assert_eq!(
        tempmail_list_url("a+b@mailto.plus", "12 34"),
        "https://tempmail.plus/api/mails?email=a%2Bb%40mailto.plus&limit=10&epin=12 34"
    );
    assert_eq!(
        tempmail_detail_url(987, "x_y.z~@mailto.plus", "p"),
        "https://tempmail.plus/api/mails/987?email=x_y.z~%40mailto.plus&epin=p"
    );
    assert_eq!(
        outlook_box_url("me@outlook.com", false),
        "http://query.paopaodw.com/api/GetLastEmails?email=me%40outlook.com&boxType=1"
    );
    assert_eq!(
        outlook_box_url("é@o.com", true),
        "http://query.paopaodw.com/api/GetLastEmails?email=%C3%A9%40o.com&boxType=2"
    );
}

fn total_wait_of_a_fruitless_poll(p: CodePoll) -> (u64, u64, String) {
    let mut waited = first_wait_secs(p);
    let mut attempt = 1u64;
    loop {
        match after_missed_attempt(p, attempt) {
            PollAction::Retry { wait_secs } => {
                waited += wait_secs;
                attempt += 1;
            }
            PollAction::GiveUp { wait_secs, message } => return (attempt, waited + wait_secs, message),
        }
    }
}

#[test]
fn code_polls_give_up_on_their_schedules() {
    assert_eq!(total_wait_of_a_fruitless_poll(CodePoll::CloudflareMailbox), (30, 300, "获取验证码超时".to_string()));
    assert_eq!(
        total_wait_of_a_fruitless_poll(CodePoll::TempmailMailbox),
        (10, 108, "从tempmail获取验证码失败，已尝试10轮查找（约2分钟），请手动输入验证码".to_string())
    );
    assert_eq!(
        total_wait_of_a_fruitless_poll(CodePoll::OutlookMailbox),
        (30, 290, "获取验证码超时，请检查邮箱或稍后重试".to_string())
    );
    assert_eq!(
        total_wait_of_a_fruitless_poll(CodePoll::SelfHostedMailbox),
        (30, 320, "自建邮箱 API 获取验证码超时".to_string())
    );
    assert_eq!(total_wait_of_a_fruitless_poll(CodePoll::CloudflareAutoFill), (10, 95, "获取验证码失败".to_string()));
    assert_eq!(
        total_wait_of_a_fruitless_poll(CodePoll::OutlookAutoFill),
        (10, 98, "自动获取验证码失败，请手动输入验证码".to_string())
    );
    assert_eq!(
        total_wait_of_a_fruitless_poll(CodePoll::TempmailAutoFill),
        (1, 5, "自动获取验证码超时，请手动输入验证码".to_string())
    );
}

#[test]
fn self_hosted_fetch_decisions() {
    let mine = "Your code is 123456 for me@x.com";
    let other = "Your code is 654321 for someone@y.com";
    match self_hosted_step(SelfHostedFetch::Regular, Some(mine), "me@x.com", "me", 1) {
        SelfHostedStep::Code(c) => assert_eq!(c, "123456"),
        _ => panic!("expected the code"),
    }
    assert!(matches!(self_hosted_step(SelfHostedFetch::Regular, Some(other), "me@x.com", "me", 1), SelfHostedStep::RefetchNow));
    assert!(matches!(
        self_hosted_step(SelfHostedFetch::Refetch, Some(other), "me@x.com", "me", 1),
        SelfHostedStep::Then(PollAction::Retry { wait_secs: 0 })
    ));
    assert!(matches!(
        self_hosted_step(SelfHostedFetch::Regular, None, "me@x.com", "me", 1),
        SelfHostedStep::Then(PollAction::Retry { wait_secs: 10 })
    ));
    match self_hosted_step(SelfHostedFetch::Refetch, None, "me@x.com", "me", 30) {
        SelfHostedStep::Then(PollAction::GiveUp { wait_secs, message }) => {
            assert_eq!(wait_secs, 0);
            assert_eq!(message, "自建邮箱 API 获取验证码超时");
        }
        _ => panic!("expected to give up"),
    }
    match self_hosted_step(SelfHostedFetch::Regular, Some(other), "", "", 2) {
        SelfHostedStep::Code(c) => assert_eq!(c, "654321"),
        _ => panic!("without an address every mail counts"),
    }
}
