use auto_cursor::json::{JsonMember, JsonNumber, JsonValue};
use auto_cursor::registration::{
    FixedResultFlow, access_password_or_default, codex_command_args, account_to_save, codex_config_parts, codex_manual_step, codex_step_args, exit_failure_message, fetch_failure_event, fixed_flow_result, line_awaits_mail_code, non_blank_or, tempmail_result,
    check_verification_code, continue_signal, convert_bank_card_config, decode_python_output,
    default_codex_cdp_cli_steps, extract_token_from_text, fixed_phone_digits, generate_task_id, haozhuma_phone_params,
    haozhuma_sms_url, haozhuma_test_input, haozhuma_test_result, is_codex_token_file_name, join_lines,
    line_reports_code_timeout, line_requests_code, login_token_error, parse_codex_cdp_cli_steps, phone_from_reply,
    phone_last4, port_saved_message, registration_result, registration_runtime_config,
    resolve_codex_cdp_step_value, sanitize_python_output_line, select_bank_card, skip_phone_flag,
    sort_token_files_recent_first, switch_text, verification_code_file_name, web_server_port, CodexCdpCliStep,
    CodexCdpStep, CodexTokenFileInfo,
};

fn to_value(v: &serde_json::Value) -> JsonValue {
    match v {
        serde_json::Value::Null => JsonValue::Null,
        serde_json::Value::Bool(b) => JsonValue::Bool(*b),
        serde_json::Value::Number(n) => JsonValue::Number(JsonNumber {
            as_i64: n.as_i64(),
            as_u64: n.as_u64(),
            text: n.to_string(),
        }),
        serde_json::Value::String(s) => JsonValue::Str(s.clone()),
        serde_json::Value::Array(a) => JsonValue::Array(a.iter().map(to_value).collect()),
        serde_json::Value::Object(m) => JsonValue::Object(
            m.iter()
                .map(|(k, v)| JsonMember { key: k.clone(), value: to_value(v) })
                .collect(),
        ),
    }
}

fn json(text: &str) -> JsonValue {
    to_value(&serde_json::from_str::<serde_json::Value>(text).unwrap())
}

fn to_serde(v: &JsonValue) -> serde_json::Value {
    match v {
        JsonValue::Null => serde_json::Value::Null,
        JsonValue::Bool(b) => serde_json::Value::Bool(*b),
        JsonValue::Number(n) => serde_json::from_str(&n.text).unwrap(),
        JsonValue::Str(s) => serde_json::Value::String(s.clone()),
        JsonValue::Array(a) => serde_json::Value::Array(a.iter().map(to_serde).collect()),
        JsonValue::Object(m) => {
            let mut map = serde_json::Map::new();
            for member in m {
                map.insert(member.key.clone(), to_serde(&member.value));
            }
            serde_json::Value::Object(map)
        }
    }
}

fn serde(text: &str) -> serde_json::Value {
    serde_json::from_str(text).unwrap()
}

#[test]
fn output_lines_are_cleaned() {
    assert_eq!(sanitize_python_output_line("\u{1b}[32m? [INFO] ok\r\n"), "[INFO] ok");
    assert_eq!(sanitize_python_output_line("? hello"), "? hello");
    assert_eq!(sanitize_python_output_line("?   你好"), "你好");
    assert_eq!(sanitize_python_output_line("a\u{FFFD}b\n"), "ab");
    assert_eq!(sanitize_python_output_line("plain"), "plain");
}

#[test]
fn output_is_decoded_as_utf8_or_gbk() {
    assert_eq!(decode_python_output("done\r\n".as_bytes()), "done");
    assert_eq!(decode_python_output(&[0xC4, 0xE3, 0xBA, 0xC3, b'\n']), "你好");
}

#[test]
fn output_lines_signal_the_code_dialog() {
    assert!(line_requests_code("[x] 等待前端输入验证码"));
    assert!(line_requests_code("request_verification_code"));
    assert!(!line_requests_code("other"));
    assert!(line_reports_code_timeout("verification_timeout"));
    assert!(!line_reports_code_timeout("done"));
}

#[test]
fn program_switches() {
    assert_eq!(switch_text(None, true), "true");
    assert_eq!(switch_text(Some(false), true), "false");
    assert_eq!(skip_phone_flag(None), "0");
    assert_eq!(skip_phone_flag(Some(true)), "1");
    assert_eq!(verification_code_file_name(Some("ab")), "cursor_verification_code_ab.txt");
    assert_eq!(verification_code_file_name(None), "cursor_verification_code.txt");
}

#[test]
fn verification_codes_are_six_digits() {
    assert_eq!(check_verification_code("123456"), Ok(()));
    assert_eq!(check_verification_code("12345"), Err("验证码必须是6位数字".to_string()));
    assert_eq!(check_verification_code("12345a"), Err("验证码必须是6位数字".to_string()));
    assert_eq!(check_verification_code("１２３４５６"), Err("验证码必须是6位数字".to_string()));
}

#[test]
fn continue_signals() {
    assert_eq!(continue_signal(None), Ok("continue".to_string()));
    assert_eq!(continue_signal(Some(" next ".to_string())), Ok("next".to_string()));
    assert_eq!(continue_signal(Some("  ".to_string())), Err("继续信号不能为空".to_string()));
}

#[test]
fn bank_card_selection() {
    assert_eq!(select_bank_card(&json(r#"{"cards": []}"#), None), Err("银行卡配置为空，请先配置至少一张银行卡".to_string()));
    assert_eq!(
        select_bank_card(&json(r#"{"cards": [{}, {}]}"#), Some(5)),
        Err("银行卡索引 5 超出范围（总共 2 张卡）".to_string())
    );
    assert_eq!(select_bank_card(&json(r#"{"cards": [{}, {}]}"#), Some(1)), Ok(1));
    assert_eq!(select_bank_card(&json(r#"{"cardNumber": "4242"}"#), None), Ok(0));
}

#[test]
fn bank_card_conversion() {
    assert!(matches!(convert_bank_card_config(&json(r#"{"cards": []}"#)), Ok(None)));
    match convert_bank_card_config(&json(r#"{"cardNumber": "4242", "cardExpiry": ""}"#)) {
        Err(e) => assert_eq!(e, "银行卡配置缺少必需字段: cardExpiry"),
        _ => panic!("expected an error"),
    }
    let full = r#"{"cardNumber": "1", "cardExpiry": "2", "cardCvc": "3", "billingName": "4", "billingCountry": "5",
        "billingPostalCode": "6", "billingAdministrativeArea": "7", "billingLocality": "8",
        "billingDependentLocality": "9", "billingAddressLine1": "10"}"#;
    match convert_bank_card_config(&json(full)) {
        Ok(Some(c)) => assert_eq!(to_serde(&c), serde(&format!("{{\"cards\": [{}]}}", full))),
        _ => panic!("expected a conversion"),
    }
}

#[test]
fn runtime_configuration_defaults() {
    let c = registration_runtime_config(None, 0, None, None);
    assert_eq!(
        to_serde(&c),
        serde(r#"{"btnIndex": 1, "subscriptionTier": "pro", "allowAutomaticPayment": true, "allowTrial": true,
                 "useApiForBindCard": 1, "cardIndex": 0}"#)
    );
}

#[test]
fn runtime_configuration_from_front_end() {
    let frontend = json(r#"{"btnIndex": 2, "allowTrial": false, "proxy": {"host": "h"}, "haozhuma": {"enabled": true}}"#);
    let saved = json(r#"{"enabled": false, "api_domain": "x"}"#);
    let c = registration_runtime_config(Some(&frontend), 1, Some("/b".to_string()), Some(saved));
    assert_eq!(
        to_serde(&c),
        serde(r#"{"btnIndex": 2, "subscriptionTier": "pro", "allowAutomaticPayment": true, "allowTrial": false,
                 "useApiForBindCard": 1, "cardIndex": 1, "proxy": {"host": "h"}, "custom_browser_path": "/b",
                 "haozhuma": {"enabled": true, "api_domain": "x"}}"#)
    );
    let only_front = registration_runtime_config(Some(&frontend), 0, None, None);
    assert_eq!(to_serde(&only_front)["haozhuma"], serde(r#"{"enabled": true}"#));
}

#[test]
fn lines_are_joined() {
    assert_eq!(join_lines(&vec![]), "");
    assert_eq!(join_lines(&vec!["a".to_string()]), "a");
    assert_eq!(join_lines(&vec!["a".to_string(), "".to_string(), "b".to_string()]), "a\n\nb");
}

#[test]
fn result_from_the_last_json_line() {
    let lines = vec![
        "starting".to_string(),
        r#"  {"success": false, "token": "t"}"#.to_string(),
        "{not json".to_string(),
    ];
    let parsed = vec![None, Some(json(r#"{"success": false, "token": "t"}"#)), None];
    let r = registration_result("me@x.com", true, false, &lines, &vec!["warn".to_string()], &parsed);
    let v = to_serde(&r);
    assert_eq!(v["success"], serde("true"));
    assert_eq!(v["token"], serde("\"t\""));
    assert_eq!(v["message"], serde("\"注册成功（进程成功退出）\""));
    assert_eq!(v["error_output"], serde("\"warn\""));
    assert_eq!(v["raw_output"], serde_json::Value::String(lines.join("\n")));
    assert_eq!(v["output_lines"].as_array().map(|a| a.len()), Some(3));
}

#[test]
fn result_of_a_failed_run_keeps_the_program_verdict() {
    let lines = vec![r#"{"success": false, "error": "captcha"}"#.to_string()];
    let parsed = vec![Some(json(&lines[0]))];
    let v = to_serde(&registration_result("me@x.com", false, false, &lines, &vec![], &parsed));
    assert_eq!(v["success"], serde("false"));
    assert_eq!(v["error"], serde("\"captcha\""));
    assert!(v.get("error_output").is_none());
    assert!(v.get("message").is_none());
}

#[test]
fn result_without_json() {
    let lines = vec!["a".to_string(), "b".to_string()];
    let parsed = vec![None, None];
    let ok = to_serde(&registration_result("me@x.com", true, false, &lines, &vec![], &parsed));
    assert_eq!(
        ok,
        serde(r#"{"success": true, "email": "me@x.com", "message": "注册成功（进程成功退出）",
                 "output_lines": ["a", "b"], "raw_output": "a\nb"}"#)
    );
    let killed = to_serde(&registration_result("me@x.com", true, true, &lines, &vec![], &parsed));
    assert_eq!(
        killed,
        serde(r#"{"success": false, "error": "进程超时被终止", "output_lines": ["a", "b"], "raw_output": "a\nb"}"#)
    );
    let failed = to_serde(&registration_result("me@x.com", false, false, &vec![], &vec![], &vec![]));
    assert_eq!(failed["error"], serde("\"进程执行失败\""));
}

#[test]
fn task_ids_are_hexadecimal() {
    let id = generate_task_id("me@x.com");
    assert!(!id.is_empty());
    assert!(id.chars().all(|c| c.is_ascii_hexdigit() && !c.is_ascii_uppercase()));
}

#[test]
fn web_server_ports() {
    assert_eq!(web_server_port(None), 34567);
    assert_eq!(web_server_port(Some(&json(r#"{"port": 8080}"#))), 8080);
    assert_eq!(web_server_port(Some(&json(r#"{"port": 70000}"#))), 4464);
    assert_eq!(web_server_port(Some(&json(r#"{"port": "8080"}"#))), 34567);
    assert_eq!(port_saved_message(8080), "端口已设置为: 8080, 需要重启应用生效");
}

#[test]
fn login_tokens_are_found() {
    let from_json = json(r#"{"token": "  abcdefgh1  "}"#);
    assert_eq!(extract_token_from_text("ignored", Some(&from_json)), Some("abcdefgh1".to_string()));
    let short_json = json(r#"{"token": "short", "data": "longenough1"}"#);
    assert_eq!(extract_token_from_text("ignored", Some(&short_json)), Some("longenough1".to_string()));
    assert_eq!(extract_token_from_text("1| abcdefghij |x", None), Some("abcdefghij".to_string()));
    assert_eq!(extract_token_from_text("ok;12345678", None), Some("12345678".to_string()));
    assert_eq!(extract_token_from_text("token=ABCdef123456", None), Some("ABCdef123456".to_string()));
    assert_eq!(extract_token_from_text("nothing here", None), None);
    assert_eq!(
        login_token_error("bad"),
        "豪猪登录未解析到 token，响应: bad"
    );
}

#[test]
fn phone_service_requests() {
    assert_eq!(haozhuma_sms_url("example.com/"), "https://example.com/sms/");
    assert_eq!(haozhuma_sms_url(" http://a.b// "), "http://a.b/sms/");
    let params = haozhuma_phone_params("t", "s", &json(r#"{"isp": " 1 ", "province": "广东", "uid": ""}"#));
    let expected: Vec<(String, String)> = vec![
        ("api", "getPhone"),
        ("token", "t"),
        ("sid", "s"),
        ("isp", "1"),
        ("Province", "广东"),
    ]
    .into_iter()
    .map(|(a, b)| (a.to_string(), b.to_string()))
    .collect();
    assert_eq!(params, expected);
}

#[test]
fn phone_service_test_settings() {
    let bad = haozhuma_test_input(&json(r#"{"api_domain": "d", "username": " "}"#));
    assert_eq!(bad.err(), Some("豪猪配置不完整：需要 api_domain / username / password / project_id".to_string()));
    let good = haozhuma_test_input(&json(
        r#"{"api_domain": " d ", "username": "u", "password": "p", "project_id": "1", "fixed_phone": " 138 "}"#,
    ))
    .ok()
    .unwrap();
    assert_eq!(good.api_domain, "d");
    assert_eq!(good.fixed_phone, "138");
    assert_eq!(fixed_phone_digits("+86 138"), Err("指定手机号无效（至少 6 位）：+86 138".to_string()));
    assert_eq!(fixed_phone_digits("138-0013-8000"), Ok("13800138000".to_string()));
    assert_eq!(phone_from_reply("1|13800138000"), Ok("113800138000".to_string()));
    assert_eq!(phone_from_reply("no"), Err("豪猪取号未解析到号码，响应: no".to_string()));
    assert_eq!(phone_last4("13800138000"), Some("8000".to_string()));
    assert_eq!(phone_last4("123"), None);
    let r = haozhuma_test_result("tok", "13800138000", true);
    assert!(r.success);
    assert_eq!(r.message, "豪猪 API 连接测试成功（使用指定手机号）");
    assert_eq!(r.token_len, Some(3));
    assert_eq!(r.phone_last4, Some("8000".to_string()));
}

fn step(kind: &str, selector: &str, value: Option<&str>, wait: Option<bool>) -> CodexCdpStep {
    CodexCdpStep {
        step_type: kind.to_string(),
        selector: selector.to_string(),
        value: value.map(|v| v.to_string()),
        wait_for_load: wait,
    }
}

fn describe(s: &CodexCdpCliStep) -> String {
    match s {
        CodexCdpCliStep::Click { selector, wait_for_load } => format!("click {} {}", selector, wait_for_load),
        CodexCdpCliStep::Input { selector, value } => format!("input {} {}", selector, value),
    }
}

#[test]
fn automation_steps() {
    let defaults = default_codex_cdp_cli_steps("me@x.com", "pw");
    assert_eq!(defaults.len(), 13);
    assert_eq!(describe(&defaults[1]), "input css:input#email me@x.com");
    assert_eq!(describe(&defaults[3]), "input css:input[type='password'] pw");
    assert_eq!(describe(&defaults[9]), "input @name=age 25");
    assert_eq!(resolve_codex_cdp_step_value(" __REGISTER_EMAIL__ ", "e", "p"), "e");
    assert_eq!(resolve_codex_cdp_step_value("__ACCESS_PASSWORD__", "e", "p"), "p");
    assert_eq!(resolve_codex_cdp_step_value(" x ", "e", "p"), " x ");

    let steps = vec![
        step(" click ", " #x ", None, Some(true)),
        step("input", "#e", Some(" __REGISTER_EMAIL__ "), None),
    ];
    let parsed = parse_codex_cdp_cli_steps(&steps, "me@x.com", "pw").ok().unwrap();
    let shown: Vec<String> = parsed.iter().map(describe).collect();
    assert_eq!(shown, vec!["click #x true", "input #e me@x.com"]);

    let blank = vec![step("click", "  ", None, None)];
    assert_eq!(parse_codex_cdp_cli_steps(&blank, "e", "p").err(), Some("Codex CDP steps[0].selector 不能为空".to_string()));
    let no_value = vec![step("click", "#a", None, None), step("input", "#b", None, None)];
    assert_eq!(parse_codex_cdp_cli_steps(&no_value, "e", "p").err(), Some("Codex CDP steps[1].value 不能为空".to_string()));
    let bad_type = vec![step("click", "#a", None, None), step(" hover ", "#b", None, None)];
    assert_eq!(
        parse_codex_cdp_cli_steps(&bad_type, "e", "p").err(),
        Some("Codex CDP steps[1].type 不支持: hover，仅支持 click / input".to_string())
    );
}

fn token_file(name: &str, updated: u64) -> CodexTokenFileInfo {
    CodexTokenFileInfo {
        file_name: name.to_string(),
        file_path: format!("/t/{}", name),
        created_at_unix: 0,
        updated_at_unix: updated,
        content: "{}".to_string(),
    }
}

#[test]
fn token_files_recent_first() {
    assert!(is_codex_token_file_name("token_a.json"));
    assert!(!is_codex_token_file_name("token_a.txt"));
    assert!(!is_codex_token_file_name("a_token.json"));
    let mut files = vec![token_file("a", 5), token_file("b", 9), token_file("c", 5), token_file("d", 1)];
    sort_token_files_recent_first(&mut files);
    let names: Vec<String> = files.iter().map(|f| f.file_name.clone()).collect();
    assert_eq!(names, vec!["b", "a", "c", "d"]);
}

#[test]
fn mail_code_requests_per_flow() {
    assert!(line_awaits_mail_code("等待验证码...", false));
    assert!(!line_awaits_mail_code("请输入验证码", false));
    assert!(line_awaits_mail_code("请输入验证码", true));
    assert!(line_awaits_mail_code("需要邮箱验证码", true));
    assert!(!line_awaits_mail_code("done", true));
}

#[test]
fn failed_fetches_and_exits() {
    assert_eq!(
        fetch_failure_event("自建邮箱 API 获取验证码超时"),
        ("verification-code-timeout".to_string(), "自动获取验证码超时，请手动输入验证码".to_string())
    );
    assert_eq!(
        fetch_failure_event("network down"),
        ("verification-code-manual-input-required".to_string(), "自动获取验证码失败，请手动输入验证码".to_string())
    );
    assert_eq!(exit_failure_message(Some(1)), "Python脚本执行失败，退出码: Some(1)");
    assert_eq!(exit_failure_message(Some(-2)), "Python脚本执行失败，退出码: Some(-2)");
    assert_eq!(exit_failure_message(None), "Python脚本执行失败，退出码: None");
}

#[test]
fn fixed_results_of_flows() {
    assert_eq!(
        to_serde(&fixed_flow_result(FixedResultFlow::CloudflareTemp, "a@b.c")),
        serde(r#"{"email": "a@b.c", "email_type": "cloudflare_temp"}"#)
    );
    assert_eq!(
        to_serde(&fixed_flow_result(FixedResultFlow::Outlook, "a@b.c")),
        serde(r#"{"success": false, "message": "注册进程已退出", "email": "a@b.c", "email_type": "outlook-default"}"#)
    );
    assert_eq!(
        to_serde(&fixed_flow_result(FixedResultFlow::Codex, "a@b.c"))["success"],
        serde("true")
    );
}

#[test]
fn tempmail_results() {
    let empty = tempmail_result("  \n", None, "a@b.c");
    assert_eq!(
        to_serde(&empty),
        serde(r#"{"success": true, "email": "a@b.c", "message": "注册成功（进程成功退出）"}"#)
    );
    let parsed = tempmail_result("{\"success\": false}", Some(json(r#"{"success": false}"#)), "a@b.c");
    assert_eq!(to_serde(&parsed), serde(r#"{"success": false}"#));
    let garbled = tempmail_result("oops", None, "a@b.c");
    assert_eq!(to_serde(&garbled)["raw_output"], serde("\"oops\""));
    assert_eq!(account_to_save(&empty), Some("a@b.c".to_string()));
    assert_eq!(account_to_save(&json(r#"{"success": false, "email": "x@y"}"#)), None);
    assert_eq!(account_to_save(&json(r#"{"message": "注册成功!", "email": "x@y"}"#)), Some("x@y".to_string()));
}

#[test]
fn codex_program_arguments() {
    let steps = vec![
        CodexCdpCliStep::Click { selector: "#a".to_string(), wait_for_load: false },
        CodexCdpCliStep::Click { selector: "#b".to_string(), wait_for_load: true },
        CodexCdpCliStep::Input { selector: "#c".to_string(), value: "v=1".to_string() },
    ];
    assert_eq!(
        codex_step_args(&steps),
        vec!["--click", "#a", "--click-wait-load", "#b", "--input", "#c=v=1"]
    );
    assert_eq!(non_blank_or(Some("  ".to_string()), "https://chatgpt.com/"), "https://chatgpt.com/");
    assert_eq!(non_blank_or(Some("x".to_string()), "d"), "x");
    assert_eq!(access_password_or_default(None), "AUTOCURSOT_WUQI_2002");
    let (rest, manual, overrides) = codex_config_parts(Some(json(
        r#"{"manualConfirmBeforePostOauth": true, "codexCdpOverrides": {"url": "u"}, "keep": 1}"#,
    )));
    assert_eq!(to_serde(&rest), serde(r#"{"keep": 1}"#));
    assert!(manual);
    assert_eq!(overrides.map(|o| to_serde(&o)), Some(serde(r#"{"url": "u"}"#)));
    let (empty, manual2, none) = codex_config_parts(None);
    assert_eq!(to_serde(&empty), serde("{}"));
    assert!(!manual2 && none.is_none());
    let step = codex_manual_step(&json(r#"{"action": "wait_for_user", "continue_file": "/c"}"#), "t1", "a@b.c").unwrap();
    assert_eq!(
        to_serde(&step),
        serde(r#"{"task_id": "t1", "email": "a@b.c", "reason": "manual_step", "message": "请完成手动步骤后继续",
                 "continue_file": "/c", "cancel_file": null, "status": "waiting"}"#)
    );
    assert!(codex_manual_step(&json(r#"{"action": "other"}"#), "t", "e").is_none());
}

#[test]
fn codex_command_arguments() {
    let args = codex_command_args(None, None, "{}", "2", "20", "1.8", Some("  ".to_string()), None, "e@x.com", "pw").unwrap();
    assert_eq!(
        &args[..14],
        &[
            "--url", "https://chatgpt.com/", "--incognito", "true", "--custom-config-json", "{}", "--wait-after-open", "2",
            "--element-timeout", "20", "--wait-after-action", "1.8", "--post-oauth-step1-py", "openai_oauth_step1.py",
        ]
    );
    assert_eq!(args[14], "--click");
    assert_eq!(args[15], "css:button[class*='btn-secondary']");
    assert_eq!(args[16], "--input");
    assert_eq!(args[17], "css:input#email=e@x.com");
    let custom = vec![step("click", "#go", None, Some(true))];
    let args = codex_command_args(
        Some("https://example.com/".to_string()), Some(false), "{\"a\":1}", "1", "2", "3", Some("post.py".to_string()),
        Some(&custom), "e@x.com", "pw",
    )
    .unwrap();
    assert_eq!(args[1], "https://example.com/");
    assert_eq!(args[3], "false");
    assert_eq!(args[13], "post.py");
    assert_eq!(&args[14..], &["--click-wait-load", "#go"]);
    let bad = vec![step("hover", "#go", None, None)];
    assert!(codex_command_args(None, None, "{}", "2", "20", "1.8", None, Some(&bad), "e", "p").is_err());
}
