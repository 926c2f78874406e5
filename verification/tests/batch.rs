use auto_cursor::batch::{
    actual_email, batch_card_indices, batch_delay_seconds, email_display, mail_provider, self_hosted_batch_settings,
    BatchRun, MailProvider,
};
use auto_cursor::json::{JsonMember, JsonNumber, JsonValue};

fn to_value(v: &serde_json::Value) -> JsonValue {
    match v {
        serde_json::Value::Null => JsonValue::Null,
        serde_json::Value::Bool(b) => JsonValue::Bool(*b),
        serde_json::Value::Number(n) => JsonValue::Number(JsonNumber {
            as_i64: n.as_i64(),
            as_u64: n.as_u64(),
            text: n.to_string(),
        }),
        serde_json::Value::String(s) => JsonValue::Str(s.clone()),
        serde_json::Value::Array(a) => JsonValue::Array(a.iter().map(to_value).collect()),
        serde_json::Value::Object(m) => JsonValue::Object(
            m.iter()
                .map(|(k, v)| JsonMember { key: k.clone(), value: to_value(v) })
                .collect(),
        ),
    }
}

fn json(text: &str) -> JsonValue {
    to_value(&serde_json::from_str::<serde_json::Value>(text).unwrap())
}

fn to_serde(v: &JsonValue) -> serde_json::Value {
    match v {
        JsonValue::Null => serde_json::Value::Null,
        JsonValue::Bool(b) => serde_json::Value::Bool(*b),
        JsonValue::Number(n) => serde_json::from_str(&n.text).unwrap(),
        JsonValue::Str(s) => serde_json::Value::String(s.clone()),
        JsonValue::Array(a) => serde_json::Value::Array(a.iter().map(to_serde).collect()),
        JsonValue::Object(m) => {
            let mut map = serde_json::Map::new();
            for member in m {
                map.insert(member.key.clone(), to_serde(&member.value));
            }
            serde_json::Value::Object(map)
        }
    }
}

fn serde(text: &str) -> serde_json::Value {
    serde_json::from_str(text).unwrap()
}

#[test]
fn providers_by_email_type() {
    assert!(mail_provider(Some("tempmail")) == MailProvider::Tempmail);
    assert!(mail_provider(Some("cloudflare_temp")) == MailProvider::CloudflareTemp);
    assert!(mail_provider(Some("self_hosted")) == MailProvider::SelfHosted);
    assert!(mail_provider(Some("outlook")) == MailProvider::Outlook);
    assert!(mail_provider(Some("gmail")) == MailProvider::Custom);
    assert!(mail_provider(None) == MailProvider::Custom);
}

#[test]
fn batch_settings() {
    assert_eq!(
        self_hosted_batch_settings(Some("https://m".to_string()), Some("{}".to_string()), Some(" ".to_string())),
        Ok(("https://m".to_string(), "{}".to_string(), "results[0].raw".to_string()))
    );
    assert_eq!(
        self_hosted_batch_settings(Some("https://m".to_string()), None, None),
        Err("自建邮箱模式需配置 API 请求 URL 与 Headers（JSON 对象）".to_string())
    );
    assert_eq!(email_display(""), "自动生成");
    assert_eq!(email_display("a@b"), "a@b");
    assert_eq!(batch_delay_seconds(None), 10);
    assert_eq!(batch_delay_seconds(Some(5)), 5);
    assert_eq!(batch_delay_seconds(Some(9999)), 600);
}

#[test]
fn cards_of_a_batch() {
    let cards = json(r#"{"cards": [{}, {}, {}]}"#);
    assert_eq!(batch_card_indices(2, 2, 1, &cards, &None, None), Err("邮箱、姓名数量不一致".to_string()));
    assert_eq!(batch_card_indices(2, 2, 2, &cards, &None, None), Ok(vec![Some(0), Some(1)]));
    assert_eq!(batch_card_indices(2, 2, 2, &cards, &Some(vec![2, 0]), None), Ok(vec![Some(2), Some(0)]));
    assert_eq!(
        batch_card_indices(2, 2, 2, &cards, &Some(vec![3]), None),
        Err("银行卡索引 3 超出范围（总共 3 张卡）".to_string())
    );
    assert_eq!(
        batch_card_indices(4, 4, 4, &cards, &None, None),
        Err("选中的银行卡数量(3)少于注册账户数量(4)，请选择足够的银行卡".to_string())
    );
    assert_eq!(batch_card_indices(2, 2, 2, &cards, &Some(vec![]), Some(false)), Ok(vec![None, None]));
    let one = json(r#"{"cardNumber": "1"}"#);
    assert_eq!(batch_card_indices(1, 1, 1, &one, &None, Some(true)), Ok(vec![Some(0)]));
}

#[test]
fn batch_tally() {
    let mut run = BatchRun::new(3);
    let ok = json(r#"{"accountInfo": {"email": "real@x.com"}, "success": true}"#);
    assert_eq!(actual_email(&ok, "given@x.com"), "real@x.com");
    let p1 = run.record(0, "given@x.com", Ok(ok));
    assert!(p1.success && p1.completed == 1 && p1.succeeded == 1 && p1.failed == 0 && p1.total == 3);
    assert_eq!(p1.email, "real@x.com");
    let p2 = run.record(1, "b@x.com", Err("boom".to_string()));
    assert!(!p2.success && p2.completed == 2 && p2.failed == 1);
    assert_eq!(p2.error, Some("boom".to_string()));
    let p3 = run.record_crash("join error");
    assert_eq!(p3.index, 2);
    assert_eq!(p3.error, Some("任务执行失败: join error".to_string()));
    let summary = to_serde(&run.summary());
    assert_eq!(summary["total"], serde("3"));
    assert_eq!(summary["succeeded"], serde("1"));
    assert_eq!(summary["failed"], serde("2"));
    assert_eq!(summary["results"][0]["email"], serde("\"real@x.com\""));
    assert_eq!(summary["results"][0]["index"], serde("0"));
    assert_eq!(summary["errors"][0], serde(r#"{"index": 1, "email": "b@x.com", "success": false, "error": "boom"}"#));
    assert_eq!(summary["errors"][1], serde(r#"{"success": false, "error": "任务执行失败: join error"}"#));
}
