use auto_cursor::conversations::{
    ai_generations_from_json, ai_service_conversations, aichat_conversations, build_conversations_from_ai_service,
    chat_messages, composer_conversations, conversation_detail, format_timestamp, merge_ai_service_data, timeline,
    user_prompts_from_json, workspace_conversations, ChatMessage, ConversationData,
};
use auto_cursor::json::{JsonMember, JsonNumber, JsonValue};

fn to_value(v: &serde_json::Value) -> JsonValue {
    match v {
        serde_json::Value::Null => JsonValue::Null,
        serde_json::Value::Bool(b) => JsonValue::Bool(*b),
        serde_json::Value::Number(n) => JsonValue::Number(JsonNumber {
            as_i64: n.as_i64(),
            as_u64: n.as_u64(),
            text: n.to_string(),
        }),
        serde_json::Value::String(s) => JsonValue::Str(s.clone()),
        serde_json::Value::Array(a) => JsonValue::Array(a.iter().map(to_value).collect()),
        serde_json::Value::Object(m) => JsonValue::Object(
            m.iter()
                .map(|(k, v)| JsonMember { key: k.clone(), value: to_value(v) })
                .collect(),
        ),
    }
}

fn json(text: &str) -> JsonValue {
    to_value(&serde_json::from_str::<serde_json::Value>(text).unwrap())
}

fn pairs(items: &[(&str, i64)]) -> Vec<(String, i64)> {
    items.iter().map(|(t, s)| (t.to_string(), *s)).collect()
}

#[test]
fn timestamps_are_rendered() {
    assert_eq!(format_timestamp(0), "未知时间");
    assert_eq!(format_timestamp(1700000000000), "2023-11-14 22:13:20 UTC");
    assert_eq!(format_timestamp(1700000000999), "2023-11-14 22:13:20 UTC");
    assert_eq!(format_timestamp(-1500), "1969-12-31 23:59:59 UTC");
    assert_eq!(format_timestamp(i64::MAX), "时间戳: 9223372036854775807");
}

#[test]
fn prompts_take_their_time_or_a_stand_in() {
    let root = json(r#"[{"text": "first", "timestamp": 5}, {"text": ""}, {"text": "third", "unixMs": 7}, {"text": "fourth"}, 3]"#);
    let got = user_prompts_from_json(&root, 1_000_000);
    assert_eq!(got, pairs(&[("first", 5), ("third", 7), ("fourth", 1_000_000 - 5 * 60000 + 3 * 60000)]));
    assert!(user_prompts_from_json(&json(r#"{"text": "x"}"#), 0).is_empty());
}

#[test]
fn prompt_time_prefers_timestamp_then_created_at() {
    let root = json(r#"[{"text": "a", "createdAt": 9, "unixMs": 10}]"#);
    assert_eq!(user_prompts_from_json(&root, 0), pairs(&[("a", 9)]));
}

#[test]
fn every_generation_with_a_reply_is_read() {
    let root = json(r#"[{"content": "reply one", "unixMs": 42}, {"response": "reply two", "unixMs": 43}]"#);
    assert_eq!(ai_generations_from_json(&root, 0), pairs(&[("reply one", 42), ("reply two", 43)]));
    let spaced = json(r#"[{"output": "a"}, "not an object", {"other": 1}, {"generatedText": "b"}]"#);
    assert_eq!(
        ai_generations_from_json(&spaced, 1_000_000),
        pairs(&[("a", 1_000_000 - 240000 + 30000), ("b", 1_000_000 - 240000 + 3 * 60000 + 30000)])
    );
    let no_time = json(r#"[{"textDescription": "d"}]"#);
    assert_eq!(ai_generations_from_json(&no_time, 1_000_000), pairs(&[("d", 1_000_000 - 60000 + 30000)]));
    assert!(ai_generations_from_json(&json(r#"[{"other": 1}]"#), 0).is_empty());
}

#[test]
fn composers_are_listed_with_titles() {
    let root = json(
        r#"{"allComposers": [
            {"composerId": "c1", "name": "Named", "createdAt": 1700000000000},
            {"composerId": "abcdefghijkl"},
            "skip me",
            {"title": "T"}
        ]}"#,
    );
    let list = composer_conversations(&root);
    assert_eq!(list.len(), 3);
    assert_eq!(list[0].id, "c1");
    assert_eq!(list[0].title, "Named");
    assert_eq!(list[0].created_at, "2023-11-14 22:13:20 UTC");
    assert_eq!(list[0].last_message, "等待加载内容...");
    assert_eq!(list[1].title, "对话 abcdefgh...");
    assert_eq!(list[1].created_at, "未知时间");
    assert_eq!(list[2].id, "unknown");
    assert_eq!(list[2].title, "T");
    assert_eq!(list[2].message_count, 0);
}

#[test]
fn sidebar_state_names_chat_conversations() {
    let root = json(
        r#"[
            {"id": "workbench.panel.aichat.view.0123456789abcdef0123456789abcdef012"},
            {"id": "workbench.panel.aichat.short"},
            {"id": "workbench.view.explorer"},
            {"id": "workbench.panel.aichat.view.aaaaaaaa-bbbb-cccc-dddd-eeeeeeeeeeee"}
        ]"#,
    );
    let list = aichat_conversations(&root);
    assert_eq!(list.len(), 1);
    assert_eq!(list[0].id, "aaaaaaaa-bbbb-cccc-dddd-eeeeeeeeeeee");
    assert_eq!(list[0].title, "对话 3");
    assert_eq!(list[0].created_at, "2025-10-25 20:00:00 UTC");
}

#[test]
fn sidebar_is_used_only_without_composers() {
    let composers = json(r#"{"allComposers": [{"composerId": "c1"}]}"#);
    let empty = json(r#"{"allComposers": []}"#);
    let side = json(r#"[{"id": "x.aichat.aaaaaaaa-bbbb-cccc-dddd-eeeeeeeeeeee"}]"#);
    assert_eq!(workspace_conversations(Some(&composers), Some(&side))[0].id, "c1");
    assert_eq!(workspace_conversations(Some(&empty), Some(&side))[0].title, "对话 1");
    assert!(workspace_conversations(None, None).is_empty());
}

#[test]
fn generation_statistics_go_to_the_first_conversation() {
    let data = json(
        r#"[{"generationUUID": "u1", "textDescription": "old", "unixMs": 5},
            {"generationUUID": "u2", "textDescription": "new", "unixMs": 9},
            {"generationUUID": "", "textDescription": "skipped"},
            {"generationUUID": "u3", "textDescription": "tie", "unixMs": 9}]"#,
    );
    let stats = ai_service_conversations(&data);
    assert_eq!(stats.len(), 3);
    let mut convs = vec![
        ConversationData { id: "c1".to_string(), title: "t".to_string(), last_message: "x".to_string(), created_at: "c".to_string(), message_count: 0 },
        ConversationData { id: "c2".to_string(), title: "t2".to_string(), last_message: "y".to_string(), created_at: "c".to_string(), message_count: 0 },
    ];
    merge_ai_service_data(&mut convs, stats);
    assert_eq!(convs[0].message_count, 3);
    assert_eq!(convs[0].last_message, "new");
    assert_eq!(convs[1].last_message, "y");
    let mut none: Vec<ConversationData> = Vec::new();
    merge_ai_service_data(&mut none, vec![("u".to_string(), "t".to_string(), 1)]);
    assert!(none.is_empty());
}

#[test]
fn timeline_is_sorted_stably_by_time() {
    let prompts = pairs(&[("a", 30), ("b", 10)]);
    let replies = pairs(&[("c", 20), ("d", 10)]);
    let t = timeline(&prompts, &replies);
    let order: Vec<(String, String, i64)> = t.iter().map(|m| (m.content.clone(), m.sender.clone(), m.timestamp)).collect();
    assert_eq!(
        order,
        vec![
            ("b".to_string(), "user".to_string(), 10),
            ("d".to_string(), "assistant".to_string(), 10),
            ("c".to_string(), "assistant".to_string(), 20),
            ("a".to_string(), "user".to_string(), 30),
        ]
    );
    for w in t.windows(2) {
        assert!(w[0].timestamp <= w[1].timestamp);
    }
}

#[test]
fn chat_messages_render_times() {
    let msgs = chat_messages(&pairs(&[("hi", 1700000000000)]), &pairs(&[("hello", 0)]));
    assert_eq!(msgs.len(), 2);
    assert_eq!(msgs[0].sender, "assistant");
    assert_eq!(msgs[0].timestamp, "未知时间");
    assert_eq!(msgs[1].timestamp, "2023-11-14 22:13:20 UTC");
}

#[test]
fn one_conversation_from_all_messages() {
    let convs = build_conversations_from_ai_service(
        &pairs(&[("a very long first question that goes on and on", 2)]),
        &pairs(&[("answer", 1)]),
    );
    assert_eq!(convs.len(), 1);
    assert_eq!(convs[0].id, "conversation_1");
    assert_eq!(convs[0].title, "a very long first question tha...");
    assert_eq!(convs[0].last_message, "a very long first question that goes on and on");
    assert_eq!(convs[0].message_count, 2);
    assert!(build_conversations_from_ai_service(&Vec::new(), &Vec::new()).is_empty());
    let only_replies = build_conversations_from_ai_service(&Vec::new(), &pairs(&[("r", 1)]));
    assert_eq!(only_replies[0].title, "新对话");
}

#[test]
fn conversation_detail_needs_messages() {
    match conversation_detail("id".to_string(), Vec::new()) {
        Err(e) => assert_eq!(e, "未找到聊天消息"),
        Ok(_) => panic!("expected an error"),
    }
    let msgs = vec![
        ChatMessage { timestamp: "t0".to_string(), sender: "assistant".to_string(), content: "hello".to_string() },
        ChatMessage { timestamp: "t1".to_string(), sender: "user".to_string(), content: "question".to_string() },
    ];
    let d = conversation_detail("id".to_string(), msgs).ok().unwrap();
    assert_eq!(d.title, "question");
    assert_eq!(d.created_at, "t0");
    assert_eq!(d.message_count, 2);
    assert_eq!(d.messages.len(), 2);
}
