//! Chat history of a Cursor workspace, read from the JSON values that its `state.vscdb` table
//! holds: prompts, generations, composers, and the messages of one conversation.
use vstd::prelude::*;
use crate::json::{Json, JsonValue, models, lemma_models, opt_str_view};
use crate::text::{owned, concat, char_count, safe_truncate_string, spec_truncate};
use crate::numbers::{i64_text, spec_decimal};
use crate::outside::{utc_text, spec_utc_text};

verus! {

// ---------------------------------------------------------------------------
// Types
// ---------------------------------------------------------------------------

/// One conversation as listed for a workspace.
pub struct ConversationData {
    pub id: String,
    pub title: String,
    pub last_message: String,
    pub created_at: String,
    pub message_count: usize,
}

pub struct ConversationView {
    pub id: Seq<char>,
    pub title: Seq<char>,
    pub last_message: Seq<char>,
    pub created_at: Seq<char>,
    pub message_count: nat,
}

impl View for ConversationData {
    type V = ConversationView;

    open spec fn view(&self) -> ConversationView {
        ConversationView {
            id: self.id@,
            title: self.title@,
            last_message: self.last_message@,
            created_at: self.created_at@,
            message_count: self.message_count as nat,
        }
    }
}

pub open spec fn conversation_views(s: Seq<ConversationData>) -> Seq<ConversationView> {
    s.map_values(|c: ConversationData| c@)
}

/// A message of a conversation: when, who ("user" or "assistant"), and what.
pub struct ChatMessage {
    pub timestamp: String,
    pub sender: String,
    pub content: String,
}

pub struct ChatMessageView {
    pub timestamp: Seq<char>,
    pub sender: Seq<char>,
    pub content: Seq<char>,
}

impl View for ChatMessage {
    type V = ChatMessageView;

    open spec fn view(&self) -> ChatMessageView {
        ChatMessageView { timestamp: self.timestamp@, sender: self.sender@, content: self.content@ }
    }
}

pub open spec fn message_views(s: Seq<ChatMessage>) -> Seq<ChatMessageView> {
    s.map_values(|m: ChatMessage| m@)
}

/// A conversation with all its messages.
pub struct ConversationDetail {
    pub id: String,
    pub title: String,
    pub created_at: String,
    pub message_count: usize,
    pub messages: Vec<ChatMessage>,
}

/// A text with the millisecond timestamp it was written at.
pub open spec fn pair_views(s: Seq<(String, i64)>) -> Seq<(Seq<char>, i64)> {
    s.map_values(|p: (String, i64)| (p.0@, p.1))
}

// ---------------------------------------------------------------------------
// Timestamps
// ---------------------------------------------------------------------------

/// Integer division rounding toward zero, as Rust's `/` does.
pub open spec fn trunc_div(a: int, b: int) -> int {
    if a >= 0 {
        a / b
    } else {
        -((-a) / b)
    }
}

/// How a millisecond timestamp is shown: "未知时间" for 0, the UTC time of its whole seconds
/// when chrono can represent it, else "时间戳: " and the number.
pub open spec fn spec_format_timestamp(ms: i64) -> Seq<char> {
    if ms == 0 {
        "未知时间"@
    } else {
        match spec_utc_text(trunc_div(ms as int, 1000) as i64) {
            Some(t) => t,
            None => "时间戳: "@ + spec_decimal(ms as int),
        }
    }
}

fn whole_seconds(ms: i64) -> (s: i64)
    ensures
        s == trunc_div(ms as int, 1000),
{
    if ms >= 0 {
        let u: u64 = ms as u64;
        (u / 1000) as i64
    } else {
        let p: u64 = (0i128 - (ms as i128)) as u64;
        let q: u64 = p / 1000;
        (0i128 - (q as i128)) as i64
    }
}

/// Renders a millisecond timestamp for display.
pub fn format_timestamp(timestamp_ms: i64) -> (r: String)
    ensures
        r@ == spec_format_timestamp(timestamp_ms),
{
    if timestamp_ms == 0 {
        return owned("未知时间");
    }
    let secs = whole_seconds(timestamp_ms);
    match utc_text(secs) {
        Some(t) => t,
        None => {
            let n = i64_text(timestamp_ms);
            concat("时间戳: ", n.as_str())
        },
    }
}

// ---------------------------------------------------------------------------
// Prompts and generations (`aiService.prompts`, `aiService.generations`)
// ---------------------------------------------------------------------------

pub open spec fn str_or_empty(v: Option<Seq<char>>) -> Seq<char> {
    match v {
        Some(t) => t,
        None => Seq::empty(),
    }
}

/// The stand-in time of the entry at `index` of `len` entries that carries none: one minute
/// apart, the last one a minute before `now`.
pub open spec fn spaced_time(now: i64, len: int, index: int) -> int {
    now - len * 60000 + index * 60000
}

/// Whether the stand-in times of an array of `len` entries fit in an `i64`.
pub open spec fn clock_fits(now: i64, len: int) -> bool {
    now - len * 60000 >= i64::MIN
}

/// The timestamp of a prompt: "timestamp", else "createdAt", else "unixMs", else a stand-in.
pub open spec fn prompt_time(item: Json, index: int, len: int, now: i64) -> i64 {
    match item.get_i64("timestamp"@) {
        Some(t) => t,
        None => match item.get_i64("createdAt"@) {
            Some(t) => t,
            None => match item.get_i64("unixMs"@) {
                Some(t) => t,
                None => spaced_time(now, len, index) as i64,
            },
        },
    }
}

/// A prompt with a non-empty "text" gives that text and its time.
pub open spec fn prompt_entry(item: Json, index: int, len: int, now: i64) -> Option<(Seq<char>, i64)> {
    let text = str_or_empty(item.get_str("text"@));
    if text.len() > 0 {
        Some((text, prompt_time(item, index, len, now)))
    } else {
        None
    }
}

pub open spec fn collect_prompts(items: Seq<Json>, n: int, now: i64) -> Seq<(Seq<char>, i64)>
    decreases n,
{
    if n <= 0 {
        Seq::empty()
    } else {
        let prev = collect_prompts(items, n - 1, now);
        match prompt_entry(items[n - 1], n - 1, items.len() as int, now) {
            Some(e) => prev.push(e),
            None => prev,
        }
    }
}

/// The user's prompts in an `aiService.prompts` value, in stored order.
pub open spec fn spec_user_prompts(root: Json, now: i64) -> Seq<(Seq<char>, i64)> {
    match root.as_array() {
        Some(a) => collect_prompts(a, a.len() as int, now),
        None => Seq::empty(),
    }
}

/// Whether the stand-in times for the entries of `root` fit in an `i64`.
pub open spec fn json_clock_fits(root: Json, now: i64) -> bool {
    match root.as_array() {
        Some(a) => clock_fits(now, a.len() as int),
        None => true,
    }
}

fn spaced_time_exec(now: i64, len: usize, index: usize) -> (t: i64)
    requires
        clock_fits(now, len as int),
        index < len,
    ensures
        t == spaced_time(now, len as int, index as int),
{
    let base: i128 = (now as i128) - (len as i128) * 60000;
    (base + (index as i128) * 60000) as i64
}

fn prompt_entry_exec(item: &JsonValue, index: usize, len: usize, now: i64) -> (r: Option<(String, i64)>)
    requires
        clock_fits(now, len as int),
        index < len,
    ensures
        match r {
            Some(p) => prompt_entry(item.model(), index as int, len as int, now) == Some((p.0@, p.1)),
            None => prompt_entry(item.model(), index as int, len as int, now) is None,
        },
{
    let text = match item.get_str("text") {
        Some(t) => t,
        None => String::new(),
    };
    if char_count(text.as_str()) == 0 {
        return None;
    }
    let ts = match item.get_i64("timestamp") {
        Some(t) => t,
        None => match item.get_i64("createdAt") {
            Some(t) => t,
            None => match item.get_i64("unixMs") {
                Some(t) => t,
                None => spaced_time_exec(now, len, index),
            },
        },
    };
    Some((text, ts))
}

/// The user's prompts in an `aiService.prompts` value: each entry with a non-empty "text",
/// with its own time or a stand-in spaced a minute apart before `now_ms`.
pub fn user_prompts_from_json(root: &JsonValue, now_ms: i64) -> (r: Vec<(String, i64)>)
    requires
        json_clock_fits(root.model(), now_ms),
    ensures
        pair_views(r@) == spec_user_prompts(root.model(), now_ms),
{
    let mut out: Vec<(String, i64)> = Vec::new();
    match root.as_array() {
        Some(arr) => {
            proof {
                lemma_models(arr@);
            }
            let ghost items = models(arr@);
            let mut i: usize = 0;
            while i < arr.len()
                invariant
                    i <= arr.len(),
                    items == models(arr@),
                    items.len() == arr.len(),
                    forall|k: int| 0 <= k < arr.len() ==> #[trigger] items[k] == arr@[k].model(),
                    clock_fits(now_ms, arr.len() as int),
                    pair_views(out@) == collect_prompts(items, i as int, now_ms),
                decreases arr.len() - i,
            {
                let e = prompt_entry_exec(&arr[i], i, arr.len(), now_ms);
                let ghost before = out@;
                match e {
                    Some(p) => {
                        out.push(p);
                        assert(pair_views(out@) =~= pair_views(before).push((p.0@, p.1)));
                    },
                    None => {},
                }
                i += 1;
            }
        },
        None => {},
    }
    out
}

/// The reply text of a generation: "response", else "content", "generatedText", "output",
/// "textDescription", the first of them that holds a string; empty when none does.
pub open spec fn generation_text(g: Json) -> Seq<char> {
    match g.get_str("response"@) {
        Some(t) => t,
        None => match g.get_str("content"@) {
            Some(t) => t,
            None => match g.get_str("generatedText"@) {
                Some(t) => t,
                None => match g.get_str("output"@) {
                    Some(t) => t,
                    None => str_or_empty(g.get_str("textDescription"@)),
                },
            },
        },
    }
}

/// A generation with a non-empty reply text gives that text and its time: "unixMs", or a
/// stand-in half a minute after the entry's slot in the minute-spaced times before `now`.
pub open spec fn generation_entry(g: Json, index: int, len: int, now: i64) -> Option<(Seq<char>, i64)> {
    let text = generation_text(g);
    if text.len() > 0 {
        let ts: i64 = match g.get_i64("unixMs"@) {
            Some(t) => t,
            None => (spaced_time(now, len, index) + 30000) as i64,
        };
        Some((text, ts))
    } else {
        None
    }
}

pub open spec fn collect_generations(items: Seq<Json>, n: int, now: i64) -> Seq<(Seq<char>, i64)>
    decreases n,
{
    if n <= 0 {
        Seq::empty()
    } else {
        let prev = collect_generations(items, n - 1, now);
        match generation_entry(items[n - 1], n - 1, items.len() as int, now) {
            Some(e) => prev.push(e),
            None => prev,
        }
    }
}

/// The AI replies in an `aiService.generations` value: each entry with a reply text, in stored
/// order.
pub open spec fn spec_ai_generations(root: Json, now: i64) -> Seq<(Seq<char>, i64)> {
    match root.as_array() {
        Some(a) => collect_generations(a, a.len() as int, now),
        None => Seq::empty(),
    }
}

fn first_str_of(g: &JsonValue) -> (r: String)
    ensures
        r@ == generation_text(g.model()),
{
    match g.get_str("response") {
        Some(t) => t,
        None => match g.get_str("content") {
            Some(t) => t,
            None => match g.get_str("generatedText") {
                Some(t) => t,
                None => match g.get_str("output") {
                    Some(t) => t,
                    None => match g.get_str("textDescription") {
                        Some(t) => t,
                        None => String::new(),
                    },
                },
            },
        },
    }
}

fn generation_entry_exec(g: &JsonValue, index: usize, len: usize, now: i64) -> (r: Option<(String, i64)>)
    requires
        clock_fits(now, len as int),
        index < len,
    ensures
        match r {
            Some(p) => generation_entry(g.model(), index as int, len as int, now) == Some((p.0@, p.1)),
            None => generation_entry(g.model(), index as int, len as int, now) is None,
        },
{
    let text = first_str_of(g);
    if char_count(text.as_str()) == 0 {
        return None;
    }
    let ts = match g.get_i64("unixMs") {
        Some(t) => t,
        None => {
            let base = spaced_time_exec(now, len, index);
            base + 30000
        },
    };
    Some((text, ts))
}

/// The AI replies in an `aiService.generations` value: each entry with a reply text, with its
/// own time or a stand-in, in stored order.
pub fn ai_generations_from_json(root: &JsonValue, now_ms: i64) -> (r: Vec<(String, i64)>)
    requires
        json_clock_fits(root.model(), now_ms),
    ensures
        pair_views(r@) == spec_ai_generations(root.model(), now_ms),
{
    let mut out: Vec<(String, i64)> = Vec::new();
    match root.as_array() {
        Some(arr) => {
            proof {
                lemma_models(arr@);
            }
            let ghost items = models(arr@);
            let mut i: usize = 0;
            while i < arr.len()
                invariant
                    i <= arr.len(),
                    items == models(arr@),
                    items.len() == arr.len(),
                    forall|k: int| 0 <= k < arr.len() ==> #[trigger] items[k] == arr@[k].model(),
                    clock_fits(now_ms, arr.len() as int),
                    pair_views(out@) == collect_generations(items, i as int, now_ms),
                decreases arr.len() - i,
            {
                let e = generation_entry_exec(&arr[i], i, arr.len(), now_ms);
                let ghost before = out@;
                match e {
                    Some(p) => {
                        out.push(p);
                        assert(pair_views(out@) =~= pair_views(before).push((p.0@, p.1)));
                    },
                    None => {},
                }
                i += 1;
            }
        },
        None => {},
    }
    out
}


// ---------------------------------------------------------------------------
// Conversations of a workspace (`composer.composerData`, with a fallback)
// ---------------------------------------------------------------------------

/// The text shown while a conversation's messages are not loaded yet.
pub open spec fn pending_text() -> Seq<char> {
    "等待加载内容..."@
}

/// The title of a composer: "title", else "name", "label", "description", else "对话 " and the
/// first eight characters of its id (cut with "...").
pub open spec fn composer_title(c: Json, id: Seq<char>) -> Seq<char> {
    match c.get_str("title"@) {
        Some(t) => t,
        None => match c.get_str("name"@) {
            Some(t) => t,
            None => match c.get_str("label"@) {
                Some(t) => t,
                None => match c.get_str("description"@) {
                    Some(t) => t,
                    None => "对话 "@ + spec_truncate(id, 8),
                },
            },
        },
    }
}

/// What an entry of "allComposers" gives when it is an object.
pub open spec fn composer_entry(c: Json) -> Option<ConversationView> {
    if c.as_object() is Some {
        let id = match c.get_str("composerId"@) {
            Some(t) => t,
            None => "unknown"@,
        };
        let created = match c.get_i64("createdAt"@) {
            Some(t) => t,
            None => 0i64,
        };
        Some(
            ConversationView {
                id: id,
                title: composer_title(c, id),
                last_message: pending_text(),
                created_at: spec_format_timestamp(created),
                message_count: 0,
            },
        )
    } else {
        None
    }
}

pub open spec fn collect_composers(items: Seq<Json>, n: int) -> Seq<ConversationView>
    decreases n,
{
    if n <= 0 {
        Seq::empty()
    } else {
        let prev = collect_composers(items, n - 1);
        match composer_entry(items[n - 1]) {
            Some(e) => prev.push(e),
            None => prev,
        }
    }
}

/// The conversations listed in a `composer.composerData` value.
pub open spec fn spec_composer_conversations(root: Json) -> Seq<ConversationView> {
    match root.get_array("allComposers"@) {
        Some(a) => collect_composers(a, a.len() as int),
        None => Seq::empty(),
    }
}

fn composer_entry_exec(c: &JsonValue) -> (r: Option<ConversationData>)
    ensures
        match r {
            Some(d) => composer_entry(c.model()) == Some(d@),
            None => composer_entry(c.model()) is None,
        },
{
    if c.as_object().is_none() {
        return None;
    }
    let id = match c.get_str("composerId") {
        Some(t) => t,
        None => owned("unknown"),
    };
    let created = match c.get_i64("createdAt") {
        Some(t) => t,
        None => 0,
    };
    let title = match c.get_str("title") {
        Some(t) => t,
        None => match c.get_str("name") {
            Some(t) => t,
            None => match c.get_str("label") {
                Some(t) => t,
                None => match c.get_str("description") {
                    Some(t) => t,
                    None => {
                        let short = safe_truncate_string(id.as_str(), 8);
                        concat("对话 ", short.as_str())
                    },
                },
            },
        },
    };
    Some(
        ConversationData {
            id: id,
            title: title,
            last_message: owned("等待加载内容..."),
            created_at: format_timestamp(created),
            message_count: 0,
        },
    )
}

/// The conversations listed in a `composer.composerData` value: one per object in
/// "allComposers", in stored order.
pub fn composer_conversations(root: &JsonValue) -> (r: Vec<ConversationData>)
    ensures
        conversation_views(r@) == spec_composer_conversations(root.model()),
{
    let mut out: Vec<ConversationData> = Vec::new();
    match root.get_array("allComposers") {
        Some(arr) => {
            proof {
                lemma_models(arr@);
            }
            let ghost items = models(arr@);
            let mut i: usize = 0;
            while i < arr.len()
                invariant
                    i <= arr.len(),
                    items == models(arr@),
                    items.len() == arr.len(),
                    forall|k: int| 0 <= k < arr.len() ==> #[trigger] items[k] == arr@[k].model(),
                    conversation_views(out@) == collect_composers(items, i as int),
                decreases arr.len() - i,
            {
                let e = composer_entry_exec(&arr[i]);
                let ghost before = out@;
                match e {
                    Some(d) => {
                        let ghost dv = d@;
                        out.push(d);
                        assert(conversation_views(out@) =~= conversation_views(before).push(dv));
                    },
                    None => {},
                }
                i += 1;
            }
        },
        None => {},
    }
    out
}

/// The conversation that the side bar state names by its `count`-th "aichat" entry.
pub open spec fn aichat_view(uuid: Seq<char>, count: nat) -> ConversationView {
    ConversationView {
        id: uuid,
        title: "对话 "@ + spec_decimal(count as int),
        last_message: pending_text(),
        created_at: "2025-10-25 20:00:00 UTC"@,
        message_count: 0,
    }
}

/// Walks the first `n` entries of a `workbench.auxiliarybar.viewContainersWorkspaceState`
/// array: each entry whose "id" contains "aichat" is counted, and gives a conversation when the
/// part of the id after its last '.' is 36 bytes long (a UUID).
pub open spec fn aichat_fold(items: Seq<Json>, n: int) -> (Seq<ConversationView>, nat)
    decreases n,
{
    if n <= 0 {
        (Seq::empty(), 0)
    } else {
        let (prev, count) = aichat_fold(items, n - 1);
        match items[n - 1].get_str("id"@) {
            Some(id) => if crate::text::spec_contains(id, "aichat"@) {
                let c = count + 1;
                match crate::text::spec_rfind(id, seq!['.']) {
                    Some(p) => {
                        let uuid = id.subrange(p + 1, id.len() as int);
                        if crate::text::str_len(uuid) == 36 {
                            (prev.push(aichat_view(uuid, c)), c)
                        } else {
                            (prev, c)
                        }
                    },
                    None => (prev, c),
                }
            } else {
                (prev, count)
            },
            None => (prev, count),
        }
    }
}

/// The conversations named by the side bar state, when the composer list is empty.
pub open spec fn spec_aichat_conversations(root: Json) -> Seq<ConversationView> {
    match root.as_array() {
        Some(a) => aichat_fold(a, a.len() as int).0,
        None => Seq::empty(),
    }
}

proof fn lemma_aichat_count_bound(items: Seq<Json>, n: int)
    requires
        0 <= n,
    ensures
        aichat_fold(items, n).1 <= n,
    decreases n,
{
    if n > 0 {
        lemma_aichat_count_bound(items, n - 1);
    }
}

/// The conversations named in a `workbench.auxiliarybar.viewContainersWorkspaceState` value.
pub fn aichat_conversations(root: &JsonValue) -> (r: Vec<ConversationData>)
    ensures
        conversation_views(r@) == spec_aichat_conversations(root.model()),
{
    let mut out: Vec<ConversationData> = Vec::new();
    match root.as_array() {
        Some(arr) => {
            proof {
                lemma_models(arr@);
            }
            let ghost items = models(arr@);
            let mut count: usize = 0;
            let mut i: usize = 0;
            while i < arr.len()
                invariant
                    i <= arr.len(),
                    items == models(arr@),
                    items.len() == arr.len(),
                    forall|k: int| 0 <= k < arr.len() ==> #[trigger] items[k] == arr@[k].model(),
                    conversation_views(out@) == aichat_fold(items, i as int).0,
                    count == aichat_fold(items, i as int).1,
                    count <= i,
                decreases arr.len() - i,
            {
                proof {
                    lemma_aichat_count_bound(items, i as int + 1);
                }
                let ghost before = out@;
                match arr[i].get_str("id") {
                    Some(id) => {
                        if crate::text::contains(id.as_str(), "aichat") {
                            count = count + 1;
                            let v = crate::text::chars_of(id.as_str());
                            let mut dot: Vec<char> = Vec::new();
                            dot.push('.');
                            assert(dot@ =~= seq!['.']);
                            assert(v@ == id@);
                            match crate::text::rfind_chars(&v, &dot) {
                                Some(p) => {
                                    let uuid = crate::text::string_from_chars(&v, p + 1, v.len());
                                    if crate::text::byte_len(uuid.as_str()) == 36 {
                                        let title = concat("对话 ", crate::numbers::usize_text(count).as_str());
                                        let d = ConversationData {
                                            id: uuid,
                                            title: title,
                                            last_message: owned("等待加载内容..."),
                                            created_at: owned("2025-10-25 20:00:00 UTC"),
                                            message_count: 0,
                                        };
                                        let ghost dv = d@;
                                        out.push(d);
                                        assert(conversation_views(out@) =~= conversation_views(before).push(dv));
                                    }
                                },
                                None => {},
                            }
                        }
                    },
                    None => {},
                }
                i += 1;
            }
        },
        None => {},
    }
    out
}

/// A workspace's conversations: those of the composer data, or, when it lists none, those that
/// the side bar state names.
pub open spec fn spec_workspace_conversations(composer: Option<Json>, sidebar: Option<Json>) -> Seq<ConversationView> {
    let first = match composer {
        Some(j) => spec_composer_conversations(j),
        None => Seq::empty(),
    };
    if first.len() > 0 {
        first
    } else {
        match sidebar {
            Some(j) => spec_aichat_conversations(j),
            None => Seq::empty(),
        }
    }
}

/// A workspace's conversations, from the parsed `composer.composerData` value and the parsed
/// side bar state (`None` where the row is missing or is not JSON).
pub fn workspace_conversations(composer: Option<&JsonValue>, sidebar: Option<&JsonValue>) -> (r: Vec<ConversationData>)
    ensures
        conversation_views(r@) == spec_workspace_conversations(
            crate::json::opt_model(composer),
            crate::json::opt_model(sidebar),
        ),
{
    let first = match composer {
        Some(j) => composer_conversations(j),
        None => Vec::new(),
    };
    if first.len() > 0 {
        return first;
    }
    match sidebar {
        Some(j) => aichat_conversations(j),
        None => {
            let out: Vec<ConversationData> = Vec::new();
            assert(conversation_views(out@) =~= Seq::<ConversationView>::empty());
            out
        },
    }
}

// ---------------------------------------------------------------------------
// Generation statistics (`aiService.generations` read as uuid, text, time)
// ---------------------------------------------------------------------------

pub open spec fn triple_views(s: Seq<(String, String, i64)>) -> Seq<(Seq<char>, Seq<char>, i64)> {
    s.map_values(|t: (String, String, i64)| (t.0@, t.1@, t.2))
}

/// A generation with a non-empty "generationUUID" and "textDescription" gives both and its
/// "unixMs" (0 when missing).
pub open spec fn service_entry(g: Json) -> Option<(Seq<char>, Seq<char>, i64)> {
    let uuid = str_or_empty(g.get_str("generationUUID"@));
    let text = str_or_empty(g.get_str("textDescription"@));
    let ts: i64 = match g.get_i64("unixMs"@) {
        Some(t) => t,
        None => 0i64,
    };
    if uuid.len() > 0 && text.len() > 0 {
        Some((uuid, text, ts))
    } else {
        None
    }
}

pub open spec fn collect_service(items: Seq<Json>, n: int) -> Seq<(Seq<char>, Seq<char>, i64)>
    decreases n,
{
    if n <= 0 {
        Seq::empty()
    } else {
        let prev = collect_service(items, n - 1);
        match service_entry(items[n - 1]) {
            Some(e) => prev.push(e),
            None => prev,
        }
    }
}

pub open spec fn spec_ai_service_conversations(root: Json) -> Seq<(Seq<char>, Seq<char>, i64)> {
    match root.as_array() {
        Some(a) => collect_service(a, a.len() as int),
        None => Seq::empty(),
    }
}

/// The generations of an `aiService.generations` value as (uuid, text, time).
pub fn ai_service_conversations(root: &JsonValue) -> (r: Vec<(String, String, i64)>)
    ensures
        triple_views(r@) == spec_ai_service_conversations(root.model()),
{
    let mut out: Vec<(String, String, i64)> = Vec::new();
    match root.as_array() {
        Some(arr) => {
            proof {
                lemma_models(arr@);
            }
            let ghost items = models(arr@);
            let mut i: usize = 0;
            while i < arr.len()
                invariant
                    i <= arr.len(),
                    items == models(arr@),
                    items.len() == arr.len(),
                    forall|k: int| 0 <= k < arr.len() ==> #[trigger] items[k] == arr@[k].model(),
                    triple_views(out@) == collect_service(items, i as int),
                decreases arr.len() - i,
            {
                let g = &arr[i];
                let uuid = match g.get_str("generationUUID") {
                    Some(t) => t,
                    None => String::new(),
                };
                let text = match g.get_str("textDescription") {
                    Some(t) => t,
                    None => String::new(),
                };
                let ts = match g.get_i64("unixMs") {
                    Some(t) => t,
                    None => 0,
                };
                let ghost before = out@;
                if char_count(uuid.as_str()) > 0 && char_count(text.as_str()) > 0 {
                    let ghost e = (uuid@, text@, ts);
                    out.push((uuid, text, ts));
                    assert(triple_views(out@) =~= triple_views(before).push(e));
                }
                i += 1;
            }
        },
        None => {},
    }
    out
}

/// The text and time of the latest of the first `n` generations: an entry replaces the one kept
/// so far only when strictly later; nothing is kept before a positive time is seen.
pub open spec fn latest_fold(s: Seq<(Seq<char>, Seq<char>, i64)>, n: int) -> (Seq<char>, i64)
    decreases n,
{
    if n <= 0 {
        (Seq::empty(), 0i64)
    } else {
        let prev = latest_fold(s, n - 1);
        if s[n - 1].2 > prev.1 {
            (s[n - 1].1, s[n - 1].2)
        } else {
            prev
        }
    }
}

/// The conversations after the generation statistics are applied: every generation is counted
/// for the first conversation, which takes their number and the latest text.
pub open spec fn spec_merge_service(
    convs: Seq<ConversationView>,
    data: Seq<(Seq<char>, Seq<char>, i64)>,
) -> Seq<ConversationView> {
    if convs.len() > 0 && data.len() > 0 {
        convs.update(
            0,
            ConversationView {
                message_count: data.len(),
                last_message: latest_fold(data, data.len() as int).0,
                ..convs[0]
            },
        )
    } else {
        convs
    }
}

/// Applies the generation statistics to the first conversation.
pub fn merge_ai_service_data(conversations: &mut Vec<ConversationData>, ai_data: Vec<(String, String, i64)>)
    ensures
        conversation_views(final(conversations)@) == spec_merge_service(
            conversation_views(old(conversations)@),
            triple_views(ai_data@),
        ),
{
    if conversations.len() == 0 || ai_data.len() == 0 {
        return;
    }
    let ghost data = triple_views(ai_data@);
    let mut latest_text = String::new();
    let mut latest_time: i64 = 0;
    let mut i: usize = 0;
    while i < ai_data.len()
        invariant
            i <= ai_data.len(),
            data == triple_views(ai_data@),
            data.len() == ai_data.len(),
            (latest_text@, latest_time) == latest_fold(data, i as int),
        decreases ai_data.len() - i,
    {
        if ai_data[i].2 > latest_time {
            latest_text = ai_data[i].1.clone();
            latest_time = ai_data[i].2;
        }
        i += 1;
    }
    let ghost old_views = conversation_views(conversations@);
    let mut first = conversations.remove(0);
    first.message_count = ai_data.len();
    first.last_message = latest_text;
    conversations.insert(0, first);
    assert(conversation_views(conversations@) =~= spec_merge_service(old_views, data));
}


// ---------------------------------------------------------------------------
// The messages of a conversation, in time order
// ---------------------------------------------------------------------------

/// A message before its time is rendered: milliseconds, sender, text.
pub struct TimedMessage {
    pub timestamp: i64,
    pub sender: String,
    pub content: String,
}

pub struct TimedMessageView {
    pub timestamp: i64,
    pub sender: Seq<char>,
    pub content: Seq<char>,
}

impl View for TimedMessage {
    type V = TimedMessageView;

    open spec fn view(&self) -> TimedMessageView {
        TimedMessageView { timestamp: self.timestamp, sender: self.sender@, content: self.content@ }
    }
}

pub open spec fn timed_views(s: Seq<TimedMessage>) -> Seq<TimedMessageView> {
    s.map_values(|m: TimedMessage| m@)
}

/// The order of the timeline: by time, earlier first.
pub open spec fn earlier_or_same() -> spec_fn(TimedMessageView, TimedMessageView) -> bool {
    |a: TimedMessageView, b: TimedMessageView| a.timestamp <= b.timestamp
}

/// Texts with times, each sent by `sender`.
pub open spec fn tagged(s: Seq<(Seq<char>, i64)>, sender: Seq<char>) -> Seq<TimedMessageView> {
    s.map_values(|p: (Seq<char>, i64)| TimedMessageView { timestamp: p.1, sender: sender, content: p.0 })
}

/// The user's prompts, then the AI's replies.
pub open spec fn unsorted_timeline(prompts: Seq<(Seq<char>, i64)>, replies: Seq<(Seq<char>, i64)>) -> Seq<TimedMessageView> {
    tagged(prompts, "user"@) + tagged(replies, "assistant"@)
}

/// Prompts and replies merged and stably sorted by time.
pub open spec fn spec_timeline(prompts: Seq<(Seq<char>, i64)>, replies: Seq<(Seq<char>, i64)>) -> Seq<TimedMessageView> {
    crate::sorting::sort_stable(unsorted_timeline(prompts, replies), earlier_or_same())
}

fn insert_by_time(out: &mut Vec<TimedMessage>, x: TimedMessage)
    ensures
        timed_views(final(out)@) == crate::sorting::insert_sorted(
            timed_views(old(out)@),
            x@,
            earlier_or_same(),
        ),
{
    let mut j: usize = out.len();
    while j > 0 && out[j - 1].timestamp > x.timestamp
        invariant
            j <= out.len(),
            forall|k: int| j <= k < out.len() ==> #[trigger] out@[k].timestamp > x.timestamp,
        decreases j,
    {
        j -= 1;
    }
    let ghost s = timed_views(out@);
    let ghost xv = x@;
    proof {
        assert forall|k: int| j <= k < s.len() implies !(earlier_or_same())(#[trigger] s[k], xv) by {
            assert(s[k] == out@[k]@);
        }
        if j > 0 {
            assert(s[j - 1] == out@[j - 1]@);
        }
        crate::sorting::lemma_insert_sorted_at(s, xv, earlier_or_same(), j as int);
    }
    out.insert(j, x);
    assert(timed_views(out@) =~= s.insert(j as int, xv));
}

proof fn lemma_sort_prefix_step<T>(s: Seq<T>, i: int, le: spec_fn(T, T) -> bool)
    requires
        0 <= i < s.len(),
    ensures
        crate::sorting::sort_stable(s.take(i + 1), le) == crate::sorting::insert_sorted(
            crate::sorting::sort_stable(s.take(i), le),
            s[i],
            le,
        ),
{
    assert(s.take(i + 1).drop_last() =~= s.take(i));
}

/// Prompts ("user") and replies ("assistant") merged into one list ordered by time; messages
/// with the same time keep their order, prompts before replies.
pub fn timeline(prompts: &Vec<(String, i64)>, replies: &Vec<(String, i64)>) -> (r: Vec<TimedMessage>)
    ensures
        timed_views(r@) == spec_timeline(pair_views(prompts@), pair_views(replies@)),
{
    let ghost all = unsorted_timeline(pair_views(prompts@), pair_views(replies@));
    let ghost np = prompts.len() as int;
    let mut out: Vec<TimedMessage> = Vec::new();
    let mut i: usize = 0;
    assert(all.take(0) =~= Seq::<TimedMessageView>::empty());
    while i < prompts.len()
        invariant
            i <= prompts.len(),
            np == prompts.len(),
            all == unsorted_timeline(pair_views(prompts@), pair_views(replies@)),
            all.len() == prompts.len() + replies.len(),
            timed_views(out@) == crate::sorting::sort_stable(all.take(i as int), earlier_or_same()),
        decreases prompts.len() - i,
    {
        let m = TimedMessage { timestamp: prompts[i].1, sender: owned("user"), content: prompts[i].0.clone() };
        proof {
            assert(all[i as int] == m@);
            lemma_sort_prefix_step(all, i as int, earlier_or_same());
        }
        insert_by_time(&mut out, m);
        i += 1;
    }
    let mut j: usize = 0;
    while j < replies.len()
        invariant
            j <= replies.len(),
            np == prompts.len(),
            all == unsorted_timeline(pair_views(prompts@), pair_views(replies@)),
            all.len() == prompts.len() + replies.len(),
            timed_views(out@) == crate::sorting::sort_stable(all.take(np + j), earlier_or_same()),
        decreases replies.len() - j,
    {
        let m = TimedMessage { timestamp: replies[j].1, sender: owned("assistant"), content: replies[j].0.clone() };
        proof {
            assert(all[np + j] == m@);
            lemma_sort_prefix_step(all, np + j, earlier_or_same());
        }
        insert_by_time(&mut out, m);
        j += 1;
    }
    assert(all.take(all.len() as int) =~= all);
    out
}

/// The timeline is ordered by time.
pub proof fn lemma_timeline_ordered(prompts: Seq<(Seq<char>, i64)>, replies: Seq<(Seq<char>, i64)>)
    ensures
        forall|i: int, j: int|
            0 <= i < j < spec_timeline(prompts, replies).len() ==> spec_timeline(prompts, replies)[i].timestamp
                <= spec_timeline(prompts, replies)[j].timestamp,
{
    let le = earlier_or_same();
    assert(crate::sorting::total_preorder(le));
    crate::sorting::lemma_sort_stable_sorted(unsorted_timeline(prompts, replies), le);
    let t = spec_timeline(prompts, replies);
    assert forall|i: int, j: int| 0 <= i < j < t.len() implies t[i].timestamp <= t[j].timestamp by {
        assert(le(t[i], t[j]));
    }
}

/// The timeline holds every prompt and every reply, each once, and nothing else.
pub proof fn lemma_timeline_complete(prompts: Seq<(Seq<char>, i64)>, replies: Seq<(Seq<char>, i64)>)
    ensures
        spec_timeline(prompts, replies).to_multiset() == (tagged(prompts, "user"@) + tagged(
            replies,
            "assistant"@,
        )).to_multiset(),
        spec_timeline(prompts, replies).len() == prompts.len() + replies.len(),
{
    crate::sorting::lemma_sort_stable_permutation(unsorted_timeline(prompts, replies), earlier_or_same());
}

/// The timeline as shown: each time rendered by `format_timestamp`.
pub open spec fn spec_chat_messages(prompts: Seq<(Seq<char>, i64)>, replies: Seq<(Seq<char>, i64)>) -> Seq<ChatMessageView> {
    spec_timeline(prompts, replies).map_values(|t: TimedMessageView| shown(t))
}

/// A timeline entry as shown: its time rendered by `format_timestamp`.
pub open spec fn shown(t: TimedMessageView) -> ChatMessageView {
    ChatMessageView { timestamp: spec_format_timestamp(t.timestamp), sender: t.sender, content: t.content }
}

/// The chat messages of a workspace, from its prompts and replies.
pub fn chat_messages(prompts: &Vec<(String, i64)>, replies: &Vec<(String, i64)>) -> (r: Vec<ChatMessage>)
    ensures
        message_views(r@) == spec_chat_messages(pair_views(prompts@), pair_views(replies@)),
{
    let t = timeline(prompts, replies);
    let ghost tv = timed_views(t@);
    let mut out: Vec<ChatMessage> = Vec::new();
    let mut i: usize = 0;
    while i < t.len()
        invariant
            i <= t.len(),
            tv == timed_views(t@),
            out.len() == i,
            forall|k: int| 0 <= k < i ==> #[trigger] out@[k]@ == shown(tv[k]),
        decreases t.len() - i,
    {
        let m = ChatMessage {
            timestamp: format_timestamp(t[i].timestamp),
            sender: t[i].sender.clone(),
            content: t[i].content.clone(),
        };
        out.push(m);
        i += 1;
    }
    assert(message_views(out@) =~= tv.map_values(|x: TimedMessageView| shown(x)));
    out
}

/// The index of the first sender that is "user", from `k` on.
pub open spec fn first_user_from(senders: Seq<Seq<char>>, k: int) -> Option<int>
    decreases senders.len() - k,
{
    if k < 0 || k >= senders.len() {
        None
    } else if senders[k] == "user"@ {
        Some(k)
    } else {
        first_user_from(senders, k + 1)
    }
}

/// The title of a conversation: its first user message cut to `max` characters, else "新对话".
pub open spec fn title_from(senders: Seq<Seq<char>>, contents: Seq<Seq<char>>, max: nat) -> Seq<char> {
    match first_user_from(senders, 0) {
        Some(i) => spec_truncate(contents[i], max),
        None => "新对话"@,
    }
}

proof fn lemma_first_user_from(senders: Seq<Seq<char>>, k: int)
    requires
        0 <= k,
    ensures
        first_user_from(senders, k) matches Some(i) ==> k <= i < senders.len() && senders[i] == "user"@,
        first_user_from(senders, k) is None ==> forall|j: int| k <= j < senders.len() ==> senders[j] != "user"@,
        first_user_from(senders, k) matches Some(i) ==> forall|j: int| k <= j < i ==> senders[j] != "user"@,
    decreases senders.len() - k,
{
    if k < senders.len() && senders[k] != "user"@ {
        lemma_first_user_from(senders, k + 1);
    }
}

/// The single conversation built from all prompts and replies of a workspace: titled by the first
/// prompt, previewed by the last message, dated by the first; none when there are no messages.
pub open spec fn spec_service_conversation(prompts: Seq<(Seq<char>, i64)>, replies: Seq<(Seq<char>, i64)>) -> Seq<ConversationView> {
    let all = spec_timeline(prompts, replies);
    if all.len() == 0 {
        Seq::empty()
    } else {
        seq![
            ConversationView {
                id: "conversation_1"@,
                title: title_from(
                    all.map_values(|m: TimedMessageView| m.sender),
                    all.map_values(|m: TimedMessageView| m.content),
                    30,
                ),
                last_message: spec_truncate(all.last().content, 50),
                created_at: spec_format_timestamp(all[0].timestamp),
                message_count: all.len(),
            },
        ]
    }
}

/// The conversation that the prompts and replies of a workspace make up.
pub fn build_conversations_from_ai_service(prompts: &Vec<(String, i64)>, replies: &Vec<(String, i64)>) -> (r: Vec<ConversationData>)
    ensures
        conversation_views(r@) == spec_service_conversation(pair_views(prompts@), pair_views(replies@)),
{
    let all = timeline(prompts, replies);
    let mut out: Vec<ConversationData> = Vec::new();
    if all.len() == 0 {
        assert(conversation_views(out@) =~= Seq::<ConversationView>::empty());
        return out;
    }
    let ghost av = timed_views(all@);
    let ghost senders = av.map_values(|m: TimedMessageView| m.sender);
    let ghost contents = av.map_values(|m: TimedMessageView| m.content);
    let mut k: usize = 0;
    while k < all.len() && !crate::text::str_eq(all[k].sender.as_str(), "user")
        invariant
            k <= all.len(),
            av == timed_views(all@),
            senders == av.map_values(|m: TimedMessageView| m.sender),
            first_user_from(senders, 0) == first_user_from(senders, k as int),
        decreases all.len() - k,
    {
        k += 1;
    }
    let title = if k < all.len() {
        safe_truncate_string(all[k].content.as_str(), 30)
    } else {
        owned("新对话")
    };
    let last = all.len() - 1;
    let d = ConversationData {
        id: owned("conversation_1"),
        title: title,
        last_message: safe_truncate_string(all[last].content.as_str(), 50),
        created_at: format_timestamp(all[0].timestamp),
        message_count: all.len(),
    };
    let ghost dv = d@;
    out.push(d);
    assert(conversation_views(out@) =~= seq![dv]);
    out
}

/// The details of conversation `conversation_id` from its messages; `Err("未找到聊天消息")` when
/// there are none.
pub fn conversation_detail(conversation_id: String, messages: Vec<ChatMessage>) -> (r: Result<ConversationDetail, String>)
    ensures
        messages.len() == 0 <==> r is Err,
        r matches Err(e) ==> e@ == "未找到聊天消息"@,
        r matches Ok(d) ==> {
            &&& d.id@ == conversation_id@
            &&& message_views(d.messages@) == message_views(messages@)
            &&& d.message_count == messages.len()
            &&& d.created_at@ == messages@[0].timestamp@
            &&& d.title@ == title_from(
                message_views(messages@).map_values(|m: ChatMessageView| m.sender),
                message_views(messages@).map_values(|m: ChatMessageView| m.content),
                30,
            )
        },
{
    if messages.len() == 0 {
        return Err(owned("未找到聊天消息"));
    }
    let ghost mv = message_views(messages@);
    let ghost senders = mv.map_values(|m: ChatMessageView| m.sender);
    let mut k: usize = 0;
    while k < messages.len() && !crate::text::str_eq(messages[k].sender.as_str(), "user")
        invariant
            k <= messages.len(),
            mv == message_views(messages@),
            senders == mv.map_values(|m: ChatMessageView| m.sender),
            first_user_from(senders, 0) == first_user_from(senders, k as int),
        decreases messages.len() - k,
    {
        k += 1;
    }
    let title = if k < messages.len() {
        safe_truncate_string(messages[k].content.as_str(), 30)
    } else {
        owned("新对话")
    };
    let created_at = messages[0].timestamp.clone();
    let count = messages.len();
    Ok(ConversationDetail { id: conversation_id, title: title, created_at: created_at, message_count: count, messages: messages })
}

} // verus!
