//! Registering several accounts in one go: which bank card each registration uses, which
//! mailbox provider serves it, and the tally of results that the front end is shown.
use vstd::prelude::*;
use crate::json::{Json, JsonValue, empty_object, opt_str_view, spec_json_u64};
use crate::text::{owned, concat, concat3, str_eq, trim, char_count, spec_trim};
use crate::numbers::{usize_text, spec_decimal};
use crate::registration::card_list;

verus! {

// ---------------------------------------------------------------------------
// Providers
// ---------------------------------------------------------------------------

/// Where the verification mail of a registration is read.
#[derive(PartialEq, Eq, Structural, Clone, Copy)]
pub enum MailProvider {
    CloudflareTemp,
    Tempmail,
    Outlook,
    SelfHosted,
    Custom,
}

pub open spec fn spec_provider(email_type: Option<Seq<char>>) -> MailProvider {
    match email_type {
        Some(t) => if t == "cloudflare_temp"@ {
            MailProvider::CloudflareTemp
        } else if t == "tempmail"@ {
            MailProvider::Tempmail
        } else if t == "outlook"@ {
            MailProvider::Outlook
        } else if t == "self_hosted"@ {
            MailProvider::SelfHosted
        } else {
            MailProvider::Custom
        },
        None => MailProvider::Custom,
    }
}

/// The provider an email type names; any other type (and none) means the address given.
pub fn mail_provider(email_type: Option<&str>) -> (r: MailProvider)
    ensures
        r == spec_provider(match email_type {
            Some(t) => Some(t@),
            None => None,
        }),
{
    match email_type {
        Some(t) => if str_eq(t, "cloudflare_temp") {
            MailProvider::CloudflareTemp
        } else if str_eq(t, "tempmail") {
            MailProvider::Tempmail
        } else if str_eq(t, "outlook") {
            MailProvider::Outlook
        } else if str_eq(t, "self_hosted") {
            MailProvider::SelfHosted
        } else {
            MailProvider::Custom
        },
        None => MailProvider::Custom,
    }
}

/// The settings a batch passes to each self-hosted-mailbox registration: URL, headers and the
/// response path ("results[0].raw" when blank); an error when the URL or the headers are blank.
pub fn self_hosted_batch_settings(url: Option<String>, headers: Option<String>, path: Option<String>) -> (r: Result<(String, String, String), String>)
    ensures
        ({
            let u = match url {
                Some(x) => x@,
                None => Seq::empty(),
            };
            let h = match headers {
                Some(x) => x@,
                None => Seq::empty(),
            };
            let p = match path {
                Some(x) => if spec_trim(x@).len() > 0 {
                    x@
                } else {
                    "results[0].raw"@
                },
                None => "results[0].raw"@,
            };
            match r {
                Ok(s) => spec_trim(u).len() > 0 && spec_trim(h).len() > 0 && s.0@ == u && s.1@ == h && s.2@ == p,
                Err(e) => (spec_trim(u).len() == 0 || spec_trim(h).len() == 0) && e@
                    == "自建邮箱模式需配置 API 请求 URL 与 Headers（JSON 对象）"@,
            }
        }),
{
    let u = match url {
        Some(x) => x,
        None => String::new(),
    };
    let h = match headers {
        Some(x) => x,
        None => String::new(),
    };
    let p = match path {
        Some(x) => if char_count(trim(x.as_str()).as_str()) > 0 {
            x
        } else {
            owned("results[0].raw")
        },
        None => owned("results[0].raw"),
    };
    if char_count(trim(u.as_str()).as_str()) == 0 || char_count(trim(h.as_str()).as_str()) == 0 {
        return Err(owned("自建邮箱模式需配置 API 请求 URL 与 Headers（JSON 对象）"));
    }
    Ok((u, h, p))
}

/// The address shown for a registration: the one given, or "自动生成" when the provider makes one.
pub fn email_display(email: &str) -> (r: String)
    ensures
        r@ == (if email@.len() == 0 {
            "自动生成"@
        } else {
            email@
        }),
{
    if char_count(email) == 0 {
        owned("自动生成")
    } else {
        owned(email)
    }
}

/// The pause between two registrations of a serial batch: 10 seconds unless given, at most 600.
pub fn batch_delay_seconds(v: Option<u64>) -> (r: u64)
    ensures
        r == (match v {
            Some(s) => if s < 600 {
                s
            } else {
                600
            },
            None => 10,
        }),
{
    match v {
        Some(s) => if s < 600 {
            s
        } else {
            600
        },
        None => 10,
    }
}

// ---------------------------------------------------------------------------
// Bank cards of a batch
// ---------------------------------------------------------------------------

/// The first selected index from `k` on that is not below `count`.
pub open spec fn first_out_of_range(ix: Seq<u32>, count: nat, k: int) -> Option<u32>
    decreases ix.len() - k,
{
    if k < 0 || k >= ix.len() {
        None
    } else if ix[k] >= count {
        Some(ix[k])
    } else {
        first_out_of_range(ix, count, k + 1)
    }
}

/// The number of cards a batch may use: the selected ones (each must exist) or all of them.
pub open spec fn spec_card_count(cards: Json, selected: Option<Seq<u32>>) -> Result<nat, Seq<char>> {
    let all = card_list(cards).len();
    match selected {
        Some(ix) => match first_out_of_range(ix, all, 0) {
            Some(bad) => Err(
                "银行卡索引 "@ + spec_decimal(bad as int) + " 超出范围（总共 "@ + spec_decimal(all as int) + " 张卡）"@,
            ),
            None => Ok(ix.len()),
        },
        None => Ok(all),
    }
}

/// The card of registration `i`: the `i`-th selected card (or card `i` when none were
/// selected) while cards are bound and there are enough; none otherwise.
pub open spec fn task_card(i: int, count: nat, selected: Option<Seq<u32>>, bind: bool) -> Option<u32> {
    if bind && i < count {
        match selected {
            Some(ix) => Some(ix[i]),
            None => Some((i % 4294967296) as u32),
        }
    } else {
        None
    }
}

/// The card of each registration of a batch of `n`, or why the batch cannot start.
pub open spec fn spec_batch_cards(
    n: nat,
    n_first: nat,
    n_last: nat,
    cards: Json,
    selected: Option<Seq<u32>>,
    binding: Option<bool>,
) -> Result<Seq<Option<u32>>, Seq<char>> {
    let bind = match binding {
        Some(b) => b,
        None => true,
    };
    if n != n_first || n != n_last {
        Err("邮箱、姓名数量不一致"@)
    } else {
        match spec_card_count(cards, selected) {
            Err(e) => Err(e),
            Ok(c) => if bind && c < n {
                Err(
                    "选中的银行卡数量("@ + spec_decimal(c as int) + ")少于注册账户数量("@ + spec_decimal(n as int)
                        + ")，请选择足够的银行卡"@,
                )
            } else {
                Ok(Seq::new(n, |i: int| task_card(i, c, selected, bind)))
            },
        }
    }
}

pub open spec fn opt_u32s(v: Option<Vec<u32>>) -> Option<Seq<u32>> {
    match v {
        Some(x) => Some(x@),
        None => None,
    }
}

/// The card each registration of a batch uses (`None`: no card), after the checks a batch makes
/// before it starts.
pub fn batch_card_indices(
    n_emails: usize,
    n_first: usize,
    n_last: usize,
    cards: &JsonValue,
    selected: &Option<Vec<u32>>,
    binding: Option<bool>,
) -> (r: Result<Vec<Option<u32>>, String>)
    ensures
        match r {
            Ok(v) => spec_batch_cards(n_emails as nat, n_first as nat, n_last as nat, cards.model(), opt_u32s(*selected), binding)
                == Ok::<Seq<Option<u32>>, Seq<char>>(v@),
            Err(e) => spec_batch_cards(n_emails as nat, n_first as nat, n_last as nat, cards.model(), opt_u32s(*selected), binding)
                == Err::<Seq<Option<u32>>, Seq<char>>(e@),
        },
{
    let bind = match binding {
        Some(b) => b,
        None => true,
    };
    if n_emails != n_first || n_emails != n_last {
        return Err(owned("邮箱、姓名数量不一致"));
    }
    let all: usize = match cards.get_array("cards") {
        Some(a) => {
            proof {
                crate::json::lemma_models(a@);
            }
            a.len()
        },
        None => 1,
    };
    assert(all == card_list(cards.model()).len());
    let count: usize = match selected {
        Some(ix) => {
            let mut k: usize = 0;
            while k < ix.len()
                invariant
                    k <= ix.len(),
                    n_emails == n_first && n_emails == n_last,
                    all as nat == card_list(cards.model()).len(),
                    opt_u32s(*selected) == Some(ix@),
                    first_out_of_range(ix@, all as nat, 0) == first_out_of_range(ix@, all as nat, k as int),
                decreases ix.len() - k,
            {
                if ix[k] as usize >= all {
                    let a = concat("银行卡索引 ", crate::numbers::u64_text(ix[k] as u64).as_str());
                    let b = concat3(a.as_str(), " 超出范围（总共 ", usize_text(all).as_str());
                    return Err(concat(b.as_str(), " 张卡）"));
                }
                k += 1;
            }
            ix.len()
        },
        None => all,
    };
    if bind && count < n_emails {
        let a = concat("选中的银行卡数量(", usize_text(count).as_str());
        let b = concat3(a.as_str(), ")少于注册账户数量(", usize_text(n_emails).as_str());
        return Err(concat(b.as_str(), ")，请选择足够的银行卡"));
    }
    let ghost sel = opt_u32s(*selected);
    let mut out: Vec<Option<u32>> = Vec::new();
    let mut i: usize = 0;
    while i < n_emails
        invariant
            i <= n_emails,
            out.len() == i,
            sel == opt_u32s(*selected),
            count as nat == match sel {
                Some(ix) => ix.len(),
                None => all as nat,
            },
            forall|j: int| 0 <= j < i ==> #[trigger] out@[j] == task_card(j, count as nat, sel, bind),
        decreases n_emails - i,
    {
        let c: Option<u32> = if bind && i < count {
            match selected {
                Some(ix) => Some(ix[i]),
                None => {
                    let t: u32 = ((i as u64) % 4294967296u64) as u32;
                    Some(t)
                },
            }
        } else {
            None
        };
        out.push(c);
        i += 1;
    }
    assert(out@ =~= Seq::new(n_emails as nat, |j: int| task_card(j, count as nat, sel, bind)));
    Ok(out)
}

// ---------------------------------------------------------------------------
// Results of a batch
// ---------------------------------------------------------------------------

/// The address a registration ended up with: the result's "accountInfo"."email", else the one
/// it was started with.
pub open spec fn spec_actual_email(result: Json, email: Seq<char>) -> Seq<char> {
    match result.get("accountInfo"@) {
        Some(info) => match info.get_str("email"@) {
            Some(e) => e,
            None => email,
        },
        None => email,
    }
}

pub fn actual_email(result: &JsonValue, email: &str) -> (r: String)
    ensures
        r@ == spec_actual_email(result.model(), email@),
{
    match result.get("accountInfo") {
        Some(info) => match info.get_str("email") {
            Some(e) => e,
            None => owned(email),
        },
        None => owned(email),
    }
}

/// The record of a successful registration in a batch.
pub open spec fn spec_success_record(index: u64, email: Seq<char>, result: Json) -> Json {
    empty_object().insert("index"@, spec_json_u64(index)).insert("email"@, Json::Str(email)).insert(
        "success"@,
        Json::Bool(true),
    ).insert("result"@, result)
}

/// The record of a failed registration in a batch.
pub open spec fn spec_failure_record(index: u64, email: Seq<char>, error: Seq<char>) -> Json {
    empty_object().insert("index"@, spec_json_u64(index)).insert("email"@, Json::Str(email)).insert(
        "success"@,
        Json::Bool(false),
    ).insert("error"@, Json::Str(error))
}

/// The record of a registration task that crashed.
pub open spec fn spec_crash_record(message: Seq<char>) -> Json {
    empty_object().insert("success"@, Json::Bool(false)).insert("error"@, Json::Str("任务执行失败: "@ + message))
}

/// What the front end is told after each registration of a batch.
pub struct BatchProgress {
    pub index: usize,
    pub email: String,
    pub success: bool,
    pub error: Option<String>,
    pub completed: usize,
    pub total: usize,
    pub succeeded: usize,
    pub failed: usize,
}

/// The results of a batch so far.
pub struct BatchRun {
    total: usize,
    results: Vec<JsonValue>,
    errors: Vec<JsonValue>,
}

pub struct BatchRunView {
    pub total: nat,
    pub results: Seq<Json>,
    pub errors: Seq<Json>,
}

impl View for BatchRun {
    type V = BatchRunView;

    closed spec fn view(&self) -> BatchRunView {
        BatchRunView {
            total: self.total as nat,
            results: crate::json::models(self.results@),
            errors: crate::json::models(self.errors@),
        }
    }
}

/// The summary of a batch: every result and every error, with their numbers.
pub open spec fn spec_batch_summary(run: BatchRunView) -> Json {
    empty_object().insert("success"@, Json::Bool(true)).insert("total"@, spec_json_u64(run.total as u64)).insert(
        "succeeded"@,
        spec_json_u64(run.results.len() as u64),
    ).insert("failed"@, spec_json_u64(run.errors.len() as u64)).insert("results"@, Json::Array(run.results)).insert(
        "errors"@,
        Json::Array(run.errors),
    )
}

impl BatchRun {
    /// A batch of `total` registrations, none done yet.
    pub fn new(total: usize) -> (r: BatchRun)
        ensures
            r@ == (BatchRunView { total: total as nat, results: Seq::empty(), errors: Seq::empty() }),
    {
        let r = BatchRun { total: total, results: Vec::new(), errors: Vec::new() };
        assert(crate::json::models(r.results@) =~= Seq::<Json>::empty());
        assert(crate::json::models(r.errors@) =~= Seq::<Json>::empty());
        r
    }

    /// Records the outcome of registration `index` started with `email`, and gives what the
    /// front end is told.
    pub fn record(&mut self, index: usize, email: &str, outcome: Result<JsonValue, String>) -> (p: BatchProgress)
        requires
            old(self)@.results.len() + old(self)@.errors.len() + 1 <= usize::MAX,
        ensures
            final(self)@.total == old(self)@.total,
            match outcome {
                Ok(res) => {
                    let actual = spec_actual_email(res.model(), email@);
                    &&& final(self)@.results == old(self)@.results.push(spec_success_record(index as u64, actual, res.model()))
                    &&& final(self)@.errors == old(self)@.errors
                    &&& p.success && p.error is None && p.email@ == actual
                },
                Err(e) => {
                    &&& final(self)@.errors == old(self)@.errors.push(spec_failure_record(index as u64, email@, e@))
                    &&& final(self)@.results == old(self)@.results
                    &&& !p.success && opt_str_view(p.error) == Some(e@) && p.email@ == email@
                },
            },
            p.index == index,
            p.total == old(self)@.total,
            p.succeeded == final(self)@.results.len(),
            p.failed == final(self)@.errors.len(),
            p.completed == final(self)@.results.len() + final(self)@.errors.len(),
    {
        proof {
            crate::json::lemma_models(self.results@);
            crate::json::lemma_models(self.errors@);
        }
        let ghost old_results = self.results@;
        let ghost old_errors = self.errors@;
        match outcome {
            Ok(res) => {
                let actual = actual_email(&res, email);
                let mut rec = JsonValue::new_object();
                rec.insert(owned("index"), JsonValue::from_u64(index as u64));
                rec.insert(owned("email"), JsonValue::Str(actual.clone()));
                rec.insert(owned("success"), JsonValue::Bool(true));
                rec.insert(owned("result"), res);
                self.results.push(rec);
                proof {
                    crate::json::lemma_models_push(old_results, self.results@.last());
                    assert(self.results@ == old_results.push(self.results@.last()));
                    crate::json::lemma_models(self.results@);
                }
                BatchProgress {
                    index: index,
                    email: actual,
                    success: true,
                    error: None,
                    completed: self.results.len() + self.errors.len(),
                    total: self.total,
                    succeeded: self.results.len(),
                    failed: self.errors.len(),
                }
            },
            Err(e) => {
                let mut rec = JsonValue::new_object();
                rec.insert(owned("index"), JsonValue::from_u64(index as u64));
                rec.insert(owned("email"), JsonValue::Str(owned(email)));
                rec.insert(owned("success"), JsonValue::Bool(false));
                rec.insert(owned("error"), JsonValue::Str(e.clone()));
                self.errors.push(rec);
                proof {
                    crate::json::lemma_models_push(old_errors, self.errors@.last());
                    assert(self.errors@ == old_errors.push(self.errors@.last()));
                    crate::json::lemma_models(self.errors@);
                }
                BatchProgress {
                    index: index,
                    email: owned(email),
                    success: false,
                    error: Some(e),
                    completed: self.results.len() + self.errors.len(),
                    total: self.total,
                    succeeded: self.results.len(),
                    failed: self.errors.len(),
                }
            },
        }
    }

    /// Records a registration task that crashed with `message`; its index is its place among
    /// the finished tasks.
    pub fn record_crash(&mut self, message: &str) -> (p: BatchProgress)
        requires
            old(self)@.results.len() + old(self)@.errors.len() + 1 <= usize::MAX,
        ensures
            final(self)@.total == old(self)@.total,
            final(self)@.results == old(self)@.results,
            final(self)@.errors == old(self)@.errors.push(spec_crash_record(message@)),
            !p.success,
            p.email@ == Seq::<char>::empty(),
            opt_str_view(p.error) == Some("任务执行失败: "@ + message@),
            p.index + 1 == p.completed,
            p.total == old(self)@.total,
            p.succeeded == final(self)@.results.len(),
            p.failed == final(self)@.errors.len(),
            p.completed == final(self)@.results.len() + final(self)@.errors.len(),
    {
        proof {
            crate::json::lemma_models(self.results@);
            crate::json::lemma_models(self.errors@);
        }
        let ghost old_errors = self.errors@;
        let text = concat("任务执行失败: ", message);
        let mut rec = JsonValue::new_object();
        rec.insert(owned("success"), JsonValue::Bool(false));
        rec.insert(owned("error"), JsonValue::Str(text.clone()));
        self.errors.push(rec);
        proof {
            crate::json::lemma_models_push(old_errors, self.errors@.last());
            assert(self.errors@ == old_errors.push(self.errors@.last()));
            crate::json::lemma_models(self.errors@);
        }
        let completed = self.results.len() + self.errors.len();
        BatchProgress {
            index: completed - 1,
            email: String::new(),
            success: false,
            error: Some(text),
            completed: completed,
            total: self.total,
            succeeded: self.results.len(),
            failed: self.errors.len(),
        }
    }

    /// The summary of the batch.
    pub fn summary(&self) -> (r: JsonValue)
        ensures
            r.model() == spec_batch_summary(self@),
    {
        proof {
            crate::json::lemma_models(self.results@);
            crate::json::lemma_models(self.errors@);
        }
        let mut results: Vec<JsonValue> = Vec::new();
        let mut i: usize = 0;
        while i < self.results.len()
            invariant
                i <= self.results.len(),
                crate::json::models(results@) == crate::json::models(self.results@).take(i as int),
            decreases self.results.len() - i,
        {
            let ghost before = results@;
            results.push(self.results[i].deep_clone());
            proof {
                crate::json::lemma_models_push(before, results@.last());
                assert(results@ == before.push(results@.last()));
                crate::json::lemma_models(self.results@);
            }
            assert(crate::json::models(results@) =~= crate::json::models(self.results@).take(i as int + 1));
            i += 1;
        }
        let mut errors: Vec<JsonValue> = Vec::new();
        let mut j: usize = 0;
        while j < self.errors.len()
            invariant
                j <= self.errors.len(),
                crate::json::models(errors@) == crate::json::models(self.errors@).take(j as int),
            decreases self.errors.len() - j,
        {
            let ghost before = errors@;
            errors.push(self.errors[j].deep_clone());
            proof {
                crate::json::lemma_models_push(before, errors@.last());
                assert(errors@ == before.push(errors@.last()));
                crate::json::lemma_models(self.errors@);
            }
            assert(crate::json::models(errors@) =~= crate::json::models(self.errors@).take(j as int + 1));
            j += 1;
        }
        assert(crate::json::models(self.results@).take(self.results.len() as int) =~= crate::json::models(self.results@));
        assert(crate::json::models(self.errors@).take(self.errors.len() as int) =~= crate::json::models(self.errors@));
        let mut r = JsonValue::new_object();
        r.insert(owned("success"), JsonValue::Bool(true));
        r.insert(owned("total"), JsonValue::from_u64(self.total as u64));
        r.insert(owned("succeeded"), JsonValue::from_u64(self.results.len() as u64));
        r.insert(owned("failed"), JsonValue::from_u64(self.errors.len() as u64));
        r.insert(owned("results"), JsonValue::Array(results));
        r.insert(owned("errors"), JsonValue::Array(errors));
        r
    }
}

/// Every registration recorded is counted once: as a success or as a failure.
pub proof fn lemma_batch_counts(run: BatchRunView, index: u64, email: Seq<char>, result: Json, error: Seq<char>)
    ensures
        ({
            let after_ok = BatchRunView { results: run.results.push(spec_success_record(index, email, result)), ..run };
            let after_err = BatchRunView { errors: run.errors.push(spec_failure_record(index, email, error)), ..run };
            &&& after_ok.results.len() + after_ok.errors.len() == run.results.len() + run.errors.len() + 1
            &&& after_err.results.len() + after_err.errors.len() == run.results.len() + run.errors.len() + 1
            &&& spec_batch_summary(after_ok).get("succeeded"@) == Some(spec_json_u64((run.results.len() + 1) as u64))
            &&& spec_batch_summary(after_err).get("failed"@) == Some(spec_json_u64((run.errors.len() + 1) as u64))
        }),
{
    let a = BatchRunView { results: run.results.push(spec_success_record(index, email, result)), ..run };
    let b = BatchRunView { errors: run.errors.push(spec_failure_record(index, email, error)), ..run };
    summary_lookups(a);
    summary_lookups(b);
}

proof fn summary_lookups(run: BatchRunView)
    ensures
        spec_batch_summary(run).get("succeeded"@) == Some(spec_json_u64(run.results.len() as u64)),
        spec_batch_summary(run).get("failed"@) == Some(spec_json_u64(run.errors.len() as u64)),
{
    reveal_strlit("success");
    reveal_strlit("total");
    reveal_strlit("succeeded");
    reveal_strlit("failed");
    reveal_strlit("results");
    reveal_strlit("errors");
    let e = empty_object();
    let d1 = e.insert("success"@, Json::Bool(true));
    let d2 = d1.insert("total"@, spec_json_u64(run.total as u64));
    let d3 = d2.insert("succeeded"@, spec_json_u64(run.results.len() as u64));
    let d4 = d3.insert("failed"@, spec_json_u64(run.errors.len() as u64));
    let d5 = d4.insert("results"@, Json::Array(run.results));
    assert("succeeded"@ != "success"@ && "succeeded"@ != "total"@) by {
        assert("succeeded"@.len() != "success"@.len());
        assert("succeeded"@.len() != "total"@.len());
    }
    assert("failed"@ != "success"@ && "failed"@ != "total"@ && "failed"@ != "succeeded"@) by {
        assert("failed"@.len() != "success"@.len());
        assert("failed"@[0] != "total"@[0]);
        assert("failed"@.len() != "succeeded"@.len());
    }
    assert("results"@ != "succeeded"@ && "results"@ != "failed"@) by {
        assert("results"@.len() != "succeeded"@.len());
        assert("results"@.len() != "failed"@.len());
    }
    assert("errors"@ != "succeeded"@ && "errors"@ != "failed"@) by {
        assert("errors"@.len() != "succeeded"@.len());
        assert("errors"@[0] != "failed"@[0]);
    }
    crate::storage::lemma_insert_get_same(d2, "succeeded"@, spec_json_u64(run.results.len() as u64));
    crate::storage::lemma_insert_get_other(d3, "failed"@, spec_json_u64(run.errors.len() as u64), "succeeded"@);
    crate::storage::lemma_insert_get_other(d4, "results"@, Json::Array(run.results), "succeeded"@);
    crate::storage::lemma_insert_get_other(d5, "errors"@, Json::Array(run.errors), "succeeded"@);
    crate::storage::lemma_insert_get_same(d3, "failed"@, spec_json_u64(run.errors.len() as u64));
    crate::storage::lemma_insert_get_other(d4, "results"@, Json::Array(run.results), "failed"@);
    crate::storage::lemma_insert_get_other(d5, "errors"@, Json::Array(run.errors), "failed"@);
    assert(d2 is Object);
    assert(d3 is Object);
}

} // verus!
