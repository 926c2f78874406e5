//! The login data in Cursor's `storage.json` and in its SQLite key/value table.
use vstd::prelude::*;
use crate::json::{
    Json, JsonValue, opt_str_view, member_index, member_index_from, members_insert, members_remove,
    keys_unique, lemma_member_index_from,
};
use crate::text::{
    owned, contains, contains_char, second_piece, spec_contains, spec_second_piece, str_len, byte_len,
    concat, concat3,
};
use crate::outside::{to_lowercase, spec_lowercase};
use crate::accounts::{
    SwitchAccountResult, LogoutResult, AccountInfo, AccountManager, account_views, index_by_email,
};
use crate::numbers::{u64_text, spec_decimal};
use crate::registration::line_views;

verus! {

pub open spec fn key_cached_email() -> Seq<char> {
    "cursorAuth/cachedEmail"@
}

pub open spec fn key_access_token() -> Seq<char> {
    "cursorAuth/accessToken"@
}

pub open spec fn key_refresh_token() -> Seq<char> {
    "cursorAuth/refreshToken"@
}

pub open spec fn key_sign_up_type() -> Seq<char> {
    "cursorAuth/cachedSignUpType"@
}

pub open spec fn key_cursor_email() -> Seq<char> {
    "cursor.email"@
}

pub open spec fn key_cursor_access_token() -> Seq<char> {
    "cursor.accessToken"@
}

/// The token that Cursor stores: a token written as "user_...%3A%3A<token>" or
/// "user_...::<token>" keeps only the part after the first separator (up to a second one).
pub open spec fn spec_process_token(token: Seq<char>) -> Seq<char> {
    if spec_contains(token, "%3A%3A"@) {
        match spec_second_piece(token, "%3A%3A"@) {
            Some(p) => p,
            None => token,
        }
    } else if spec_contains(token, "::"@) {
        match spec_second_piece(token, "::"@) {
            Some(p) => p,
            None => token,
        }
    } else {
        token
    }
}

/// `storage.json` after logging in with `email` and `token`.
pub open spec fn spec_with_login(data: Json, email: Seq<char>, token: Seq<char>) -> Json {
    let p = spec_process_token(token);
    data.insert(key_cached_email(), Json::Str(email)).insert(key_access_token(), Json::Str(p)).insert(
        key_refresh_token(),
        Json::Str(p),
    ).insert(key_sign_up_type(), Json::Str("Auth_0"@)).insert(key_cursor_email(), Json::Str(email)).insert(
        key_cursor_access_token(),
        Json::Str(p),
    )
}

/// `storage.json` without the login fields.
pub open spec fn spec_without_login(data: Json) -> Json {
    data.remove(key_cached_email()).remove(key_access_token()).remove(key_refresh_token()).remove(
        key_sign_up_type(),
    ).remove(key_cursor_email()).remove(key_cursor_access_token())
}

/// The email in `storage.json`: the cached email when it holds an '@', else the first string
/// member with '@' whose lower-cased key contains "email".
pub open spec fn spec_storage_email(data: Json) -> Option<Seq<char>> {
    match data.get_str(key_cached_email()) {
        Some(e) if spec_contains(e, "@"@) => Some(e),
        _ => match data {
            Json::Object(m) => first_email_member(m, 0),
            _ => None,
        },
    }
}

pub open spec fn is_email_member(key: Seq<char>, value: Json) -> bool {
    spec_contains(spec_lowercase(key), "email"@) && (value matches Json::Str(s) && spec_contains(
        s,
        "@"@,
    ))
}

pub open spec fn first_email_member(m: Seq<(Seq<char>, Json)>, k: int) -> Option<Seq<char>>
    decreases m.len() - k,
{
    if k < 0 || k >= m.len() {
        None
    } else if is_email_member(m[k].0, m[k].1) {
        m[k].1.as_str()
    } else {
        first_email_member(m, k + 1)
    }
}

/// A value read from Cursor's SQLite key/value table, with its reading as JSON when it is JSON.
pub struct StoredValue {
    pub text: String,
    pub parsed: Option<JsonValue>,
}

/// The email that one SQLite value gives: the value itself when it holds '@' and has between
/// 6 and 99 bytes, else the "email" or "cachedEmail" string of a JSON object.
pub open spec fn spec_value_email(text: Seq<char>, parsed: Option<Json>) -> Option<Seq<char>> {
    if spec_contains(text, "@"@) && str_len(text) > 5 && str_len(text) < 100 {
        Some(text)
    } else {
        match parsed {
            Some(Json::Object(m)) => match Json::Object(m).get_str("email"@) {
                Some(e) => Some(e),
                None => Json::Object(m).get_str("cachedEmail"@),
            },
            _ => None,
        }
    }
}

pub open spec fn opt_json(p: Option<JsonValue>) -> Option<Json> {
    match p {
        Some(v) => Some(v.model()),
        None => None,
    }
}

/// The first email that the values give, in order.
pub open spec fn first_value_email(rows: Seq<StoredValue>, k: int) -> Option<Seq<char>>
    decreases rows.len() - k,
{
    if k < 0 || k >= rows.len() {
        None
    } else {
        match spec_value_email(rows[k].text@, opt_json(rows[k].parsed)) {
            Some(e) => Some(e),
            None => first_value_email(rows, k + 1),
        }
    }
}

// ---------------------------------------------------------------------------
// Lemmas about object members
// ---------------------------------------------------------------------------

proof fn lemma_member_index_same_keys(
    a: Seq<(Seq<char>, Json)>,
    b: Seq<(Seq<char>, Json)>,
    key: Seq<char>,
    k: int,
)
    requires
        a.len() == b.len(),
        forall|i: int| 0 <= i < a.len() ==> #[trigger] a[i].0 == b[i].0,
    ensures
        member_index_from(a, key, k) == member_index_from(b, key, k),
    decreases a.len() - k,
{
    if 0 <= k < a.len() && a[k].0 != key {
        lemma_member_index_same_keys(a, b, key, k + 1);
    }
}

proof fn lemma_member_index_push_from(
    a: Seq<(Seq<char>, Json)>,
    x: (Seq<char>, Json),
    key: Seq<char>,
    k: int,
)
    requires
        0 <= k <= a.len(),
    ensures
        member_index_from(a, key, k) is Some ==> member_index_from(a.push(x), key, k)
            == member_index_from(a, key, k),
        member_index_from(a, key, k) is None ==> member_index_from(a.push(x), key, k) == (if x.0
            == key {
            Some(a.len() as int)
        } else {
            None::<int>
        }),
    decreases a.len() - k,
{
    if k < a.len() {
        assert(a.push(x)[k] == a[k]);
        if a[k].0 != key {
            lemma_member_index_push_from(a, x, key, k + 1);
        }
    } else {
        assert(a.push(x)[k] == x);
        assert(member_index_from(a.push(x), key, k + 1) is None);
    }
}

/// After setting `key`, reading `key` gives the new value.
pub proof fn lemma_insert_get_same(j: Json, key: Seq<char>, v: Json)
    requires
        j is Object,
    ensures
        j.insert(key, v).get(key) == Some(v),
{
    let m = j->Object_0;
    lemma_member_index_from(m, key, 0);
    match member_index(m, key) {
        Some(i) => {
            let m2 = m.update(i, (key, v));
            assert forall|t: int| 0 <= t < m.len() implies #[trigger] m[t].0 == m2[t].0 by {}
            lemma_member_index_same_keys(m, m2, key, 0);
        },
        None => {
            lemma_member_index_push_from(m, (key, v), key, 0);
        },
    }
}

/// Setting one key leaves what another key reads unchanged.
pub proof fn lemma_insert_get_other(j: Json, key: Seq<char>, v: Json, other: Seq<char>)
    requires
        key != other,
    ensures
        j.insert(key, v).get(other) == j.get(other),
{
    match j {
        Json::Object(m) => {
            lemma_member_index_from(m, key, 0);
            lemma_member_index_from(m, other, 0);
            match member_index(m, key) {
                Some(i) => {
                    let m2 = m.update(i, (key, v));
                    assert forall|t: int| 0 <= t < m.len() implies #[trigger] m[t].0 == m2[t].0 by {}
                    lemma_member_index_same_keys(m, m2, other, 0);
                    match member_index(m, other) {
                        Some(t) => {
                            assert(t != i);
                        },
                        None => {},
                    }
                },
                None => {
                    lemma_member_index_push_from(m, (key, v), other, 0);
                },
            }
        },
        _ => {},
    }
}

/// Setting a key keeps an object's keys unique.
pub proof fn lemma_insert_keeps_unique(j: Json, key: Seq<char>, v: Json)
    requires
        j matches Json::Object(m) && keys_unique(m),
    ensures
        j.insert(key, v) matches Json::Object(m2) && keys_unique(m2),
{
    let m = j->Object_0;
    lemma_member_index_from(m, key, 0);
    match member_index(m, key) {
        Some(i) => {},
        None => {
            let m2 = m.push((key, v));
            assert forall|a: int, b: int| 0 <= a < b < m2.len() implies m2[a].0 != m2[b].0 by {
                if b == m.len() {
                    assert(m[a].0 != key);
                }
            }
        },
    }
}

/// Removing a key from an object with unique keys leaves no member with that key.
pub proof fn lemma_remove_get_same(j: Json, key: Seq<char>)
    requires
        j matches Json::Object(m) && keys_unique(m),
    ensures
        j.remove(key).get(key) is None,
        j.remove(key) matches Json::Object(m2) && keys_unique(m2),
{
    let m = j->Object_0;
    lemma_member_index_from(m, key, 0);
    match member_index(m, key) {
        Some(i) => {
            let m2 = m.remove(i);
            assert forall|t: int| 0 <= t < m2.len() implies m2[t].0 != key by {
                if t < i {
                    assert(m2[t] == m[t]);
                } else {
                    assert(m2[t] == m[t + 1]);
                }
            }
            lemma_member_index_from(m2, key, 0);
            assert forall|a: int, b: int| 0 <= a < b < m2.len() implies m2[a].0 != m2[b].0 by {
                let a0 = if a < i { a } else { a + 1 };
                let b0 = if b < i { b } else { b + 1 };
                assert(m2[a] == m[a0]);
                assert(m2[b] == m[b0]);
            }
        },
        None => {},
    }
}

/// Removing one key leaves what another key reads unchanged.
pub proof fn lemma_remove_get_other(j: Json, key: Seq<char>, other: Seq<char>)
    requires
        key != other,
    ensures
        j.remove(key).get(other) == j.get(other),
{
    match j {
        Json::Object(m) => {
            lemma_member_index_from(m, key, 0);
            lemma_member_index_from(m, other, 0);
            match member_index(m, key) {
                Some(i) => {
                    let m2 = m.remove(i);
                    lemma_member_index_from(m2, other, 0);
                    match member_index(m, other) {
                        Some(t) => {
                            assert(t != i);
                            if t < i {
                                assert(m2[t] == m[t]);
                                assert forall|u: int| 0 <= u < t implies m2[u].0 != other by {
                                    assert(m2[u] == m[u]);
                                }
                                assert(member_index(m2, other) == Some(t));
                            } else {
                                assert(m2[t - 1] == m[t]);
                                assert forall|u: int| 0 <= u < t - 1 implies m2[u].0 != other by {
                                    if u < i {
                                        assert(m2[u] == m[u]);
                                    } else {
                                        assert(m2[u] == m[u + 1]);
                                    }
                                }
                                assert(member_index(m2, other) == Some(t - 1));
                            }
                        },
                        None => {
                            assert forall|u: int| 0 <= u < m2.len() implies m2[u].0 != other by {
                                if u < i {
                                    assert(m2[u] == m[u]);
                                } else {
                                    assert(m2[u] == m[u + 1]);
                                }
                            }
                        },
                    }
                },
                None => {},
            }
        },
        _ => {},
    }
}

// ---------------------------------------------------------------------------
// Laws
// ---------------------------------------------------------------------------

/// The six login keys are different from one another.
pub proof fn lemma_login_keys_distinct()
    ensures
        ({
            let k1 = key_cached_email();
            let k2 = key_access_token();
            let k3 = key_refresh_token();
            let k4 = key_sign_up_type();
            let k5 = key_cursor_email();
            let k6 = key_cursor_access_token();
            &&& k1 != k2 && k1 != k3 && k1 != k4 && k1 != k5 && k1 != k6
            &&& k2 != k3 && k2 != k4 && k2 != k5 && k2 != k6
            &&& k3 != k4 && k3 != k5 && k3 != k6
            &&& k4 != k5 && k4 != k6
            &&& k5 != k6
        }),
{
    let k1 = key_cached_email();
    let k2 = key_access_token();
    let k3 = key_refresh_token();
    let k4 = key_sign_up_type();
    let k5 = key_cursor_email();
    let k6 = key_cursor_access_token();
    reveal_strlit("cursorAuth/cachedEmail");
    reveal_strlit("cursorAuth/accessToken");
    reveal_strlit("cursorAuth/refreshToken");
    reveal_strlit("cursorAuth/cachedSignUpType");
    reveal_strlit("cursor.email");
    reveal_strlit("cursor.accessToken");
    assert(k1 != k2 && k1 != k3 && k1 != k4 && k1 != k5 && k1 != k6) by {
        assert(k1.len() != k2.len() || k1[11] != k2[11]);
        assert(k1[0] != k5[6] || k1.len() != k5.len());
    }
    assert(k2 != k3 && k2 != k4 && k2 != k5 && k2 != k6) by {
        assert(k2[11] != k3[11]);
        assert(k2.len() != k4.len());
        assert(k2.len() != k5.len());
        assert(k2.len() != k6.len());
    }
    assert(k3 != k4 && k3 != k5 && k3 != k6) by {
        assert(k3.len() != k4.len());
        assert(k3.len() != k5.len());
        assert(k3.len() != k6.len());
    }
    assert(k4 != k5 && k4 != k6) by {
        assert(k4.len() != k5.len());
        assert(k4.len() != k6.len());
    }
    assert(k5 != k6) by {
        assert(k5.len() != k6.len());
    }
}

/// After logging in, `storage.json` holds the email under both email keys, the stored form of
/// the token under the three token keys, and "Auth_0" as the sign-up type.
pub proof fn lemma_login_written(data: Json, email: Seq<char>, token: Seq<char>)
    requires
        data is Object,
    ensures
        ({
            let out = spec_with_login(data, email, token);
            let p = spec_process_token(token);
            &&& out.get(key_cached_email()) == Some(Json::Str(email))
            &&& out.get(key_access_token()) == Some(Json::Str(p))
            &&& out.get(key_refresh_token()) == Some(Json::Str(p))
            &&& out.get(key_sign_up_type()) == Some(Json::Str("Auth_0"@))
            &&& out.get(key_cursor_email()) == Some(Json::Str(email))
            &&& out.get(key_cursor_access_token()) == Some(Json::Str(p))
        }),
{
    let p = spec_process_token(token);
    let k1 = key_cached_email();
    let k2 = key_access_token();
    let k3 = key_refresh_token();
    let k4 = key_sign_up_type();
    let k5 = key_cursor_email();
    let k6 = key_cursor_access_token();
    lemma_login_keys_distinct();
    let d1 = data.insert(k1, Json::Str(email));
    let d2 = d1.insert(k2, Json::Str(p));
    let d3 = d2.insert(k3, Json::Str(p));
    let d4 = d3.insert(k4, Json::Str("Auth_0"@));
    let d5 = d4.insert(k5, Json::Str(email));
    lemma_insert_get_same(data, k1, Json::Str(email));
    lemma_insert_get_same(d1, k2, Json::Str(p));
    lemma_insert_get_same(d2, k3, Json::Str(p));
    lemma_insert_get_same(d3, k4, Json::Str("Auth_0"@));
    lemma_insert_get_same(d4, k5, Json::Str(email));
    lemma_insert_get_same(d5, k6, Json::Str(p));
    lemma_insert_get_other(d1, k2, Json::Str(p), k1);
    lemma_insert_get_other(d2, k3, Json::Str(p), k1);
    lemma_insert_get_other(d2, k3, Json::Str(p), k2);
    lemma_insert_get_other(d3, k4, Json::Str("Auth_0"@), k1);
    lemma_insert_get_other(d3, k4, Json::Str("Auth_0"@), k2);
    lemma_insert_get_other(d3, k4, Json::Str("Auth_0"@), k3);
    lemma_insert_get_other(d4, k5, Json::Str(email), k1);
    lemma_insert_get_other(d4, k5, Json::Str(email), k2);
    lemma_insert_get_other(d4, k5, Json::Str(email), k3);
    lemma_insert_get_other(d4, k5, Json::Str(email), k4);
    lemma_insert_get_other(d5, k6, Json::Str(p), k1);
    lemma_insert_get_other(d5, k6, Json::Str(p), k2);
    lemma_insert_get_other(d5, k6, Json::Str(p), k3);
    lemma_insert_get_other(d5, k6, Json::Str(p), k4);
    lemma_insert_get_other(d5, k6, Json::Str(p), k5);
}

/// After logging out, `storage.json` holds none of the login fields (when its keys were unique,
/// as in every JSON map).
pub proof fn lemma_logout_cleared(data: Json)
    requires
        data matches Json::Object(m) && keys_unique(m),
    ensures
        ({
            let out = spec_without_login(data);
            &&& out.get(key_cached_email()) is None
            &&& out.get(key_access_token()) is None
            &&& out.get(key_refresh_token()) is None
            &&& out.get(key_sign_up_type()) is None
            &&& out.get(key_cursor_email()) is None
            &&& out.get(key_cursor_access_token()) is None
        }),
{
    let k1 = key_cached_email();
    let k2 = key_access_token();
    let k3 = key_refresh_token();
    let k4 = key_sign_up_type();
    let k5 = key_cursor_email();
    let k6 = key_cursor_access_token();
    lemma_login_keys_distinct();
    let d1 = data.remove(k1);
    let d2 = d1.remove(k2);
    let d3 = d2.remove(k3);
    let d4 = d3.remove(k4);
    let d5 = d4.remove(k5);
    let d6 = d5.remove(k6);
    lemma_remove_get_same(data, k1);
    lemma_remove_get_same(d1, k2);
    lemma_remove_get_same(d2, k3);
    lemma_remove_get_same(d3, k4);
    lemma_remove_get_same(d4, k5);
    lemma_remove_get_same(d5, k6);
    lemma_remove_get_other(d1, k2, k1);
    lemma_remove_get_other(d2, k3, k1);
    lemma_remove_get_other(d2, k3, k2);
    lemma_remove_get_other(d3, k4, k1);
    lemma_remove_get_other(d3, k4, k2);
    lemma_remove_get_other(d3, k4, k3);
    lemma_remove_get_other(d4, k5, k1);
    lemma_remove_get_other(d4, k5, k2);
    lemma_remove_get_other(d4, k5, k3);
    lemma_remove_get_other(d4, k5, k4);
    lemma_remove_get_other(d5, k6, k1);
    lemma_remove_get_other(d5, k6, k2);
    lemma_remove_get_other(d5, k6, k3);
    lemma_remove_get_other(d5, k6, k4);
    lemma_remove_get_other(d5, k6, k5);
}

// ---------------------------------------------------------------------------
// Executable operations
// ---------------------------------------------------------------------------

/// The form in which Cursor stores `token` (see `spec_process_token`).
pub fn process_token(token: &str) -> (r: String)
    ensures
        r@ == spec_process_token(token@),
{
    if contains(token, "%3A%3A") {
        match second_piece(token, "%3A%3A") {
            Some(p) => p,
            None => owned(token),
        }
    } else if contains(token, "::") {
        match second_piece(token, "::") {
            Some(p) => p,
            None => owned(token),
        }
    } else {
        owned(token)
    }
}

/// Writes the login of `email` with `token` into the `storage.json` document.
pub fn apply_login_to_storage(data: &mut JsonValue, email: &str, token: &str)
    ensures
        final(data).model() == spec_with_login(old(data).model(), email@, token@),
{
    let p = process_token(token);
    data.insert(owned("cursorAuth/cachedEmail"), JsonValue::Str(owned(email)));
    data.insert(owned("cursorAuth/accessToken"), JsonValue::Str(p.clone()));
    data.insert(owned("cursorAuth/refreshToken"), JsonValue::Str(p.clone()));
    data.insert(owned("cursorAuth/cachedSignUpType"), JsonValue::Str(owned("Auth_0")));
    data.insert(owned("cursor.email"), JsonValue::Str(owned(email)));
    data.insert(owned("cursor.accessToken"), JsonValue::Str(p));
}

/// 1 when `d` has a member `k`, else 0.
pub open spec fn present(d: Json, k: Seq<char>) -> int {
    if d.get(k) is Some {
        1
    } else {
        0
    }
}

/// How many of the login fields `d` holds.
pub open spec fn login_fields_present(d: Json) -> int {
    present(d, key_cached_email()) + present(d, key_access_token()) + present(d, key_refresh_token())
        + present(d, key_sign_up_type()) + present(d, key_cursor_email()) + present(
        d,
        key_cursor_access_token(),
    )
}

/// Removes the login fields from the `storage.json` document; gives how many were present.
pub fn clear_login_from_storage(data: &mut JsonValue) -> (removed: usize)
    ensures
        final(data).model() == spec_without_login(old(data).model()),
        removed == login_fields_present(old(data).model()),
{
    let ghost d0 = data.model();
    proof {
        lemma_login_keys_distinct();
        let k1 = key_cached_email();
        let k2 = key_access_token();
        let k3 = key_refresh_token();
        let k4 = key_sign_up_type();
        let k5 = key_cursor_email();
        let k6 = key_cursor_access_token();
        let d1 = d0.remove(k1);
        let d2 = d1.remove(k2);
        let d3 = d2.remove(k3);
        let d4 = d3.remove(k4);
        let d5 = d4.remove(k5);
        lemma_remove_get_other(d0, k1, k2);
        lemma_remove_get_other(d0, k1, k3);
        lemma_remove_get_other(d0, k1, k4);
        lemma_remove_get_other(d0, k1, k5);
        lemma_remove_get_other(d0, k1, k6);
        lemma_remove_get_other(d1, k2, k3);
        lemma_remove_get_other(d1, k2, k4);
        lemma_remove_get_other(d1, k2, k5);
        lemma_remove_get_other(d1, k2, k6);
        lemma_remove_get_other(d2, k3, k4);
        lemma_remove_get_other(d2, k3, k5);
        lemma_remove_get_other(d2, k3, k6);
        lemma_remove_get_other(d3, k4, k5);
        lemma_remove_get_other(d3, k4, k6);
        lemma_remove_get_other(d4, k5, k6);
        reveal_strlit("cursorAuth/cachedEmail");
        reveal_strlit("cursorAuth/accessToken");
        reveal_strlit("cursorAuth/refreshToken");
        reveal_strlit("cursorAuth/cachedSignUpType");
        reveal_strlit("cursor.email");
        reveal_strlit("cursor.accessToken");
    }
    let mut removed: usize = 0;
    if data.remove("cursorAuth/cachedEmail") {
        removed += 1;
    }
    if data.remove("cursorAuth/accessToken") {
        removed += 1;
    }
    if data.remove("cursorAuth/refreshToken") {
        removed += 1;
    }
    if data.remove("cursorAuth/cachedSignUpType") {
        removed += 1;
    }
    if data.remove("cursor.email") {
        removed += 1;
    }
    if data.remove("cursor.accessToken") {
        removed += 1;
    }
    removed
}

/// The email recorded in the `storage.json` document (see `spec_storage_email`).
pub fn email_from_storage(data: &JsonValue) -> (r: Option<String>)
    ensures
        opt_str_view(r) == spec_storage_email(data.model()),
{
    match data.get_str("cursorAuth/cachedEmail") {
        Some(e) => {
            if contains_char(e.as_str(), '@') {
                proof {
                    assert(seq!['@'] =~= "@"@) by {
                        reveal_strlit("@");
                    }
                }
                return Some(e);
            }
        },
        None => {},
    }
    proof {
        assert(seq!['@'] =~= "@"@) by {
            reveal_strlit("@");
        }
    }
    match data.as_object() {
        Some(m) => {
            proof {
                crate::json::lemma_member_models(m@);
            }
            let ghost mm = crate::json::member_models(m@);
            let mut i: usize = 0;
            while i < m.len()
                invariant
                    i <= m.len(),
                    mm == crate::json::member_models(m@),
                    mm.len() == m.len(),
                    forall|j: int| 0 <= j < m.len() ==> #[trigger] mm[j] == (m@[j].key@, m@[j].value.model()),
                    data.model() == Json::Object(mm),
                    seq!['@'] == "@"@,
                    data.model().get_str(key_cached_email()) is Some ==> !spec_contains(
                        data.model().get_str(key_cached_email())->0,
                        "@"@,
                    ),
                    first_email_member(mm, 0) == first_email_member(mm, i as int),
                decreases m.len() - i,
            {
                let lower = to_lowercase(m[i].key.as_str());
                if contains(lower.as_str(), "email") {
                    match m[i].value.as_str() {
                        Some(s) => {
                            if contains_char(s.as_str(), '@') {
                                assert(is_email_member(mm[i as int].0, mm[i as int].1));
                                return Some(s.clone());
                            }
                        },
                        None => {},
                    }
                }
                assert(!is_email_member(mm[i as int].0, mm[i as int].1));
                i += 1;
            }
            None
        },
        None => None,
    }
}

/// The first email among the SQLite values, in order (see `spec_value_email`).
pub fn email_from_stored_values(rows: &Vec<StoredValue>) -> (r: Option<String>)
    ensures
        opt_str_view(r) == first_value_email(rows@, 0),
{
    proof {
        assert(seq!['@'] =~= "@"@) by {
            reveal_strlit("@");
        }
    }
    let mut i: usize = 0;
    while i < rows.len()
        invariant
            i <= rows.len(),
            seq!['@'] == "@"@,
            first_value_email(rows@, 0) == first_value_email(rows@, i as int),
        decreases rows.len() - i,
    {
        let row = &rows[i];
        let n = byte_len(row.text.as_str());
        if contains_char(row.text.as_str(), '@') && n > 5 && n < 100 {
            return Some(row.text.clone());
        }
        match &row.parsed {
            Some(v) => {
                if v.as_object().is_some() {
                    match v.get_str("email") {
                        Some(e) => {
                            return Some(e);
                        },
                        None => {},
                    }
                    match v.get_str("cachedEmail") {
                        Some(e) => {
                            return Some(e);
                        },
                        None => {},
                    }
                }
            },
            None => {},
        }
        i += 1;
    }
    None
}

/// The SQLite entries that record the login email.
pub fn email_fields(email: &str) -> (r: Vec<(String, String)>)
    ensures
        r@.len() == 2,
        r@[0].0@ == key_cached_email() && r@[0].1@ == email@,
        r@[1].0@ == key_cursor_email() && r@[1].1@ == email@,
{
    let mut v: Vec<(String, String)> = Vec::new();
    v.push((owned("cursorAuth/cachedEmail"), owned(email)));
    v.push((owned("cursor.email"), owned(email)));
    v
}

/// The SQLite entries that record the login token and the sign-up type.
pub fn token_fields(token: &str, auth_type: &str) -> (r: Vec<(String, String)>)
    ensures
        r@.len() == 4,
        r@[0].0@ == key_access_token() && r@[0].1@ == spec_process_token(token@),
        r@[1].0@ == key_refresh_token() && r@[1].1@ == spec_process_token(token@),
        r@[2].0@ == key_cursor_access_token() && r@[2].1@ == spec_process_token(token@),
        r@[3].0@ == key_sign_up_type() && r@[3].1@ == auth_type@,
{
    let p = process_token(token);
    let mut v: Vec<(String, String)> = Vec::new();
    v.push((owned("cursorAuth/accessToken"), p.clone()));
    v.push((owned("cursorAuth/refreshToken"), p.clone()));
    v.push((owned("cursor.accessToken"), p));
    v.push((owned("cursorAuth/cachedSignUpType"), owned(auth_type)));
    v
}

/// The SQLite keys that logging out deletes, in the order of deletion.
pub fn sqlite_login_keys() -> (r: Vec<String>)
    ensures
        r@.len() == 6,
        r@[0]@ == key_access_token(),
        r@[1]@ == key_refresh_token(),
        r@[2]@ == key_cached_email(),
        r@[3]@ == key_sign_up_type(),
        r@[4]@ == key_cursor_email(),
        r@[5]@ == key_cursor_access_token(),
{
    let mut v: Vec<String> = Vec::new();
    v.push(owned("cursorAuth/accessToken"));
    v.push(owned("cursorAuth/refreshToken"));
    v.push(owned("cursorAuth/cachedEmail"));
    v.push(owned("cursorAuth/cachedSignUpType"));
    v.push(owned("cursor.email"));
    v.push(owned("cursor.accessToken"));
    v
}

/// The sign-up type recorded when switching: the one given, else "Auth_0".
pub fn auth_type_or_default(auth_type: Option<String>) -> (r: String)
    ensures
        r@ == (match auth_type {
            Some(a) => a@,
            None => "Auth_0"@,
        }),
{
    match auth_type {
        Some(a) => a,
        None => owned("Auth_0"),
    }
}

/// The outcome of switching to `email` with a token, from what each step reported: writing
/// the email to SQLite, writing the token to SQLite, and (when the token was written) updating
/// `storage.json`. Only a failed token write makes the switch fail.
pub fn switch_with_token_outcome(
    email: &str,
    auth_type: &str,
    email_written: Result<(), String>,
    token_written: Result<(), String>,
    storage_written: Result<(), String>,
) -> (r: SwitchAccountResult)
    ensures
        r.success == token_written is Ok,
        r.details@.len() == (if token_written is Ok { 5int } else { 2int }),
        r.details@[0]@ == "Switching to account: "@ + email@ + " (auth type: "@ + auth_type@ + ")"@,
        r.details@[1]@ == (match email_written {
            Ok(_) => "Successfully injected email to SQLite database"@,
            Err(e) => "Warning: Failed to inject email to SQLite: "@ + e@,
        }),
        token_written matches Err(e) ==> r.message@ == "Failed to inject token: "@ + e@,
        token_written is Ok ==> {
            &&& r.details@[2]@ == "Successfully injected token and auth type to SQLite database"@
            &&& r.details@[3]@ == (match storage_written {
                Ok(_) => "Successfully updated storage.json"@,
                Err(e) => "Warning: Failed to update storage.json: "@ + e@,
            })
            &&& r.details@[4]@ == "Waited for database updates to complete"@
            &&& r.message@ == "Successfully switched to account: "@ + email@
        },
{
    let mut details: Vec<String> = Vec::new();
    let mut first = concat3("Switching to account: ", email, " (auth type: ");
    first.append(auth_type);
    first.append(")");
    details.push(first);
    match email_written {
        Ok(()) => details.push(owned("Successfully injected email to SQLite database")),
        Err(e) => details.push(concat("Warning: Failed to inject email to SQLite: ", e.as_str())),
    }
    match token_written {
        Err(e) => {
            return SwitchAccountResult {
                success: false,
                message: concat("Failed to inject token: ", e.as_str()),
                details,
            };
        },
        Ok(()) => {
            details.push(owned("Successfully injected token and auth type to SQLite database"));
        },
    }
    match storage_written {
        Ok(()) => details.push(owned("Successfully updated storage.json")),
        Err(e) => details.push(concat("Warning: Failed to update storage.json: ", e.as_str())),
    }
    details.push(owned("Waited for database updates to complete"));
    SwitchAccountResult {
        success: true,
        message: concat("Successfully switched to account: ", email),
        details,
    }
}

/// What closing, killing and restarting Cursor reported during a switch with restart.
pub struct RestartReport {
    /// How the graceful close went, when Cursor was running.
    pub closed: Option<Result<(), String>>,
    /// How many leftover Cursor processes were killed, or why killing failed.
    pub killed: Result<u64, String>,
    /// Whether Cursor was still running when it was to be started again.
    pub still_running: bool,
    /// How starting Cursor went.
    pub started: Result<(), String>,
}

/// `ok` for a step that succeeded, else `err_prefix` followed by its error.
pub open spec fn step_detail(r: Result<(), String>, ok: Seq<char>, err_prefix: Seq<char>) -> Seq<char> {
    match r {
        Ok(_) => ok,
        Err(e) => err_prefix + e@,
    }
}

pub open spec fn kill_detail(k: Result<u64, String>) -> Seq<char> {
    match k {
        Ok(n) => if n > 0 {
            "Force killed "@ + spec_decimal(n as int) + " remaining Cursor processes"@
        } else {
            "No remaining Cursor processes found"@
        },
        Err(e) => "Warning: Failed to force kill processes: "@ + e@,
    }
}

pub open spec fn skipped_restart() -> Seq<char> {
    "Skipped Cursor restart (auto-restart disabled)"@
}

/// The details of closing Cursor before a switch.
pub open spec fn close_details(restart: Option<RestartReport>) -> Seq<Seq<char>> {
    match restart {
        None => seq![skipped_restart()],
        Some(rr) => (match rr.closed {
            Some(c) => seq![step_detail(c, "Gracefully closed Cursor processes"@, "Graceful close failed: "@)],
            None => Seq::<Seq<char>>::empty(),
        }) + seq![kill_detail(rr.killed)],
    }
}

/// The details of starting Cursor again after a switch.
pub open spec fn start_details(restart: Option<RestartReport>) -> Seq<Seq<char>> {
    match restart {
        None => seq![skipped_restart()],
        Some(rr) => (if rr.still_running {
            seq!["Warning: Cursor processes still running when attempting restart"@]
        } else {
            Seq::empty()
        }) + seq![step_detail(rr.started, "Successfully restarted Cursor"@, "Warning: Failed to restart Cursor: "@)],
    }
}

/// The detail of putting the new email into Cursor's window: the script's outcome, or why the
/// updater could not be set up.
pub open spec fn ui_detail(ui: Result<Result<(), String>, String>) -> Seq<char> {
    match ui {
        Ok(inner) => step_detail(
            inner,
            "Successfully injected email update script to Cursor UI"@,
            "Warning: Failed to inject email update script: "@,
        ),
        Err(e) => "Warning: Failed to initialize email updater: "@ + e@,
    }
}

/// The details of a switch up to the token write.
pub open spec fn switch_details_before_token(
    email: Seq<char>,
    restart: Option<RestartReport>,
    email_written: Result<(), String>,
) -> Seq<Seq<char>> {
    seq!["Switching to account: "@ + email] + close_details(restart) + seq![
        step_detail(
            email_written,
            "Successfully injected email to SQLite database"@,
            "Warning: Failed to inject email to SQLite: "@,
        ),
    ]
}

fn push_line(v: &mut Vec<String>, s: String)
    ensures
        line_views(final(v)@) == line_views(old(v)@).push(s@),
{
    v.push(s);
    assert(line_views(v@) =~= line_views(old(v)@).push(s@));
}

fn step_text(r: Result<(), String>, ok: &str, err_prefix: &str) -> (t: String)
    ensures
        t@ == step_detail(r, ok@, err_prefix@),
{
    match r {
        Ok(()) => owned(ok),
        Err(e) => concat(err_prefix, e.as_str()),
    }
}

/// The saved account to switch to: the first with `email`; a failed report when the accounts
/// could not be loaded or none has that email.
pub fn switch_target(loaded: Result<Vec<AccountInfo>, String>, email: &str) -> (r: Result<AccountInfo, SwitchAccountResult>)
    ensures
        match loaded {
            Err(e) => r matches Err(f) && !f.success && f.message@ == "Failed to load accounts: "@ + e@
                && line_views(f.details@) == seq![e@],
            Ok(list) => match index_by_email(account_views(list@), email@) {
                Some(i) => r matches Ok(a) && a@ == account_views(list@)[i],
                None => r matches Err(f) && !f.success && f.message@ == "Account not found"@
                    && line_views(f.details@) == seq!["No account found with email: "@ + email@],
            },
        },
{
    match loaded {
        Err(e) => {
            let message = concat("Failed to load accounts: ", e.as_str());
            let mut details: Vec<String> = Vec::new();
            push_line(&mut details, e);
            Err(SwitchAccountResult { success: false, message, details })
        },
        Ok(list) => match AccountManager::find_account_by_email(&list, email) {
            Some(i) => {
                proof {
                    crate::accounts::lemma_account_views_index(list@);
                }
                Ok(list[i].duplicate())
            },
            None => {
                let mut details: Vec<String> = Vec::new();
                push_line(&mut details, concat("No account found with email: ", email));
                Err(SwitchAccountResult { success: false, message: owned("Account not found"), details })
            },
        },
    }
}

/// The outcome of switching to the saved account `email`, from what each step reported:
/// closing Cursor (when restarting), writing the email and the token to SQLite, updating
/// `storage.json`, putting the email into Cursor's window, and starting Cursor again. Only a
/// failed token write makes the switch fail; it ends the switch there.
pub fn switch_account_outcome(
    email: &str,
    restart: Option<RestartReport>,
    email_written: Result<(), String>,
    token_written: Result<(), String>,
    storage_written: Result<(), String>,
    ui_updated: Result<Result<(), String>, String>,
) -> (r: SwitchAccountResult)
    ensures
        ({
            let before = switch_details_before_token(email@, restart, email_written);
            match token_written {
                Err(e) => !r.success && r.message@ == "Failed to inject token: "@ + e@
                    && line_views(r.details@) == before,
                Ok(_) => r.success && r.message@ == "Successfully switched to account: "@ + email@
                    && line_views(r.details@) == before + seq![
                        "Successfully injected token to SQLite database"@,
                        step_detail(
                            storage_written,
                            "Successfully updated storage.json"@,
                            "Warning: Failed to update storage.json: "@,
                        ),
                        ui_detail(ui_updated),
                        "Waited for database updates to complete"@,
                    ] + start_details(restart),
            }
        }),
{
    let ghost restart0 = restart;
    let mut details: Vec<String> = Vec::new();
    push_line(&mut details, concat("Switching to account: ", email));
    let start_part: Option<(bool, Result<(), String>)> = match restart {
        None => {
            push_line(&mut details, owned("Skipped Cursor restart (auto-restart disabled)"));
            None
        },
        Some(rr) => {
            match rr.closed {
                Some(c) => push_line(
                    &mut details,
                    step_text(c, "Gracefully closed Cursor processes", "Graceful close failed: "),
                ),
                None => {},
            }
            let k = match rr.killed {
                Ok(n) => if n > 0 {
                    let t = u64_text(n);
                    concat3("Force killed ", t.as_str(), " remaining Cursor processes")
                } else {
                    owned("No remaining Cursor processes found")
                },
                Err(e) => concat("Warning: Failed to force kill processes: ", e.as_str()),
            };
            push_line(&mut details, k);
            Some((rr.still_running, rr.started))
        },
    };
    push_line(
        &mut details,
        step_text(
            email_written,
            "Successfully injected email to SQLite database",
            "Warning: Failed to inject email to SQLite: ",
        ),
    );
    assert(line_views(details@) =~= switch_details_before_token(email@, restart0, email_written));
    match token_written {
        Err(e) => {
            return SwitchAccountResult {
                success: false,
                message: concat("Failed to inject token: ", e.as_str()),
                details,
            };
        },
        Ok(()) => {},
    }
    let ghost before = line_views(details@);
    push_line(&mut details, owned("Successfully injected token to SQLite database"));
    push_line(
        &mut details,
        step_text(storage_written, "Successfully updated storage.json", "Warning: Failed to update storage.json: "),
    );
    let ui = match ui_updated {
        Ok(inner) => step_text(
            inner,
            "Successfully injected email update script to Cursor UI",
            "Warning: Failed to inject email update script: ",
        ),
        Err(e) => concat("Warning: Failed to initialize email updater: ", e.as_str()),
    };
    push_line(&mut details, ui);
    push_line(&mut details, owned("Waited for database updates to complete"));
    let ghost middle = line_views(details@);
    match start_part {
        None => {
            push_line(&mut details, owned("Skipped Cursor restart (auto-restart disabled)"));
        },
        Some((still_running, started)) => {
            if still_running {
                push_line(&mut details, owned("Warning: Cursor processes still running when attempting restart"));
            }
            push_line(
                &mut details,
                step_text(started, "Successfully restarted Cursor", "Warning: Failed to restart Cursor: "),
            );
        },
    }
    assert(line_views(details@) =~= middle + start_details(restart0));
    SwitchAccountResult {
        success: true,
        message: concat("Successfully switched to account: ", email),
        details,
    }
}

/// The outcome of logging out, from what each step reported: whether Cursor was running and
/// how closing it went, clearing SQLite, and clearing `storage.json`. Only a failed SQLite
/// clearing makes the logout report warnings.
pub fn logout_outcome(
    cursor_was_running: bool,
    closed: Result<(), String>,
    sqlite_cleared: Result<(), String>,
    storage_cleared: Result<(), String>,
) -> (r: LogoutResult)
    ensures
        r.success == sqlite_cleared is Ok,
        r.message@ == (if sqlite_cleared is Ok {
            "Successfully logged out. Please restart Cursor to complete the logout process."@
        } else {
            "Logout completed with some warnings. Please restart Cursor."@
        }),
        r.details@.len() == (if cursor_was_running { 4int } else { 3int }),
        cursor_was_running ==> r.details@[0]@ == "Cursor is running, attempting to close..."@
            && r.details@[1]@ == (match closed {
            Ok(_) => "Successfully closed Cursor"@,
            Err(e) => "Warning: Failed to close Cursor: "@ + e@,
        }),
        !cursor_was_running ==> r.details@[0]@ == "Cursor is not running"@,
        r.details@[r.details@.len() - 2]@ == (match sqlite_cleared {
            Ok(_) => "Successfully cleared SQLite authentication data"@,
            Err(e) => "Failed to clear SQLite data: "@ + e@,
        }),
        r.details@[r.details@.len() - 1]@ == (match storage_cleared {
            Ok(_) => "Successfully cleared storage.json authentication data"@,
            Err(e) => "Warning: Failed to clear storage.json: "@ + e@,
        }),
{
    let mut details: Vec<String> = Vec::new();
    if cursor_was_running {
        details.push(owned("Cursor is running, attempting to close..."));
        match closed {
            Ok(()) => details.push(owned("Successfully closed Cursor")),
            Err(e) => details.push(concat("Warning: Failed to close Cursor: ", e.as_str())),
        }
    } else {
        details.push(owned("Cursor is not running"));
    }
    let success = sqlite_cleared.is_ok();
    match sqlite_cleared {
        Ok(()) => details.push(owned("Successfully cleared SQLite authentication data")),
        Err(e) => details.push(concat("Failed to clear SQLite data: ", e.as_str())),
    }
    match storage_cleared {
        Ok(()) => details.push(owned("Successfully cleared storage.json authentication data")),
        Err(e) => details.push(concat("Warning: Failed to clear storage.json: ", e.as_str())),
    }
    let message = if success {
        owned("Successfully logged out. Please restart Cursor to complete the logout process.")
    } else {
        owned("Logout completed with some warnings. Please restart Cursor.")
    };
    LogoutResult { success, message, details }
}

} // verus!
