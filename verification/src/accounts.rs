//! The saved account list and the login data that Cursor keeps in `storage.json` and its
//! SQLite store.
//!
//! Reading and writing the files stays with the caller; these functions take what was read
//! and give back what is to be written.
use vstd::prelude::*;
use crate::json::opt_str_view;
use crate::text::{owned, str_eq, trim, concat, spec_trim};

verus! {

/// A label that the user attached to an account.
pub struct CustomTag {
    pub text: String,
    pub color: String,
}

/// One saved account.
pub struct AccountInfo {
    pub email: String,
    pub token: String,
    pub refresh_token: Option<String>,
    pub workos_cursor_session_token: Option<String>,
    pub is_current: bool,
    pub created_at: String,
    pub is_auto_switch: Option<bool>,
    pub custom_tags: Option<Vec<CustomTag>>,
}

/// The account list together with the account that Cursor is logged in with.
pub struct AccountListResult {
    pub success: bool,
    pub accounts: Vec<AccountInfo>,
    pub current_account: Option<AccountInfo>,
    pub message: String,
}

/// The outcome of switching accounts.
pub struct SwitchAccountResult {
    pub success: bool,
    pub message: String,
    pub details: Vec<String>,
}

/// The outcome of logging out.
pub struct LogoutResult {
    pub success: bool,
    pub message: String,
    pub details: Vec<String>,
}

/// Operations on the saved accounts.
pub struct AccountManager;

/// Why an account operation was refused.
#[derive(PartialEq, Eq, Structural, Clone, Copy)]
pub enum AccountError {
    /// The email is empty or only whitespace.
    EmptyEmail,
    /// An account with this email is already saved.
    AlreadyExists,
    /// No saved account has this email.
    NotFound,
}

/// The view of a saved account.
pub struct AccountView {
    pub email: Seq<char>,
    pub token: Seq<char>,
    pub refresh_token: Option<Seq<char>>,
    pub workos_cursor_session_token: Option<Seq<char>>,
    pub is_current: bool,
    pub created_at: Seq<char>,
    pub is_auto_switch: Option<bool>,
    pub custom_tags: Option<Seq<(Seq<char>, Seq<char>)>>,
}

impl View for CustomTag {
    type V = (Seq<char>, Seq<char>);

    open spec fn view(&self) -> (Seq<char>, Seq<char>) {
        (self.text@, self.color@)
    }
}

pub open spec fn tag_views(tags: Seq<CustomTag>) -> Seq<(Seq<char>, Seq<char>)> {
    tags.map_values(|t: CustomTag| t@)
}

pub open spec fn opt_tags_view(tags: Option<Vec<CustomTag>>) -> Option<Seq<(Seq<char>, Seq<char>)>> {
    match tags {
        Some(v) => Some(tag_views(v@)),
        None => None,
    }
}

impl View for AccountInfo {
    type V = AccountView;

    open spec fn view(&self) -> AccountView {
        AccountView {
            email: self.email@,
            token: self.token@,
            refresh_token: opt_str_view(self.refresh_token),
            workos_cursor_session_token: opt_str_view(self.workos_cursor_session_token),
            is_current: self.is_current,
            created_at: self.created_at@,
            is_auto_switch: self.is_auto_switch,
            custom_tags: opt_tags_view(self.custom_tags),
        }
    }
}

pub open spec fn account_views(s: Seq<AccountInfo>) -> Seq<AccountView> {
    s.map_values(|a: AccountInfo| a@)
}

pub open spec fn opt_account_view(a: Option<AccountInfo>) -> Option<AccountView> {
    match a {
        Some(x) => Some(x@),
        None => None,
    }
}

impl AccountError {
    /// The text of the error.
    pub open spec fn spec_message(self) -> Seq<char> {
        match self {
            AccountError::EmptyEmail => "Cannot add account with empty email"@,
            AccountError::AlreadyExists => "Account with this email already exists"@,
            AccountError::NotFound => "Account not found"@,
        }
    }

    pub fn message(&self) -> (r: String)
        ensures
            r@ == self.spec_message(),
    {
        match self {
            AccountError::EmptyEmail => owned("Cannot add account with empty email"),
            AccountError::AlreadyExists => owned("Account with this email already exists"),
            AccountError::NotFound => owned("Account not found"),
        }
    }
}

// ---------------------------------------------------------------------------
// Specifications of the account-list operations
// ---------------------------------------------------------------------------

/// The first position in `s` whose email is `email`.
pub open spec fn index_by_email_from(s: Seq<AccountView>, email: Seq<char>, k: int) -> Option<int>
    decreases s.len() - k,
{
    if k < 0 || k >= s.len() {
        None
    } else if s[k].email == email {
        Some(k)
    } else {
        index_by_email_from(s, email, k + 1)
    }
}

pub open spec fn index_by_email(s: Seq<AccountView>, email: Seq<char>) -> Option<int> {
    index_by_email_from(s, email, 0)
}

/// The first position in `s` whose token is `token`.
pub open spec fn index_by_token_from(s: Seq<AccountView>, token: Seq<char>, k: int) -> Option<int>
    decreases s.len() - k,
{
    if k < 0 || k >= s.len() {
        None
    } else if s[k].token == token {
        Some(k)
    } else {
        index_by_token_from(s, token, k + 1)
    }
}

pub open spec fn index_by_token(s: Seq<AccountView>, token: Seq<char>) -> Option<int> {
    index_by_token_from(s, token, 0)
}

/// A new account as `add_account` saves it.
pub open spec fn new_account_view(
    email: Seq<char>,
    token: Seq<char>,
    refresh_token: Option<Seq<char>>,
    workos: Option<Seq<char>>,
    created_at: Seq<char>,
) -> AccountView {
    AccountView {
        email,
        token,
        refresh_token,
        workos_cursor_session_token: workos,
        is_current: false,
        created_at,
        is_auto_switch: None,
        custom_tags: None,
    }
}

/// The account after `edit_account`: each given value replaces the stored one.
pub open spec fn edited_view(
    a: AccountView,
    new_token: Option<Seq<char>>,
    new_refresh: Option<Seq<char>>,
    new_workos: Option<Seq<char>>,
) -> AccountView {
    AccountView {
        token: match new_token {
            Some(t) => t,
            None => a.token,
        },
        refresh_token: match new_refresh {
            Some(t) => Some(t),
            None => a.refresh_token,
        },
        workos_cursor_session_token: match new_workos {
            Some(t) => Some(t),
            None => a.workos_cursor_session_token,
        },
        ..a
    }
}

/// The account marked as the current one.
pub open spec fn marked_current(a: AccountView) -> AccountView {
    AccountView { is_current: true, ..a }
}

/// The account that `get_current_account` reports.
pub open spec fn spec_current_account(
    token: Option<Seq<char>>,
    accounts: Option<Seq<AccountView>>,
    email: Option<Seq<char>>,
    created_at: Seq<char>,
) -> Option<AccountView> {
    match token {
        None => None,
        Some(t) => {
            let found = match accounts {
                Some(s) => index_by_token(s, t),
                None => None,
            };
            match found {
                Some(i) => Some(marked_current(accounts->0[i])),
                None => match email {
                    Some(e) => Some(
                        AccountView {
                            email: e,
                            token: t,
                            refresh_token: None,
                            workos_cursor_session_token: None,
                            is_current: true,
                            created_at,
                            is_auto_switch: None,
                            custom_tags: None,
                        },
                    ),
                    None => None,
                },
            }
        },
    }
}

/// The list with each account marked current exactly when its token is `token`.
pub open spec fn marked_by_token(s: Seq<AccountView>, token: Seq<char>) -> Seq<AccountView> {
    Seq::new(s.len(), |i: int| AccountView { is_current: s[i].token == token, ..s[i] })
}

/// The accounts that `get_account_list` reports, when the list was loaded.
pub open spec fn spec_listed_accounts(s: Seq<AccountView>, current: Option<AccountView>) -> Seq<
    AccountView,
> {
    match current {
        None => s,
        Some(c) => {
            let with_current = if index_by_token(s, c.token) is Some {
                s
            } else {
                s.push(c)
            };
            marked_by_token(with_current, c.token)
        },
    }
}

// ---------------------------------------------------------------------------
// Lemmas
// ---------------------------------------------------------------------------

pub proof fn lemma_index_by_email_from(s: Seq<AccountView>, email: Seq<char>, k: int)
    requires
        0 <= k,
    ensures
        index_by_email_from(s, email, k) matches Some(i) ==> k <= i < s.len() && s[i].email
            == email && forall|j: int| k <= j < i ==> s[j].email != email,
        index_by_email_from(s, email, k) is None ==> forall|j: int|
            k <= j < s.len() ==> s[j].email != email,
    decreases s.len() - k,
{
    if k < s.len() && s[k].email != email {
        lemma_index_by_email_from(s, email, k + 1);
    }
}

pub proof fn lemma_index_by_token_from(s: Seq<AccountView>, token: Seq<char>, k: int)
    requires
        0 <= k,
    ensures
        index_by_token_from(s, token, k) matches Some(i) ==> k <= i < s.len() && s[i].token
            == token && forall|j: int| k <= j < i ==> s[j].token != token,
        index_by_token_from(s, token, k) is None ==> forall|j: int|
            k <= j < s.len() ==> s[j].token != token,
    decreases s.len() - k,
{
    if k < s.len() && s[k].token != token {
        lemma_index_by_token_from(s, token, k + 1);
    }
}

pub proof fn lemma_account_views_index(s: Seq<AccountInfo>)
    ensures
        account_views(s).len() == s.len(),
        forall|j: int| 0 <= j < s.len() ==> #[trigger] account_views(s)[j] == s[j]@,
{
}

pub proof fn lemma_account_views_push(s: Seq<AccountInfo>, x: AccountInfo)
    ensures
        account_views(s.push(x)) == account_views(s).push(x@),
{
    assert(account_views(s.push(x)) =~= account_views(s).push(x@)) by {
        assert forall|j: int| 0 <= j < s.len() + 1 implies #[trigger] account_views(s.push(x))[j]
            == account_views(s).push(x@)[j] by {
            if j < s.len() {
                assert(s.push(x)[j] == s[j]);
            }
        }
    }
}

// ---------------------------------------------------------------------------
// Copies
// ---------------------------------------------------------------------------

impl CustomTag {
    pub fn duplicate(&self) -> (r: CustomTag)
        ensures
            r@ == self@,
    {
        CustomTag { text: self.text.clone(), color: self.color.clone() }
    }
}

/// A copy of the tags.
pub fn duplicate_tags(tags: &Vec<CustomTag>) -> (r: Vec<CustomTag>)
    ensures
        tag_views(r@) == tag_views(tags@),
{
    let mut out: Vec<CustomTag> = Vec::new();
    let mut i: usize = 0;
    while i < tags.len()
        invariant
            i <= tags.len(),
            out.len() == i,
            forall|j: int| 0 <= j < i ==> #[trigger] out@[j]@ == tags@[j]@,
        decreases tags.len() - i,
    {
        let t = tags[i].duplicate();
        out.push(t);
        i += 1;
    }
    assert(tag_views(out@) =~= tag_views(tags@)) by {
        assert forall|j: int| 0 <= j < tags.len() implies #[trigger] tag_views(out@)[j]
            == tag_views(tags@)[j] by {
            assert(out@[j]@ == tags@[j]@);
        }
    }
    out
}

pub fn duplicate_opt_string(s: &Option<String>) -> (r: Option<String>)
    ensures
        opt_str_view(r) == opt_str_view(*s),
{
    match s {
        Some(x) => Some(x.clone()),
        None => None,
    }
}

/// A copy of the accounts.
pub fn duplicate_accounts(accounts: &Vec<AccountInfo>) -> (r: Vec<AccountInfo>)
    ensures
        account_views(r@) == account_views(accounts@),
{
    let mut out: Vec<AccountInfo> = Vec::new();
    let mut i: usize = 0;
    while i < accounts.len()
        invariant
            i <= accounts.len(),
            out@.len() == i,
            forall|j: int| 0 <= j < i ==> #[trigger] out@[j]@ == accounts@[j]@,
        decreases accounts.len() - i,
    {
        out.push(accounts[i].duplicate());
        i += 1;
    }
    proof {
        lemma_account_views_index(out@);
        lemma_account_views_index(accounts@);
    }
    assert(account_views(out@) =~= account_views(accounts@));
    out
}

impl AccountInfo {
    /// A copy of this account.
    pub fn duplicate(&self) -> (r: AccountInfo)
        ensures
            r@ == self@,
    {
        AccountInfo {
            email: self.email.clone(),
            token: self.token.clone(),
            refresh_token: duplicate_opt_string(&self.refresh_token),
            workos_cursor_session_token: duplicate_opt_string(&self.workos_cursor_session_token),
            is_current: self.is_current,
            created_at: self.created_at.clone(),
            is_auto_switch: self.is_auto_switch,
            custom_tags: match &self.custom_tags {
                Some(t) => Some(duplicate_tags(t)),
                None => None,
            },
        }
    }
}

// ---------------------------------------------------------------------------
// Account-list operations
// ---------------------------------------------------------------------------

impl AccountManager {
    pub fn new() -> (r: Self) {
        AccountManager
    }

    /// The position of the first account with `email`.
    pub fn find_account_by_email(accounts: &Vec<AccountInfo>, email: &str) -> (r: Option<usize>)
        ensures
            match r {
                Some(i) => index_by_email(account_views(accounts@), email@) == Some(i as int)
                    && i < accounts.len(),
                None => index_by_email(account_views(accounts@), email@) is None,
            },
    {
        let ghost s = account_views(accounts@);
        proof {
            lemma_index_by_email_from(s, email@, 0);
        }
        let mut i: usize = 0;
        while i < accounts.len()
            invariant
                s == account_views(accounts@),
                i <= accounts.len(),
                index_by_email(s, email@) == index_by_email_from(s, email@, i as int),
            decreases accounts.len() - i,
        {
            if str_eq(accounts[i].email.as_str(), email) {
                assert(s[i as int].email == email@);
                return Some(i);
            }
            i += 1;
        }
        None
    }

    /// The position of the first account with `token`.
    pub fn find_account_by_token(accounts: &Vec<AccountInfo>, token: &str) -> (r: Option<usize>)
        ensures
            match r {
                Some(i) => index_by_token(account_views(accounts@), token@) == Some(i as int)
                    && i < accounts.len(),
                None => index_by_token(account_views(accounts@), token@) is None,
            },
    {
        let ghost s = account_views(accounts@);
        proof {
            lemma_index_by_token_from(s, token@, 0);
        }
        let mut i: usize = 0;
        while i < accounts.len()
            invariant
                s == account_views(accounts@),
                i <= accounts.len(),
                index_by_token(s, token@) == index_by_token_from(s, token@, i as int),
            decreases accounts.len() - i,
        {
            if str_eq(accounts[i].token.as_str(), token) {
                assert(s[i as int].token == token@);
                return Some(i);
            }
            i += 1;
        }
        None
    }

    /// Adds a new account at the end of the list. Refused when the email is blank or already
    /// saved; the list is then unchanged.
    pub fn add_account(
        accounts: &mut Vec<AccountInfo>,
        email: String,
        token: String,
        refresh_token: Option<String>,
        workos_cursor_session_token: Option<String>,
        created_at: String,
    ) -> (r: Result<(), AccountError>)
        ensures
            spec_trim(email@).len() == 0 ==> r == Err::<(), AccountError>(AccountError::EmptyEmail),
            spec_trim(email@).len() != 0 && index_by_email(account_views(old(accounts)@), email@)
                is Some ==> r == Err::<(), AccountError>(AccountError::AlreadyExists),
            spec_trim(email@).len() != 0 && index_by_email(account_views(old(accounts)@), email@)
                is None ==> r is Ok,
            r is Err ==> final(accounts)@ == old(accounts)@,
            r is Ok ==> account_views(final(accounts)@) == account_views(old(accounts)@).push(
                new_account_view(
                    email@,
                    token@,
                    opt_str_view(refresh_token),
                    opt_str_view(workos_cursor_session_token),
                    created_at@,
                ),
            ),
    {
        let trimmed = trim(email.as_str());
        if trimmed.as_str().is_empty() {
            return Err(AccountError::EmptyEmail);
        }
        if Self::find_account_by_email(accounts, email.as_str()).is_some() {
            return Err(AccountError::AlreadyExists);
        }
        let ghost before = accounts@;
        let ghost nv = new_account_view(
            email@,
            token@,
            opt_str_view(refresh_token),
            opt_str_view(workos_cursor_session_token),
            created_at@,
        );
        let account = AccountInfo {
            email,
            token,
            refresh_token,
            workos_cursor_session_token,
            is_current: false,
            created_at,
            is_auto_switch: None,
            custom_tags: None,
        };
        accounts.push(account);
        assert(account_views(accounts@) =~= account_views(before).push(nv));
        Ok(())
    }

    /// Replaces the token, refresh token and session token of the first account with `email`
    /// by those given. `Ok(true)` when at least one value was given (the list is then to be
    /// saved), `Ok(false)` when none was.
    pub fn edit_account(
        accounts: &mut Vec<AccountInfo>,
        email: &str,
        new_token: Option<String>,
        new_refresh_token: Option<String>,
        new_workos_cursor_session_token: Option<String>,
    ) -> (r: Result<bool, AccountError>)
        ensures
            index_by_email(account_views(old(accounts)@), email@) is None ==> r == Err::<
                bool,
                AccountError,
            >(AccountError::NotFound) && final(accounts)@ == old(accounts)@,
            index_by_email(account_views(old(accounts)@), email@) matches Some(i) ==> {
                &&& r == Ok::<bool, AccountError>(
                    new_token is Some || new_refresh_token is Some
                        || new_workos_cursor_session_token is Some,
                )
                &&& account_views(final(accounts)@) == account_views(old(accounts)@).update(
                    i,
                    edited_view(
                        account_views(old(accounts)@)[i],
                        opt_str_view(new_token),
                        opt_str_view(new_refresh_token),
                        opt_str_view(new_workos_cursor_session_token),
                    ),
                )
            },
    {
        match Self::find_account_by_email(accounts, email) {
            None => Err(AccountError::NotFound),
            Some(i) => {
                let updated = new_token.is_some() || new_refresh_token.is_some()
                    || new_workos_cursor_session_token.is_some();
                let ghost before = account_views(accounts@);
                let ghost ev = edited_view(
                    before[i as int],
                    opt_str_view(new_token),
                    opt_str_view(new_refresh_token),
                    opt_str_view(new_workos_cursor_session_token),
                );
                let mut acc = accounts.remove(i);
                if let Some(t) = new_token {
                    acc.token = t;
                }
                if let Some(t) = new_refresh_token {
                    acc.refresh_token = Some(t);
                }
                if let Some(t) = new_workos_cursor_session_token {
                    acc.workos_cursor_session_token = Some(t);
                }
                assert(acc@ == ev);
                accounts.insert(i, acc);
                assert(account_views(accounts@) =~= before.update(i as int, ev));
                Ok(updated)
            },
        }
    }

    /// Sets the tags of the first account with `email`.
    pub fn update_custom_tags(
        accounts: &mut Vec<AccountInfo>,
        email: &str,
        custom_tags: Vec<CustomTag>,
    ) -> (r: Result<(), AccountError>)
        ensures
            index_by_email(account_views(old(accounts)@), email@) is None ==> r == Err::<
                (),
                AccountError,
            >(AccountError::NotFound) && final(accounts)@ == old(accounts)@,
            index_by_email(account_views(old(accounts)@), email@) matches Some(i) ==> r is Ok
                && account_views(final(accounts)@) == account_views(old(accounts)@).update(
                i,
                (AccountView {
                    custom_tags: Some(tag_views(custom_tags@)),
                    ..account_views(old(accounts)@)[i]
                }),
            ),
    {
        match Self::find_account_by_email(accounts, email) {
            None => Err(AccountError::NotFound),
            Some(i) => {
                let ghost before = account_views(accounts@);
                let ghost tv = tag_views(custom_tags@);
                let mut acc = accounts.remove(i);
                acc.custom_tags = Some(custom_tags);
                let ghost av = acc@;
                accounts.insert(i, acc);
                assert(account_views(accounts@) =~= before.update(
                    i as int,
                    AccountView { custom_tags: Some(tv), ..before[i as int] },
                ));
                Ok(())
            },
        }
    }

    /// Removes every account with `email`; refused when there is none.
    pub fn remove_account(accounts: &mut Vec<AccountInfo>, email: &str) -> (r: Result<
        (),
        AccountError,
    >)
        ensures
            index_by_email(account_views(old(accounts)@), email@) is None ==> r == Err::<
                (),
                AccountError,
            >(AccountError::NotFound) && final(accounts)@ == old(accounts)@,
            index_by_email(account_views(old(accounts)@), email@) is Some ==> r is Ok
                && account_views(final(accounts)@) == account_views(old(accounts)@).filter(
                |a: AccountView| a.email != email@,
            ),
    {
        if Self::find_account_by_email(accounts, email).is_none() {
            return Err(AccountError::NotFound);
        }
        let ghost before = account_views(accounts@);
        let ghost keep = |a: AccountView| a.email != email@;
        let mut kept: Vec<AccountInfo> = Vec::new();
        let mut rest: Vec<AccountInfo> = Vec::new();
        std::mem::swap(&mut rest, accounts);
        assert(account_views(rest@) == before);
        let mut i: usize = 0;
        let total = rest.len();
        proof {
            lemma_account_views_index(rest@);
        }
        assert(before.take(0).filter(keep) =~= Seq::<AccountView>::empty());
        assert(account_views(kept@) =~= Seq::<AccountView>::empty());
        while rest.len() > 0
            invariant
                total == before.len(),
                keep == (|a: AccountView| a.email != email@),
                i + rest.len() == total,
                forall|j: int| 0 <= j < rest.len() ==> #[trigger] rest@[j]@ == before[i + j],
                account_views(kept@) == before.take(i as int).filter(keep),
            decreases rest.len(),
        {
            let ghost old_rest = rest@;
            let a = rest.remove(0);
            assert(a@ == before[i as int]) by {
                assert(old_rest[0]@ == before[i + 0]);
            }
            assert(before.take(i + 1).drop_last() =~= before.take(i as int));
            assert(before.take(i + 1).last() == before[i as int]);
            proof {
                before.take(i as int).lemma_filter_push(before[i as int], keep);
                assert(before.take(i + 1) =~= before.take(i as int).push(before[i as int]));
            }
            let keep_it = !str_eq(a.email.as_str(), email);
            assert(keep_it == keep(before[i as int]));
            let ghost old_kept = kept@;
            if keep_it {
                kept.push(a);
                proof {
                    lemma_account_views_push(old_kept, a);
                }
            }
            assert(account_views(kept@) == before.take(i + 1).filter(keep));
            i += 1;
            assert forall|j: int| 0 <= j < rest.len() implies #[trigger] rest@[j]@ == before[i + j] by {
                assert(rest@[j] == old_rest[j + 1]);
            }
        }
        assert(before.take(total as int) =~= before);
        *accounts = kept;
        Ok(())
    }

    /// The account that Cursor is logged in with: none without a current `token`; the saved
    /// account with that token, marked current; else, when Cursor's email is known, a new
    /// account record for that email and token.
    pub fn get_current_account(
        token: Option<String>,
        accounts: Option<&Vec<AccountInfo>>,
        email: Option<String>,
        created_at: String,
    ) -> (r: Option<AccountInfo>)
        ensures
            opt_account_view(r) == spec_current_account(
                opt_str_view(token),
                match accounts {
                    Some(a) => Some(account_views(a@)),
                    None => None,
                },
                opt_str_view(email),
                created_at@,
            ),
    {
        match token {
            None => None,
            Some(t) => {
                let found = match accounts {
                    Some(list) => match Self::find_account_by_token(list, t.as_str()) {
                        Some(i) => {
                            let mut a = list[i].duplicate();
                            a.is_current = true;
                            Some(a)
                        },
                        None => None,
                    },
                    None => None,
                };
                match found {
                    Some(a) => Some(a),
                    None => match email {
                        Some(e) => Some(
                            AccountInfo {
                                email: e,
                                token: t,
                                refresh_token: None,
                                workos_cursor_session_token: None,
                                is_current: true,
                                created_at,
                                is_auto_switch: None,
                                custom_tags: None,
                            },
                        ),
                        None => None,
                    },
                }
            },
        }
    }

    /// The account list as the account page shows it. With a loaded list and a current
    /// account, the current account is added when no saved account has its token, and each
    /// account is marked current exactly when its token is the current one. The second part
    /// of the result is the list to save when the current account was added: the loaded
    /// list with the current account at the end, before the marking.
    pub fn get_account_list(
        loaded: Result<Vec<AccountInfo>, String>,
        current_account: Option<AccountInfo>,
    ) -> (r: (AccountListResult, Option<Vec<AccountInfo>>))
        ensures
            match loaded {
                Ok(list) => {
                    &&& r.0.success
                    &&& account_views(r.0.accounts@) == spec_listed_accounts(
                        account_views(list@),
                        opt_account_view(current_account),
                    )
                    &&& opt_account_view(r.0.current_account) == opt_account_view(current_account)
                    &&& r.0.message@ == "Account list loaded successfully"@
                    &&& match current_account {
                        Some(c) => if index_by_token(account_views(list@), c.token@) is None {
                            r.1 matches Some(saved) && account_views(saved@) == account_views(
                                list@,
                            ).push(c@)
                        } else {
                            r.1 is None
                        },
                        None => r.1 is None,
                    }
                },
                Err(e) => {
                    &&& !r.0.success
                    &&& r.0.accounts@.len() == 0
                    &&& r.0.current_account is None
                    &&& r.0.message@ == "Failed to load accounts: "@ + e@
                    &&& r.1 is None
                },
            },
    {
        match loaded {
            Err(e) => {
                let message = concat("Failed to load accounts: ", e.as_str());
                (
                    AccountListResult {
                        success: false,
                        accounts: Vec::new(),
                        current_account: None,
                        message,
                    },
                    None,
                )
            },
            Ok(list) => {
                let mut accounts = list;
                let mut to_save: Option<Vec<AccountInfo>> = None;
                let ghost original = account_views(accounts@);
                match &current_account {
                    Some(cur) => {
                        if Self::find_account_by_token(&accounts, cur.token.as_str()).is_none() {
                            accounts.push(cur.duplicate());
                            assert(account_views(accounts@) =~= original.push(cur@));
                            let saved = duplicate_accounts(&accounts);
                            to_save = Some(saved);
                        }
                        let ghost with_current = account_views(accounts@);
                        proof {
                            lemma_account_views_index(accounts@);
                        }
                        let mut i: usize = 0;
                        while i < accounts.len()
                            invariant
                                i <= accounts.len(),
                                with_current.len() == accounts.len(),
                                forall|j: int|
                                    0 <= j < i ==> #[trigger] accounts@[j]@ == (AccountView {
                                        is_current: with_current[j].token == cur.token@,
                                        ..with_current[j]
                                    }),
                                forall|j: int|
                                    i <= j < accounts.len() ==> #[trigger] accounts@[j]@
                                        == with_current[j],
                            decreases accounts.len() - i,
                        {
                            let ghost before_step = accounts@;
                            let mut a = accounts.remove(i);
                            assert(a@ == with_current[i as int]);
                            a.is_current = str_eq(a.token.as_str(), cur.token.as_str());
                            assert(a@ == (AccountView {
                                is_current: with_current[i as int].token == cur.token@,
                                ..with_current[i as int]
                            }));
                            accounts.insert(i, a);
                            assert(accounts@ =~= before_step.update(i as int, a));
                            i += 1;
                        }
                        proof {
                            lemma_account_views_index(accounts@);
                        }
                        assert(account_views(accounts@) =~= marked_by_token(
                            with_current,
                            cur.token@,
                        ));
                    },
                    None => {},
                }
                let message = owned("Account list loaded successfully");
                (
                    AccountListResult {
                        success: true,
                        accounts,
                        current_account,
                        message,
                    },
                    to_save,
                )
            },
        }
    }
}


// ---------------------------------------------------------------------------
// Laws of the account list
// ---------------------------------------------------------------------------

proof fn lemma_filter_keeps_all(s: Seq<AccountView>, email: Seq<char>)
    requires
        forall|j: int| 0 <= j < s.len() ==> s[j].email != email,
    ensures
        s.filter(|a: AccountView| a.email != email) == s,
    decreases s.len(),
{
    reveal(Seq::filter);
    if s.len() > 0 {
        lemma_filter_keeps_all(s.drop_last(), email);
        assert(s.drop_last().push(s.last()) =~= s);
    }
}

/// Editing an account replaces each field that is given a new value with that value (a new
/// refresh or session token becomes the stored one) and keeps every field that is not given, as
/// well as the email, the creation time, the flags and the tags.
pub proof fn lemma_edit_replaces_given_fields(
    a: AccountView,
    new_token: Option<Seq<char>>,
    new_refresh: Option<Seq<char>>,
    new_workos: Option<Seq<char>>,
)
    ensures
        ({
            let e = edited_view(a, new_token, new_refresh, new_workos);
            &&& new_token matches Some(t) ==> e.token == t
            &&& new_token is None ==> e.token == a.token
            &&& new_refresh matches Some(t) ==> e.refresh_token == Some(t)
            &&& new_refresh is None ==> e.refresh_token == a.refresh_token
            &&& new_workos matches Some(t) ==> e.workos_cursor_session_token == Some(t)
            &&& new_workos is None ==> e.workos_cursor_session_token == a.workos_cursor_session_token
            &&& e.email == a.email
            &&& e.is_current == a.is_current
            &&& e.created_at == a.created_at
            &&& e.is_auto_switch == a.is_auto_switch
            &&& e.custom_tags == a.custom_tags
        }),
{
}

/// Removing an account that was just added gives back the list as it was before.
pub proof fn lemma_remove_undoes_add(
    s: Seq<AccountView>,
    email: Seq<char>,
    token: Seq<char>,
    refresh_token: Option<Seq<char>>,
    workos: Option<Seq<char>>,
    created_at: Seq<char>,
)
    requires
        index_by_email(s, email) is None,
    ensures
        s.push(new_account_view(email, token, refresh_token, workos, created_at)).filter(
            |a: AccountView| a.email != email,
        ) == s,
{
    lemma_index_by_email_from(s, email, 0);
    let t = s.push(new_account_view(email, token, refresh_token, workos, created_at));
    reveal(Seq::filter);
    assert(t.drop_last() =~= s);
    lemma_filter_keeps_all(s, email);
}

/// An account that was just added is the one found by its email, at the end of the list.
pub proof fn lemma_added_is_found(
    s: Seq<AccountView>,
    email: Seq<char>,
    token: Seq<char>,
    refresh_token: Option<Seq<char>>,
    workos: Option<Seq<char>>,
    created_at: Seq<char>,
)
    requires
        index_by_email(s, email) is None,
    ensures
        index_by_email(s.push(new_account_view(email, token, refresh_token, workos, created_at)), email) == Some(
            s.len() as int,
        ),
{
    let t = s.push(new_account_view(email, token, refresh_token, workos, created_at));
    lemma_index_by_email_from(s, email, 0);
    lemma_index_by_email_from(t, email, 0);
    match index_by_email(t, email) {
        Some(i) => {
            if i < s.len() {
                assert(t[i] == s[i]);
            }
        },
        None => {
            assert(t[s.len() as int].email == email);
        },
    }
}

/// After removing an email, no account with it is left.
pub proof fn lemma_removed_is_gone(s: Seq<AccountView>, email: Seq<char>)
    ensures
        index_by_email(s.filter(|a: AccountView| a.email != email), email) is None,
{
    let f = s.filter(|a: AccountView| a.email != email);
    assert forall|j: int| 0 <= j < f.len() implies f[j].email != email by {
        s.lemma_filter_pred(|a: AccountView| a.email != email, j);
    }
    lemma_index_by_email_from(f, email, 0);
}

/// The listed accounts hold the current account, and exactly the accounts with its token are
/// marked current.
pub proof fn lemma_listed_marks_current(s: Seq<AccountView>, c: AccountView)
    ensures
        ({
            let l = spec_listed_accounts(s, Some(c));
            &&& exists|i: int| 0 <= i < l.len() && #[trigger] l[i].token == c.token
            &&& forall|i: int| 0 <= i < l.len() ==> (#[trigger] l[i].is_current <==> l[i].token == c.token)
        }),
{
    let l = spec_listed_accounts(s, Some(c));
    lemma_index_by_token_from(s, c.token, 0);
    match index_by_token(s, c.token) {
        Some(i) => {
            assert(l[i].token == c.token);
        },
        None => {
            let w = s.push(c);
            assert(w[s.len() as int] == c);
            assert(l[s.len() as int].token == c.token);
        },
    }
}

} // verus!
