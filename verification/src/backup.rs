//! Backups of Cursor's settings and workspace storage: their names and kinds, what a backup or a
//! restore does for each kind, the list of backups (newest first), the tasks that can be
//! cancelled, and what is shown of a workspace.
use vstd::prelude::*;
use crate::json::{JsonValue, Json, opt_model};
use crate::text::{
    owned, concat, concat3, str_eq, contains, starts_with, ends_with, chars_of, string_from_chars,
    last_piece, spec_contains, spec_starts_with, spec_ends_with, spec_last_piece,
};
use crate::outside::{to_lowercase, spec_lowercase};
use crate::conversations::ConversationData;
use crate::sorting::{insert_sorted, sort_stable, lemma_insert_sorted_at};
use crate::keyed::{
    unique_keys, to_map, lemma_to_map_lookup, lemma_to_map_update, lemma_to_map_remove,
    lemma_to_map_push,
};

verus! {

// ---------------------------------------------------------------------------
// What is backed up
// ---------------------------------------------------------------------------

/// What a Cursor path holds: whether it exists, and its size, last change and item count
/// where they were read.
pub struct CursorPathInfo {
    pub exists: bool,
    pub path: String,
    pub size: Option<u64>,
    pub last_modified: Option<String>,
    pub item_count: Option<usize>,
}

/// The settings file and the workspace storage directory.
pub struct CursorBackupInfo {
    pub cursor_settings: CursorPathInfo,
    pub workspace_storage: CursorPathInfo,
}

/// The settings file at `path`: with its size and modification time when it exists
/// (`meta`), else only its path.
pub fn settings_path_info(path: String, meta: Option<(u64, Option<String>)>) -> (r: CursorPathInfo)
    ensures
        r.path@ == path@,
        r.exists == meta is Some,
        r.item_count is None,
        match meta {
            Some(m) => r.size == Some(m.0) && crate::json::opt_str_view(r.last_modified)
                == crate::json::opt_str_view(m.1),
            None => r.size is None && r.last_modified is None,
        },
{
    match meta {
        Some(m) => CursorPathInfo { exists: true, path: path, size: Some(m.0), last_modified: m.1, item_count: None },
        None => CursorPathInfo { exists: false, path: path, size: None, last_modified: None, item_count: None },
    }
}

/// The workspace storage at `path`: with its total size, directory count and modification time
/// when it is an existing directory (`stats`), else only its path.
pub fn workspace_path_info(path: String, stats: Option<(u64, usize, Option<String>)>) -> (r: CursorPathInfo)
    ensures
        r.path@ == path@,
        r.exists == stats is Some,
        match stats {
            Some(s) => r.size == Some(s.0) && r.item_count == Some(s.1) && crate::json::opt_str_view(
                r.last_modified,
            ) == crate::json::opt_str_view(s.2),
            None => r.size is None && r.last_modified is None && r.item_count is None,
        },
{
    match stats {
        Some(s) => CursorPathInfo { exists: true, path: path, size: Some(s.0), last_modified: s.2, item_count: Some(s.1) },
        None => CursorPathInfo { exists: false, path: path, size: None, last_modified: None, item_count: None },
    }
}

/// The three kinds of backup.
#[derive(PartialEq, Eq, Structural, Clone, Copy)]
pub enum BackupKind {
    Full,
    Settings,
    Workspace,
}

pub open spec fn kind_label(k: BackupKind) -> Seq<char> {
    match k {
        BackupKind::Full => "full"@,
        BackupKind::Settings => "settings"@,
        BackupKind::Workspace => "workspace"@,
    }
}

impl BackupKind {
    /// "full", "settings" or "workspace".
    pub fn label(&self) -> (r: String)
        ensures
            r@ == kind_label(*self),
    {
        match self {
            BackupKind::Full => owned("full"),
            BackupKind::Settings => owned("settings"),
            BackupKind::Workspace => owned("workspace"),
        }
    }

    /// Whether this kind holds the settings file.
    pub fn covers_settings(&self) -> (r: bool)
        ensures
            r == (*self == BackupKind::Full || *self == BackupKind::Settings),
    {
        match self {
            BackupKind::Workspace => false,
            _ => true,
        }
    }

    /// Whether this kind holds the workspace storage.
    pub fn covers_workspace(&self) -> (r: bool)
        ensures
            r == (*self == BackupKind::Full || *self == BackupKind::Workspace),
    {
        match self {
            BackupKind::Settings => false,
            _ => true,
        }
    }
}

pub open spec fn spec_parse_backup_type(s: Seq<char>) -> Option<BackupKind> {
    if s == "full"@ {
        Some(BackupKind::Full)
    } else if s == "settings"@ {
        Some(BackupKind::Settings)
    } else if s == "workspace"@ {
        Some(BackupKind::Workspace)
    } else {
        None
    }
}

/// The kind that a requested backup type names, if any.
pub fn parse_backup_type(s: &str) -> (r: Option<BackupKind>)
    ensures
        r == spec_parse_backup_type(s@),
{
    if str_eq(s, "full") {
        Some(BackupKind::Full)
    } else if str_eq(s, "settings") {
        Some(BackupKind::Settings)
    } else if str_eq(s, "workspace") {
        Some(BackupKind::Workspace)
    } else {
        None
    }
}

/// The name of a backup of type `backup_type` taken at `timestamp` ("%Y%m%d_%H%M%S").
pub open spec fn spec_backup_name(backup_type: Seq<char>, timestamp: Seq<char>) -> Seq<char> {
    "cursor_backup_"@ + backup_type + "_"@ + timestamp
}

pub fn backup_name(backup_type: &str, timestamp: &str) -> (r: String)
    ensures
        r@ == spec_backup_name(backup_type@, timestamp@),
{
    let head = concat("cursor_backup_", backup_type);
    concat3(head.as_str(), "_", timestamp)
}

/// The file that holds the backup `name`.
pub fn archive_file_name(name: &str) -> (r: String)
    ensures
        r@ == name@ + ".tar.gz"@,
{
    concat(name, ".tar.gz")
}

/// The kind of a backup, read from its name: "_full_", else "_settings_", else "_workspace_".
pub open spec fn spec_kind_from_name(name: Seq<char>) -> Option<BackupKind> {
    if spec_contains(name, "_full_"@) {
        Some(BackupKind::Full)
    } else if spec_contains(name, "_settings_"@) {
        Some(BackupKind::Settings)
    } else if spec_contains(name, "_workspace_"@) {
        Some(BackupKind::Workspace)
    } else {
        None
    }
}

pub fn backup_kind_from_name(name: &str) -> (r: Option<BackupKind>)
    ensures
        r == spec_kind_from_name(name@),
{
    if contains(name, "_full_") {
        Some(BackupKind::Full)
    } else if contains(name, "_settings_") {
        Some(BackupKind::Settings)
    } else if contains(name, "_workspace_") {
        Some(BackupKind::Workspace)
    } else {
        None
    }
}

pub open spec fn spec_type_label(name: Seq<char>) -> Seq<char> {
    match spec_kind_from_name(name) {
        Some(k) => kind_label(k),
        None => "unknown"@,
    }
}

/// The type shown for a listed backup: its kind, or "unknown".
pub fn backup_type_label(name: &str) -> (r: String)
    ensures
        r@ == spec_type_label(name@),
{
    match backup_kind_from_name(name) {
        Some(k) => k.label(),
        None => owned("unknown"),
    }
}

/// The backup that a file in the backup directory holds: a file named "<name>.tar.gz" whose
/// name starts with "cursor_backup_".
pub open spec fn spec_list_name(file_name: Seq<char>) -> Option<Seq<char>> {
    if spec_ends_with(file_name, ".tar.gz"@) && spec_starts_with(
        file_name.subrange(0, file_name.len() - 7),
        "cursor_backup_"@,
    ) {
        Some(file_name.subrange(0, file_name.len() - 7))
    } else {
        None
    }
}

pub fn backup_list_name(file_name: &str) -> (r: Option<String>)
    ensures
        crate::json::opt_str_view(r) == spec_list_name(file_name@),
{
    proof {
        reveal_strlit(".tar.gz");
    }
    if !ends_with(file_name, ".tar.gz") {
        return None;
    }
    let v = chars_of(file_name);
    let stem = string_from_chars(&v, 0, v.len() - 7);
    if starts_with(stem.as_str(), "cursor_backup_") {
        Some(stem)
    } else {
        None
    }
}

/// What a backup, a restore and the plan of either fail with.
pub open spec fn spec_backup_plan(backup_type: Seq<char>, settings_exists: bool, workspace_exists: bool) -> Result<(bool, bool), Seq<char>> {
    match spec_parse_backup_type(backup_type) {
        Some(BackupKind::Full) => Ok((settings_exists, workspace_exists)),
        Some(BackupKind::Settings) => if settings_exists {
            Ok((true, false))
        } else {
            Err("Cursor 设置文件不存在"@)
        },
        Some(BackupKind::Workspace) => if workspace_exists {
            Ok((false, true))
        } else {
            Err("Cursor 工作区存储不存在"@)
        },
        None => Err("不支持的备份类型: "@ + backup_type),
    }
}

/// Which parts a backup of type `backup_type` archives: (settings, workspace). A full backup
/// takes what exists; a partial one fails when its part is missing; another type fails.
pub fn backup_plan(backup_type: &str, settings_exists: bool, workspace_exists: bool) -> (r: Result<(bool, bool), String>)
    ensures
        match r {
            Ok(p) => spec_backup_plan(backup_type@, settings_exists, workspace_exists) == Ok::<(bool, bool), Seq<char>>(p),
            Err(e) => spec_backup_plan(backup_type@, settings_exists, workspace_exists) == Err::<(bool, bool), Seq<char>>(e@),
        },
{
    match parse_backup_type(backup_type) {
        Some(BackupKind::Full) => Ok((settings_exists, workspace_exists)),
        Some(BackupKind::Settings) => if settings_exists {
            Ok((true, false))
        } else {
            Err(owned("Cursor 设置文件不存在"))
        },
        Some(BackupKind::Workspace) => if workspace_exists {
            Ok((false, true))
        } else {
            Err(owned("Cursor 工作区存储不存在"))
        },
        None => Err(concat("不支持的备份类型: ", backup_type)),
    }
}

/// The kind of the backup `name` to restore; `Err("无法识别备份类型")` when its name shows none.
pub fn restore_kind(name: &str) -> (r: Result<BackupKind, String>)
    ensures
        match r {
            Ok(k) => spec_kind_from_name(name@) == Some(k),
            Err(e) => spec_kind_from_name(name@) is None && e@ == "无法识别备份类型"@,
        },
{
    match backup_kind_from_name(name) {
        Some(k) => Ok(k),
        None => Err(owned("无法识别备份类型")),
    }
}

pub open spec fn spec_restore_moves(kind: BackupKind, has_settings: bool, has_workspace: bool) -> Result<(bool, bool), Seq<char>> {
    let wants_settings = kind == BackupKind::Full || kind == BackupKind::Settings;
    let wants_workspace = kind == BackupKind::Full || kind == BackupKind::Workspace;
    if wants_settings && !has_settings && kind == BackupKind::Settings {
        Err("备份文件中未找到设置文件"@)
    } else if wants_workspace && !has_workspace && kind == BackupKind::Workspace {
        Err("备份文件中未找到工作区目录"@)
    } else {
        Ok((wants_settings && has_settings, wants_workspace && has_workspace))
    }
}

/// Which unpacked parts a restore moves into place: (settings, workspace). A partial restore
/// fails when the archive lacks its part; a full one moves what it finds.
pub fn restore_moves(kind: BackupKind, has_settings: bool, has_workspace: bool) -> (r: Result<(bool, bool), String>)
    ensures
        match r {
            Ok(p) => spec_restore_moves(kind, has_settings, has_workspace) == Ok::<(bool, bool), Seq<char>>(p),
            Err(e) => spec_restore_moves(kind, has_settings, has_workspace) == Err::<(bool, bool), Seq<char>>(e@),
        },
{
    let wants_settings = kind.covers_settings();
    let wants_workspace = kind.covers_workspace();
    if wants_settings && !has_settings && kind == BackupKind::Settings {
        return Err(owned("备份文件中未找到设置文件"));
    }
    if wants_workspace && !has_workspace && kind == BackupKind::Workspace {
        return Err(owned("备份文件中未找到工作区目录"));
    }
    Ok((wants_settings && has_settings, wants_workspace && has_workspace))
}

pub open spec fn restored_content(kind: BackupKind) -> Seq<char> {
    match kind {
        BackupKind::Full => "完整数据（设置和对话记录）"@,
        BackupKind::Settings => "设置文件"@,
        BackupKind::Workspace => "对话记录"@,
    }
}

pub open spec fn spec_restore_message(kind: BackupKind, cursor_was_running: bool) -> Seq<char> {
    if cursor_was_running {
        "恢复"@ + restored_content(kind) + "成功，Cursor 已自动重启"@
    } else {
        "恢复"@ + restored_content(kind) + "成功，请启动 Cursor 使配置生效"@
    }
}

/// The message of a finished restore.
pub fn restore_success_message(kind: BackupKind, cursor_was_running: bool) -> (r: String)
    ensures
        r@ == spec_restore_message(kind, cursor_was_running),
{
    let content = match kind {
        BackupKind::Full => owned("完整数据（设置和对话记录）"),
        BackupKind::Settings => owned("设置文件"),
        BackupKind::Workspace => owned("对话记录"),
    };
    if cursor_was_running {
        concat3("恢复", content.as_str(), "成功，Cursor 已自动重启")
    } else {
        concat3("恢复", content.as_str(), "成功，请启动 Cursor 使配置生效")
    }
}

// ---------------------------------------------------------------------------
// Errors
// ---------------------------------------------------------------------------

/// Whether a lowercased error text speaks of permissions.
pub open spec fn permission_words(lower: Seq<char>) -> bool {
    spec_contains(lower, "permission"@) || spec_contains(lower, "access"@) || spec_contains(
        lower,
        "denied"@,
    ) || spec_contains(lower, "权限"@) || spec_contains(lower, "访问"@)
}

/// Whether an I/O error is a permission error: its kind says so (`kind_denied`), or its text,
/// lowercased, speaks of permission, access or denial.
pub fn is_permission_error(kind_denied: bool, message: &str) -> (r: bool)
    ensures
        r == (kind_denied || permission_words(spec_lowercase(message@))),
{
    if kind_denied {
        return true;
    }
    let lower = to_lowercase(message);
    let l = lower.as_str();
    contains(l, "permission") || contains(l, "access") || contains(l, "denied") || contains(l, "权限")
        || contains(l, "访问")
}

pub open spec fn spec_settings_append_error(message: Seq<char>) -> Seq<char> {
    let lower = spec_lowercase(message);
    if spec_contains(lower, "permission"@) || spec_contains(lower, "access"@) || spec_contains(
        lower,
        "denied"@,
    ) {
        "权限不足，无法备份设置文件。请以管理员权限运行应用或检查 Cursor 目录权限。错误: "@ + message
    } else {
        "添加设置文件到备份失败: "@ + message
    }
}

/// The error of a failed archiving of the settings file, from the error's text.
pub fn settings_append_error(message: &str) -> (r: String)
    ensures
        r@ == spec_settings_append_error(message@),
{
    let lower = to_lowercase(message);
    let l = lower.as_str();
    if contains(l, "permission") || contains(l, "access") || contains(l, "denied") {
        concat("权限不足，无法备份设置文件。请以管理员权限运行应用或检查 Cursor 目录权限。错误: ", message)
    } else {
        concat("添加设置文件到备份失败: ", message)
    }
}


// ---------------------------------------------------------------------------
// The list of backups, newest first
// ---------------------------------------------------------------------------

/// A backup in the backup directory.
pub struct BackupListItem {
    pub name: String,
    pub created_at: String,
    pub size: u64,
    pub backup_type: String,
}

pub struct BackupListItemView {
    pub name: Seq<char>,
    pub created_at: Seq<char>,
    pub size: u64,
    pub backup_type: Seq<char>,
}

impl View for BackupListItem {
    type V = BackupListItemView;

    open spec fn view(&self) -> BackupListItemView {
        BackupListItemView {
            name: self.name@,
            created_at: self.created_at@,
            size: self.size,
            backup_type: self.backup_type@,
        }
    }
}

pub open spec fn backup_views(s: Seq<BackupListItem>) -> Seq<BackupListItemView> {
    s.map_values(|b: BackupListItem| b@)
}

/// The entry for the file `file_name` of the backup directory, created at `created_at`
/// (RFC 3339) and `size` bytes long; none for a file that holds no backup.
pub fn backup_list_item(file_name: &str, created_at: String, size: u64) -> (r: Option<BackupListItem>)
    ensures
        match spec_list_name(file_name@) {
            Some(n) => r matches Some(item) && item@ == (BackupListItemView {
                name: n,
                created_at: created_at@,
                size: size,
                backup_type: spec_type_label(n),
            }),
            None => r is None,
        },
{
    match backup_list_name(file_name) {
        Some(name) => {
            let t = backup_type_label(name.as_str());
            Some(BackupListItem { name: name, created_at: created_at, size: size, backup_type: t })
        },
        None => None,
    }
}

/// `a` comes before `b` in the order of `str` comparison (by character, a prefix first).
pub open spec fn lex_lt(a: Seq<char>, b: Seq<char>) -> bool
    decreases a.len(),
{
    if a.len() == 0 {
        b.len() > 0
    } else if b.len() == 0 {
        false
    } else if a[0] != b[0] {
        a[0] < b[0]
    } else {
        lex_lt(a.drop_first(), b.drop_first())
    }
}

proof fn lemma_lex_irreflexive(a: Seq<char>)
    ensures
        !lex_lt(a, a),
    decreases a.len(),
{
    if a.len() > 0 {
        lemma_lex_irreflexive(a.drop_first());
    }
}

proof fn lemma_lex_transitive(a: Seq<char>, b: Seq<char>, c: Seq<char>)
    requires
        lex_lt(a, b),
        lex_lt(b, c),
    ensures
        lex_lt(a, c),
    decreases a.len(),
{
    if a.len() > 0 && b.len() > 0 && c.len() > 0 && a[0] == b[0] && b[0] == c[0] {
        lemma_lex_transitive(a.drop_first(), b.drop_first(), c.drop_first());
    }
}

proof fn lemma_lex_total(a: Seq<char>, b: Seq<char>)
    ensures
        a == b || lex_lt(a, b) || lex_lt(b, a),
    decreases a.len(),
{
    if a.len() == 0 && b.len() == 0 {
        assert(a =~= b);
    } else if a.len() > 0 && b.len() > 0 && a[0] == b[0] {
        lemma_lex_total(a.drop_first(), b.drop_first());
        if a.drop_first() == b.drop_first() {
            assert(a =~= b) by {
                assert forall|i: int| 0 <= i < a.len() implies a[i] == b[i] by {
                    if i > 0 {
                        assert(a[i] == a.drop_first()[i - 1]);
                        assert(b[i] == b.drop_first()[i - 1]);
                    }
                }
            }
        }
    }
}

/// Whether `a` comes before `b` by `str` comparison.
pub fn str_less(a: &str, b: &str) -> (r: bool)
    ensures
        r == lex_lt(a@, b@),
{
    let va = chars_of(a);
    let vb = chars_of(b);
    let mut i: usize = 0;
    assert(a@.skip(0) =~= a@);
    assert(b@.skip(0) =~= b@);
    while i < va.len() && i < vb.len() && va[i] == vb[i]
        invariant
            i <= va.len(),
            i <= vb.len(),
            va@ == a@,
            vb@ == b@,
            lex_lt(a@, b@) == lex_lt(a@.skip(i as int), b@.skip(i as int)),
        decreases va.len() - i,
    {
        assert(a@.skip(i as int).drop_first() =~= a@.skip(i as int + 1));
        assert(b@.skip(i as int).drop_first() =~= b@.skip(i as int + 1));
        i += 1;
    }
    let ghost sa = a@.skip(i as int);
    let ghost sb = b@.skip(i as int);
    assert(sa.len() == va.len() - i && sb.len() == vb.len() - i);
    if i < va.len() && i < vb.len() {
        assert(sa[0] == va@[i as int] && sb[0] == vb@[i as int]);
    }
    if i == va.len() {
        i < vb.len()
    } else if i == vb.len() {
        false
    } else {
        va[i] < vb[i]
    }
}

/// The order of the backup list: `a` may come before `b` when `b` is not newer.
pub open spec fn not_older() -> spec_fn(BackupListItemView, BackupListItemView) -> bool {
    |a: BackupListItemView, b: BackupListItemView| !lex_lt(a.created_at, b.created_at)
}

/// The backup list ordered newest first (by the text of the creation time); backups created
/// at the same time keep their order.
pub open spec fn spec_newest_first(s: Seq<BackupListItemView>) -> Seq<BackupListItemView> {
    sort_stable(s, not_older())
}

fn copy_item(b: &BackupListItem) -> (r: BackupListItem)
    ensures
        r@ == b@,
{
    BackupListItem { name: b.name.clone(), created_at: b.created_at.clone(), size: b.size, backup_type: b.backup_type.clone() }
}

fn insert_newest_first(out: &mut Vec<BackupListItem>, x: BackupListItem)
    ensures
        backup_views(final(out)@) == insert_sorted(backup_views(old(out)@), x@, not_older()),
{
    let mut j: usize = out.len();
    while j > 0 && str_less(out[j - 1].created_at.as_str(), x.created_at.as_str())
        invariant
            j <= out.len(),
            forall|k: int| j <= k < out.len() ==> lex_lt(#[trigger] out@[k].created_at@, x.created_at@),
        decreases j,
    {
        j -= 1;
    }
    let ghost s = backup_views(out@);
    let ghost xv = x@;
    proof {
        assert forall|k: int| j <= k < s.len() implies !(not_older())(#[trigger] s[k], xv) by {
            assert(s[k] == out@[k]@);
        }
        if j > 0 {
            assert(s[j - 1] == out@[j - 1]@);
        }
        lemma_insert_sorted_at(s, xv, not_older(), j as int);
    }
    out.insert(j, x);
    assert(backup_views(out@) =~= s.insert(j as int, xv));
}

/// Orders the backup list newest first, as `sort_by(|a, b| b.created_at.cmp(&a.created_at))`.
pub fn sort_backups_newest_first(backups: &mut Vec<BackupListItem>)
    ensures
        backup_views(final(backups)@) == spec_newest_first(backup_views(old(backups)@)),
{
    let ghost all = backup_views(backups@);
    let mut out: Vec<BackupListItem> = Vec::new();
    let mut i: usize = 0;
    assert(all.take(0) =~= Seq::<BackupListItemView>::empty());
    while i < backups.len()
        invariant
            i <= backups.len(),
            all == backup_views(backups@),
            all.len() == backups.len(),
            backup_views(out@) == sort_stable(all.take(i as int), not_older()),
        decreases backups.len() - i,
    {
        let item = copy_item(&backups[i]);
        proof {
            assert(all[i as int] == item@);
            assert(all.take(i as int + 1).drop_last() =~= all.take(i as int));
        }
        insert_newest_first(&mut out, item);
        i += 1;
    }
    assert(all.take(all.len() as int) =~= all);
    *backups = out;
}

/// A full backup archives exactly the parts that exist: the settings file whenever it exists
/// and the workspace storage whenever it exists. A settings or workspace backup archives its
/// own part alone, and fails when that part is missing. No plan ever archives a missing part.
pub proof fn lemma_backup_plan_parts(backup_type: Seq<char>, settings_exists: bool, workspace_exists: bool)
    ensures
        spec_backup_plan("full"@, settings_exists, workspace_exists) == Ok::<(bool, bool), Seq<char>>(
            (settings_exists, workspace_exists),
        ),
        settings_exists ==> spec_backup_plan("settings"@, settings_exists, workspace_exists) == Ok::<
            (bool, bool),
            Seq<char>,
        >((true, false)),
        !settings_exists ==> spec_backup_plan("settings"@, settings_exists, workspace_exists) is Err,
        workspace_exists ==> spec_backup_plan("workspace"@, settings_exists, workspace_exists) == Ok::<
            (bool, bool),
            Seq<char>,
        >((false, true)),
        !workspace_exists ==> spec_backup_plan("workspace"@, settings_exists, workspace_exists) is Err,
        spec_backup_plan(backup_type, settings_exists, workspace_exists) matches Ok((s, w)) ==> (s
            ==> settings_exists) && (w ==> workspace_exists),
{
    reveal_strlit("full");
    reveal_strlit("settings");
    reveal_strlit("workspace");
    assert("settings"@[0] != "full"@[0]);
    assert("workspace"@[0] != "full"@[0]);
    assert("workspace"@[0] != "settings"@[0]);
}

/// A restore moves every part that the backup's kind covers and the archive holds, and no other
/// part: a full restore moves the settings file whenever the archive has it and the workspace
/// storage whenever the archive has it. It fails exactly when a settings or workspace backup
/// lacks its own part.
pub proof fn lemma_restore_moves_parts(kind: BackupKind, has_settings: bool, has_workspace: bool)
    ensures
        spec_restore_moves(BackupKind::Full, has_settings, has_workspace) == Ok::<(bool, bool), Seq<char>>(
            (has_settings, has_workspace),
        ),
        spec_restore_moves(kind, has_settings, has_workspace) is Err <==> ((kind == BackupKind::Settings
            && !has_settings) || (kind == BackupKind::Workspace && !has_workspace)),
        spec_restore_moves(kind, has_settings, has_workspace) matches Ok((s, w)) ==> {
            &&& s == ((kind == BackupKind::Full || kind == BackupKind::Settings) && has_settings)
            &&& w == ((kind == BackupKind::Full || kind == BackupKind::Workspace) && has_workspace)
        },
{
}

/// The backup list is ordered newest first.
pub proof fn lemma_newest_first_ordered(s: Seq<BackupListItemView>)
    ensures
        forall|i: int, j: int|
            0 <= i < j < spec_newest_first(s).len() ==> !lex_lt(
                spec_newest_first(s)[i].created_at,
                spec_newest_first(s)[j].created_at,
            ),
{
    let le = not_older();
    assert forall|a: BackupListItemView, b: BackupListItemView, c: BackupListItemView|
        #[trigger] le(a, b) && #[trigger] le(b, c) implies le(a, c) by {
        lemma_lex_total(a.created_at, b.created_at);
        lemma_lex_total(b.created_at, c.created_at);
        if lex_lt(a.created_at, c.created_at) {
            if a.created_at == b.created_at {
            } else if b.created_at == c.created_at {
            } else {
                lemma_lex_transitive(c.created_at, b.created_at, a.created_at);
                lemma_lex_transitive(a.created_at, c.created_at, a.created_at);
                lemma_lex_irreflexive(a.created_at);
            }
        }
    }
    assert forall|a: BackupListItemView, b: BackupListItemView| #[trigger] le(a, b) || le(b, a) by {
        if lex_lt(a.created_at, b.created_at) && lex_lt(b.created_at, a.created_at) {
            lemma_lex_transitive(a.created_at, b.created_at, a.created_at);
            lemma_lex_irreflexive(a.created_at);
        }
    }
    crate::sorting::lemma_sort_stable_sorted(s, le);
    let t = spec_newest_first(s);
    assert forall|i: int, j: int| 0 <= i < j < t.len() implies !lex_lt(t[i].created_at, t[j].created_at) by {
        assert(le(t[i], t[j]));
    }
}

/// The backup list holds every backup found, once each.
pub proof fn lemma_newest_first_complete(s: Seq<BackupListItemView>)
    ensures
        spec_newest_first(s).to_multiset() == s.to_multiset(),
        spec_newest_first(s).len() == s.len(),
{
    crate::sorting::lemma_sort_stable_permutation(s, not_older());
}


// ---------------------------------------------------------------------------
// Running backup tasks: their cancel flags and unfinished files
// ---------------------------------------------------------------------------

/// A task's cancel flag (when registered) and the file it is writing (when known).
pub struct BackupTask {
    pub id: String,
    pub flag: Option<bool>,
    pub file: Option<String>,
}

/// What is known of a task: its cancel flag and its file.
pub type TaskState = (Option<bool>, Option<Seq<char>>);

pub open spec fn task_entries(s: Seq<BackupTask>) -> Seq<(Seq<char>, TaskState)> {
    s.map_values(|t: BackupTask| (t.id@, (t.flag, crate::json::opt_str_view(t.file))))
}

/// The backup tasks that are running, by id.
pub struct BackupTasks {
    tasks: Vec<BackupTask>,
}

impl View for BackupTasks {
    type V = Map<Seq<char>, TaskState>;

    closed spec fn view(&self) -> Map<Seq<char>, TaskState> {
        to_map(task_entries(self.tasks@))
    }
}

/// The tasks after `id` registers a fresh cancel flag (its file, if any, stays).
pub open spec fn spec_register(m: Map<Seq<char>, TaskState>, id: Seq<char>) -> Map<Seq<char>, TaskState> {
    let file = if m.dom().contains(id) {
        m[id].1
    } else {
        None
    };
    m.insert(id, (Some(false), file))
}

/// The tasks after the file of `id` is recorded (its flag, if any, stays).
pub open spec fn spec_set_file(m: Map<Seq<char>, TaskState>, id: Seq<char>, file: Seq<char>) -> Map<Seq<char>, TaskState> {
    let flag = if m.dom().contains(id) {
        m[id].0
    } else {
        None
    };
    m.insert(id, (flag, Some(file)))
}

/// Whether `id` has a cancel flag to set.
pub open spec fn spec_can_cancel(m: Map<Seq<char>, TaskState>, id: Seq<char>) -> bool {
    m.dom().contains(id) && m[id].0 is Some
}

/// The tasks after `id` is cancelled (unchanged when it has no flag).
pub open spec fn spec_cancel(m: Map<Seq<char>, TaskState>, id: Seq<char>) -> Map<Seq<char>, TaskState> {
    if spec_can_cancel(m, id) {
        m.insert(id, (Some(true), m[id].1))
    } else {
        m
    }
}

pub open spec fn spec_is_cancelled(m: Map<Seq<char>, TaskState>, id: Seq<char>) -> bool {
    m.dom().contains(id) && m[id].0 == Some(true)
}

/// The file recorded for `id`, if any.
pub open spec fn spec_file_of(m: Map<Seq<char>, TaskState>, id: Seq<char>) -> Option<Seq<char>> {
    if m.dom().contains(id) {
        m[id].1
    } else {
        None
    }
}

impl BackupTasks {
    pub closed spec fn wf(&self) -> bool {
        unique_keys(task_entries(self.tasks@))
    }

    /// No task yet.
    pub fn new() -> (r: BackupTasks)
        ensures
            r.wf(),
            r@ == Map::<Seq<char>, TaskState>::empty(),
    {
        let r = BackupTasks { tasks: Vec::new() };
        assert(task_entries(r.tasks@) =~= Seq::<(Seq<char>, TaskState)>::empty());
        r
    }

    fn position(&self, id: &str) -> (r: Option<usize>)
        requires
            self.wf(),
        ensures
            match r {
                Some(i) => i < self.tasks.len() && self.tasks@[i as int].id@ == id@,
                None => !self@.dom().contains(id@),
            },
    {
        proof {
            lemma_to_map_lookup(task_entries(self.tasks@));
        }
        let ghost e = task_entries(self.tasks@);
        let mut i: usize = 0;
        while i < self.tasks.len()
            invariant
                i <= self.tasks.len(),
                e == task_entries(self.tasks@),
                e.len() == self.tasks.len(),
                forall|k: int| 0 <= k < i ==> #[trigger] self.tasks@[k].id@ != id@,
            decreases self.tasks.len() - i,
        {
            if str_eq(self.tasks[i].id.as_str(), id) {
                return Some(i);
            }
            i += 1;
        }
        proof {
            if self@.dom().contains(id@) {
                let k = choose|k: int| 0 <= k < e.len() && e[k].0 == id@;
                assert(e[k].0 == self.tasks@[k].id@);
            }
        }
        None
    }

    proof fn lemma_entry(&self, i: int)
        requires
            self.wf(),
            0 <= i < self.tasks.len(),
        ensures
            self@.dom().contains(self.tasks@[i].id@),
            self@[self.tasks@[i].id@] == (self.tasks@[i].flag, crate::json::opt_str_view(self.tasks@[i].file)),
    {
        let e = task_entries(self.tasks@);
        lemma_to_map_lookup(e);
        assert(e[i].0 == self.tasks@[i].id@);
        assert(exists|k: int| 0 <= k < e.len() && e[k].0 == self.tasks@[i].id@);
    }

    fn replace_at(&mut self, i: usize, t: BackupTask)
        requires
            old(self).wf(),
            i < old(self).tasks.len(),
            t.id@ == old(self).tasks@[i as int].id@,
        ensures
            final(self).wf(),
            final(self)@ == old(self)@.insert(t.id@, (t.flag, crate::json::opt_str_view(t.file))),
    {
        let ghost e = task_entries(self.tasks@);
        let ghost v = (t.flag, crate::json::opt_str_view(t.file));
        proof {
            lemma_to_map_update(e, i as int, v);
        }
        self.tasks.set(i, t);
        assert(task_entries(self.tasks@) =~= e.update(i as int, (e[i as int].0, v)));
    }

    fn push_new(&mut self, t: BackupTask)
        requires
            old(self).wf(),
            !old(self)@.dom().contains(t.id@),
        ensures
            final(self).wf(),
            final(self)@ == old(self)@.insert(t.id@, (t.flag, crate::json::opt_str_view(t.file))),
    {
        let ghost e = task_entries(self.tasks@);
        let ghost v = (t.flag, crate::json::opt_str_view(t.file));
        let ghost k = t.id@;
        proof {
            lemma_to_map_push(e, k, v);
        }
        self.tasks.push(t);
        assert(task_entries(self.tasks@) =~= e.push((k, v)));
    }

    /// Registers the cancel flag of a new backup task `id`, not set.
    pub fn register(&mut self, id: String)
        requires
            old(self).wf(),
        ensures
            final(self).wf(),
            final(self)@ == spec_register(old(self)@, id@),
    {
        match self.position(id.as_str()) {
            Some(i) => {
                proof {
                    self.lemma_entry(i as int);
                }
                let file = match &self.tasks[i].file {
                    Some(f) => Some(f.clone()),
                    None => None,
                };
                self.replace_at(i, BackupTask { id: id, flag: Some(false), file: file });
            },
            None => {
                self.push_new(BackupTask { id: id, flag: Some(false), file: None });
            },
        }
    }

    /// Records the file that task `id` writes.
    pub fn set_file(&mut self, id: String, file: String)
        requires
            old(self).wf(),
        ensures
            final(self).wf(),
            final(self)@ == spec_set_file(old(self)@, id@, file@),
    {
        match self.position(id.as_str()) {
            Some(i) => {
                proof {
                    self.lemma_entry(i as int);
                }
                let flag = self.tasks[i].flag;
                self.replace_at(i, BackupTask { id: id, flag: flag, file: Some(file) });
            },
            None => {
                self.push_new(BackupTask { id: id, flag: None, file: Some(file) });
            },
        }
    }

    /// Sets the cancel flag of task `id`; `Err("未找到备份任务")`, with nothing changed, when it
    /// has none.
    pub fn cancel_backup(&mut self, id: &str) -> (r: Result<(), String>)
        requires
            old(self).wf(),
        ensures
            final(self).wf(),
            r is Ok <==> spec_can_cancel(old(self)@, id@),
            r matches Err(e) ==> e@ == "未找到备份任务"@,
            final(self)@ == spec_cancel(old(self)@, id@),
    {
        match self.position(id) {
            Some(i) => {
                proof {
                    self.lemma_entry(i as int);
                }
                if self.tasks[i].flag.is_none() {
                    return Err(owned("未找到备份任务"));
                }
                let file = match &self.tasks[i].file {
                    Some(f) => Some(f.clone()),
                    None => None,
                };
                let key = self.tasks[i].id.clone();
                self.replace_at(i, BackupTask { id: key, flag: Some(true), file: file });
                Ok(())
            },
            None => Err(owned("未找到备份任务")),
        }
    }

    /// Whether task `id` has been cancelled.
    pub fn is_cancelled(&self, id: &str) -> (r: bool)
        requires
            self.wf(),
        ensures
            r == spec_is_cancelled(self@, id@),
    {
        match self.position(id) {
            Some(i) => {
                proof {
                    self.lemma_entry(i as int);
                }
                match self.tasks[i].flag {
                    Some(b) => b,
                    None => false,
                }
            },
            None => false,
        }
    }

    fn forget(&mut self, id: &str) -> (r: Option<String>)
        requires
            old(self).wf(),
        ensures
            final(self).wf(),
            final(self)@ == old(self)@.remove(id@),
            crate::json::opt_str_view(r) == spec_file_of(old(self)@, id@),
    {
        match self.position(id) {
            Some(i) => {
                proof {
                    self.lemma_entry(i as int);
                    lemma_to_map_remove(task_entries(self.tasks@), i as int);
                }
                let ghost e = task_entries(self.tasks@);
                let t = self.tasks.remove(i);
                assert(task_entries(self.tasks@) =~= e.remove(i as int));
                t.file
            },
            None => {
                assert(old(self)@.remove(id@) =~= old(self)@);
                None
            },
        }
    }

    /// Forgets a task that failed or was cancelled, and gives back its unfinished file, which is
    /// to be deleted.
    pub fn cleanup_backup_task(&mut self, id: &str) -> (r: Option<String>)
        requires
            old(self).wf(),
        ensures
            final(self).wf(),
            final(self)@ == old(self)@.remove(id@),
            crate::json::opt_str_view(r) == spec_file_of(old(self)@, id@),
    {
        self.forget(id)
    }

    /// Forgets a task that finished; its file is kept.
    pub fn cleanup_backup_task_success(&mut self, id: &str)
        requires
            old(self).wf(),
        ensures
            final(self).wf(),
            final(self)@ == old(self)@.remove(id@),
    {
        let _ = self.forget(id);
    }
}

/// A task that has just been registered can be cancelled, and is cancelled afterwards.
pub proof fn lemma_register_then_cancel(m: Map<Seq<char>, TaskState>, id: Seq<char>)
    ensures
        spec_can_cancel(spec_register(m, id), id),
        spec_is_cancelled(spec_cancel(spec_register(m, id), id), id),
        !spec_is_cancelled(spec_register(m, id), id),
{
}

/// A task that has been cleaned up can no longer be cancelled, and its file is forgotten.
pub proof fn lemma_cleanup_then_cancel(m: Map<Seq<char>, TaskState>, id: Seq<char>)
    ensures
        !spec_can_cancel(m.remove(id), id),
        spec_cancel(m.remove(id), id) == m.remove(id),
        spec_file_of(m.remove(id), id) is None,
{
}

/// Cancelling or registering one task leaves every other task as it was.
pub proof fn lemma_tasks_independent(m: Map<Seq<char>, TaskState>, id: Seq<char>, other: Seq<char>)
    requires
        id != other,
    ensures
        spec_is_cancelled(spec_cancel(m, id), other) == spec_is_cancelled(m, other),
        spec_is_cancelled(spec_register(m, id), other) == spec_is_cancelled(m, other),
        spec_file_of(spec_cancel(m, id), other) == spec_file_of(m, other),
        spec_file_of(m.remove(id), other) == spec_file_of(m, other),
{
}

/// The file recorded for a task is the one that its cleanup after a failure gives back.
pub proof fn lemma_set_file_then_cleanup(m: Map<Seq<char>, TaskState>, id: Seq<char>, file: Seq<char>)
    ensures
        spec_file_of(spec_set_file(m, id, file), id) == Some(file),
        spec_file_of(spec_register(spec_set_file(m, id, file), id), id) == Some(file),
{
}

// ---------------------------------------------------------------------------
// Workspaces
// ---------------------------------------------------------------------------

/// The folder a workspace was opened on.
pub struct WorkspaceInfo {
    pub folder: String,
}

/// A workspace of Cursor's workspace storage, as listed.
pub struct WorkspaceStorageItem {
    pub id: String,
    pub name: String,
    pub path: String,
    pub workspace_info: Option<WorkspaceInfo>,
    pub conversation_count: usize,
    pub last_modified: String,
    pub created_at: String,
    pub size: u64,
}

/// A workspace with its conversations and size.
pub struct WorkspaceDetails {
    pub workspace_info: WorkspaceInfo,
    pub conversations: Vec<ConversationData>,
    pub total_size: u64,
}

/// The folder of a parsed `workspace.json`, when it names one.
pub fn workspace_info_from_json(v: Option<&JsonValue>) -> (r: Option<WorkspaceInfo>)
    ensures
        match opt_model(v) {
            Some(j) => match j.get_str("folder"@) {
                Some(f) => r matches Some(w) && w.folder@ == f,
                None => r is None,
            },
            None => r is None,
        },
{
    match v {
        Some(j) => match j.get_str("folder") {
            Some(f) => Some(WorkspaceInfo { folder: f }),
            None => None,
        },
        None => None,
    }
}

/// The folder shown in a workspace's details: the one `workspace.json` names, else "未知项目".
pub fn details_workspace_info(v: Option<&JsonValue>) -> (r: WorkspaceInfo)
    ensures
        r.folder@ == match opt_model(v) {
            Some(j) => match j.get_str("folder"@) {
                Some(f) => f,
                None => "未知项目"@,
            },
            None => "未知项目"@,
        },
{
    match workspace_info_from_json(v) {
        Some(w) => w,
        None => WorkspaceInfo { folder: owned("未知项目") },
    }
}

/// The name shown for workspace `id`: the last '/'-separated piece of its folder, else its id.
pub fn workspace_display_name(info: &Option<WorkspaceInfo>, id: &str) -> (r: String)
    ensures
        r@ == match info {
            Some(w) => spec_last_piece(w.folder@, '/'),
            None => id@,
        },
{
    match info {
        Some(w) => last_piece(w.folder.as_str(), '/'),
        None => owned(id),
    }
}

} // verus!
