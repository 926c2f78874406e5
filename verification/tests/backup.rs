use auto_cursor::backup::{
    archive_file_name, backup_kind_from_name, backup_list_item, backup_list_name, backup_name, backup_plan,
    backup_type_label, details_workspace_info, is_permission_error, parse_backup_type, restore_kind, restore_moves,
    restore_success_message, settings_append_error, settings_path_info, sort_backups_newest_first, str_less,
    workspace_display_name, workspace_info_from_json, workspace_path_info, BackupKind, BackupListItem, BackupTasks,
    WorkspaceInfo,
};
use auto_cursor::json::{JsonMember, JsonValue};

fn item(name: &str, created_at: &str) -> BackupListItem {
    BackupListItem { name: name.to_string(), created_at: created_at.to_string(), size: 1, backup_type: "full".to_string() }
}

#[test]
fn backup_names_carry_their_kind() {
    let name = backup_name("settings", "20240102_030405");
    assert_eq!(name, "cursor_backup_settings_20240102_030405");
    assert_eq!(archive_file_name(&name), "cursor_backup_settings_20240102_030405.tar.gz");
    assert!(backup_kind_from_name(&name) == Some(BackupKind::Settings));
    assert!(backup_kind_from_name("cursor_backup_full_x") == Some(BackupKind::Full));
    assert!(backup_kind_from_name("cursor_backup_other") == None);
    assert_eq!(backup_type_label("cursor_backup_workspace_1"), "workspace");
    assert_eq!(backup_type_label("cursor_backup_1"), "unknown");
    assert!(parse_backup_type("full") == Some(BackupKind::Full));
    assert!(parse_backup_type("Full") == None);
    assert_eq!(BackupKind::Workspace.label(), "workspace");
}

#[test]
fn listed_files_are_backups_only() {
    assert_eq!(backup_list_name("cursor_backup_full_1.tar.gz"), Some("cursor_backup_full_1".to_string()));
    assert_eq!(backup_list_name("cursor_backup_full_1.zip"), None);
    assert_eq!(backup_list_name("other_1.tar.gz"), None);
    assert_eq!(backup_list_name(".tar.gz"), None);
    let it = backup_list_item("cursor_backup_full_1.tar.gz", "2024".to_string(), 10).unwrap();
    assert_eq!(it.name, "cursor_backup_full_1");
    assert_eq!(it.backup_type, "full");
    assert_eq!(it.size, 10);
    assert!(backup_list_item("notes.txt", "2024".to_string(), 1).is_none());
}

#[test]
fn string_order_matches_std() {
    for (a, b) in [("a", "b"), ("ab", "a"), ("", "a"), ("2024-01-02", "2024-01-10"), ("é", "z"), ("same", "same")] {
        assert_eq!(str_less(a, b), a < b);
        assert_eq!(str_less(b, a), b < a);
    }
}

#[test]
fn backups_are_listed_newest_first() {
    let mut list = vec![
        item("one", "2024-01-01T00:00:00+00:00"),
        item("three", "2024-03-01T00:00:00+00:00"),
        item("two", "2024-02-01T00:00:00+00:00"),
        item("three-bis", "2024-03-01T00:00:00+00:00"),
    ];
    sort_backups_newest_first(&mut list);
    let names: Vec<String> = list.iter().map(|b| b.name.clone()).collect();
    assert_eq!(names, vec!["three", "three-bis", "two", "one"]);
    let mut empty: Vec<BackupListItem> = Vec::new();
    sort_backups_newest_first(&mut empty);
    assert!(empty.is_empty());
}

#[test]
fn backup_plans_per_kind() {
    assert_eq!(backup_plan("full", true, false), Ok((true, false)));
    assert_eq!(backup_plan("settings", true, true), Ok((true, false)));
    assert_eq!(backup_plan("settings", false, true), Err("Cursor 设置文件不存在".to_string()));
    assert_eq!(backup_plan("workspace", true, false), Err("Cursor 工作区存储不存在".to_string()));
    assert_eq!(backup_plan("all", true, true), Err("不支持的备份类型: all".to_string()));
}

#[test]
fn restores_per_kind() {
    assert!(restore_kind("cursor_backup_workspace_1").ok() == Some(BackupKind::Workspace));
    assert_eq!(restore_kind("mystery").err(), Some("无法识别备份类型".to_string()));
    assert_eq!(restore_moves(BackupKind::Full, false, true), Ok((false, true)));
    assert_eq!(restore_moves(BackupKind::Settings, false, true), Err("备份文件中未找到设置文件".to_string()));
    assert_eq!(restore_moves(BackupKind::Workspace, true, false), Err("备份文件中未找到工作区目录".to_string()));
    assert_eq!(restore_moves(BackupKind::Workspace, true, true), Ok((false, true)));
    assert_eq!(restore_success_message(BackupKind::Full, true), "恢复完整数据（设置和对话记录）成功，Cursor 已自动重启");
    assert_eq!(restore_success_message(BackupKind::Settings, false), "恢复设置文件成功，请启动 Cursor 使配置生效");
    assert!(BackupKind::Full.covers_settings() && BackupKind::Full.covers_workspace());
    assert!(!BackupKind::Settings.covers_workspace());
}

#[test]
fn permission_errors_are_recognised() {
    assert!(is_permission_error(true, "anything"));
    assert!(is_permission_error(false, "Access is DENIED"));
    assert!(is_permission_error(false, "没有权限"));
    assert!(!is_permission_error(false, "disk full"));
    assert_eq!(
        settings_append_error("Permission denied (os error 13)"),
        "权限不足，无法备份设置文件。请以管理员权限运行应用或检查 Cursor 目录权限。错误: Permission denied (os error 13)"
    );
    assert_eq!(settings_append_error("disk full"), "添加设置文件到备份失败: disk full");
}

#[test]
fn tasks_can_be_cancelled_until_cleaned_up() {
    let mut tasks = BackupTasks::new();
    tasks.register("a".to_string());
    assert!(!tasks.is_cancelled("a"));
    assert_eq!(tasks.cancel_backup("b"), Err("未找到备份任务".to_string()));
    assert_eq!(tasks.cancel_backup("a"), Ok(()));
    assert!(tasks.is_cancelled("a"));
    tasks.set_file("a".to_string(), "/tmp/a.tar.gz".to_string());
    assert!(tasks.is_cancelled("a"));
    assert_eq!(tasks.cleanup_backup_task("a"), Some("/tmp/a.tar.gz".to_string()));
    assert_eq!(tasks.cancel_backup("a"), Err("未找到备份任务".to_string()));
    tasks.register("b".to_string());
    tasks.set_file("b".to_string(), "/tmp/b".to_string());
    tasks.cleanup_backup_task_success("b");
    assert_eq!(tasks.cleanup_backup_task("b"), None);
}

#[test]
fn a_file_recorded_first_keeps_its_flag_missing() {
    let mut tasks = BackupTasks::new();
    tasks.set_file("x".to_string(), "/f".to_string());
    assert_eq!(tasks.cancel_backup("x"), Err("未找到备份任务".to_string()));
    tasks.register("x".to_string());
    assert_eq!(tasks.cancel_backup("x"), Ok(()));
    assert_eq!(tasks.cleanup_backup_task("x"), Some("/f".to_string()));
}

#[test]
fn path_info_records() {
    let s = settings_path_info("/s".to_string(), Some((12, Some("t".to_string()))));
    assert!(s.exists && s.size == Some(12) && s.item_count.is_none());
    let w = workspace_path_info("/w".to_string(), None);
    assert!(!w.exists && w.size.is_none() && w.last_modified.is_none());
    let w2 = workspace_path_info("/w".to_string(), Some((5, 2, None)));
    assert_eq!(w2.item_count, Some(2));
}

#[test]
fn workspace_names() {
    let folder = JsonValue::Object(vec![JsonMember {
        key: "folder".to_string(),
        value: JsonValue::Str("file:///home/me/project".to_string()),
    }]);
    let info = workspace_info_from_json(Some(&folder));
    assert_eq!(info.as_ref().map(|w| w.folder.clone()), Some("file:///home/me/project".to_string()));
    assert_eq!(workspace_display_name(&info, "id1"), "project");
    assert_eq!(workspace_display_name(&None, "id1"), "id1");
    assert_eq!(details_workspace_info(None).folder, "未知项目");
    let other: Option<WorkspaceInfo> = workspace_info_from_json(Some(&JsonValue::Null));
    assert!(other.is_none());
}
