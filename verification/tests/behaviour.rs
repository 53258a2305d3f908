use lijin_book::backups::{backup_prefix, backups_to_prune, has_daily_backup};
use lijin_book::export::{entry_tag_text, export_default_name, export_destination, export_totals};
use lijin_book::files::{
    book_title_candidate, embedded_webview_runtime_candidates, normalize_vault_path,
    spreadsheet_delimiter,
};
use lijin_book::history::{
    person_tag_audit_merge, person_tags_audit_payload, revert_check, seconds_between,
    AuditPayload, AuditRowHead, RevertCheck,
};
use lijin_book::import::{
    import_columns, null_if_empty, optional_imported_amount, partition_preview_tags,
    planned_tag_color, prepare_import_row, received_at_or_now,
};
use lijin_book::models::{
    AuditChange, EditBookInput, GiftBook, GiftEntry, SearchVaultSummary, SpreadsheetTagPreview,
    SpreadsheetTagValuePreview,
};
use lijin_book::records::{
    book_edit, check_tag_conflict, entry_return_time, same_person, tag_input,
    validate_book_title, validate_entry_input, validate_return_gift_amount,
};
use lijin_book::search::{empty_search_response, search_in_vault, search_response};
use lijin_book::security::AppSecurityStore;
use lijin_book::session::{opened_vault_match, AppState, SessionRole};
use lijin_book::sheet::{analyze_sheet, ParsedSheet};
use lijin_book::tags::{
    auto_tag_colors, ensure_import_tags_are_available, next_auto_tag_color, normalize_tag_name,
    split_tag_names,
};
use lijin_book::update::verify_installer_checksum;

fn entry(id: &str, book_id: &str, name: &str, amount_fen: i64) -> GiftEntry {
    GiftEntry {
        id: id.to_string(),
        book_id: book_id.to_string(),
        person_id: format!("p-{id}"),
        person_name: name.to_string(),
        address: None,
        amount_fen,
        payment_method: "现金".to_string(),
        received_at: "2026-08-06 10:00:00".to_string(),
        note: None,
        return_gift: None,
        return_gift_amount_fen: None,
        return_gifted_at: None,
        tags: Vec::new(),
        tag_names: vec!["亲戚".to_string(), "同学".to_string()],
    }
}

fn app_with_pin(pin: &str) -> (AppState, String) {
    let mut state = AppState::new(AppSecurityStore::new("security.sqlite".to_string()));
    let code = state.setup_app_admin_pin(pin).expect("setup");
    (state, code)
}

// --- session -----------------------------------------------------------------

#[test]
fn setting_the_pin_unlocks_the_administrator_with_editing_locked() {
    let (state, code) = app_with_pin("123456");
    assert!(state.is_admin_session());
    assert!(state.is_edit_locked());
    assert_eq!(code.len(), 27);
    let status = state.session_status().expect("status");
    assert_eq!(status.role, "admin");
    assert!(status.security_configured);
    assert!(status.edit_locked);
}

#[test]
fn a_second_setup_is_refused() {
    let (mut state, _) = app_with_pin("123456");
    assert_eq!(state.setup_app_admin_pin("654321").unwrap_err(), "软件管理员 PIN 已设置");
}

#[test]
fn locking_the_administrator_makes_every_change_read_only() {
    let (mut state, _) = app_with_pin("123456");
    state.lock_admin().expect("lock");
    assert!(!state.is_admin_session());
    for reason in ["create-tag", "edit-book", "set-person-tags"] {
        assert_eq!(
            state.admin_access(reason).unwrap_err(),
            "当前为只读模式，请先解锁管理员权限"
        );
    }
    assert_eq!(state.unlock_editing().unwrap_err(), "当前为只读模式，请先解锁管理员权限");
    assert_eq!(state.session_status().expect("status").role, "viewer");
}

#[test]
fn a_fresh_administrator_may_change_tags_but_not_records_until_editing_is_unlocked() {
    let (mut state, _) = app_with_pin("123456");
    assert!(state.admin_access("create-tag").is_ok());
    assert!(state.admin_access("update-tag-color").is_ok());
    assert!(state.admin_access("set-person-tags").is_ok());
    assert_eq!(state.admin_access("edit-book").unwrap_err(), "编辑已锁定，请先解锁编辑");
    assert_eq!(state.admin_access_for_path().unwrap_err(), "编辑已锁定，请先解锁编辑");
    state.unlock_editing().expect("unlock editing");
    assert!(state.admin_access("edit-book").is_ok());
    assert!(state.admin_access_for_path().is_ok());
    state.lock_editing().expect("lock editing");
    assert!(state.admin_access("edit-book").is_err());
}

#[test]
fn five_wrong_pins_suspend_the_unlock_for_thirty_seconds() {
    let (mut state, _) = app_with_pin("123456");
    state.lock_admin().expect("lock");
    for attempt in 0..4u64 {
        assert_eq!(state.unlock_admin("000000", 1_000 + attempt).unwrap_err(), "管理员 PIN 不正确");
        assert_eq!(state.session().failed_attempts as u64, attempt + 1);
    }
    assert_eq!(state.unlock_admin("000000", 2_000).unwrap_err(), "管理员 PIN 不正确");
    assert_eq!(state.session().failed_attempts, 0);
    assert_eq!(state.session().locked_until, Some(32_000));
    assert_eq!(
        state.unlock_admin("123456", 31_999).unwrap_err(),
        "PIN 尝试次数过多，请稍后再试"
    );
    assert!(!state.is_admin_session());
    state.unlock_admin("123456", 32_000).expect("unlocks after the cooldown");
    assert!(state.is_admin_session());
    assert_eq!(state.session().locked_until, None);
}

#[test]
fn a_badly_formed_pin_is_refused_before_anything_else() {
    let (mut state, _) = app_with_pin("123456");
    state.lock_admin().expect("lock");
    assert_eq!(
        state.unlock_admin("12ab", 0).unwrap_err(),
        "管理员 PIN 必须是 6 至 12 位数字"
    );
    assert_eq!(state.session().failed_attempts, 0);
}

#[test]
fn unlock_without_a_pin_set_asks_for_one() {
    let mut state = AppState::new(AppSecurityStore::new("security.sqlite".to_string()));
    assert_eq!(state.unlock_admin("123456", 0).unwrap_err(), "请先设置软件管理员 PIN");
}

#[test]
fn the_recovery_code_resets_the_pin_and_is_replaced() {
    let (mut state, code) = app_with_pin("123456");
    state.lock_admin().expect("lock");
    assert_eq!(
        state.reset_app_pin_with_recovery("AAAAAA-AAAAAA-AAAAAA-AAAAAA", "222222").unwrap_err(),
        "恢复码不正确"
    );
    let replacement = state.reset_app_pin_with_recovery(&format!("  {code} "), "222222").expect("reset");
    assert_ne!(replacement, code);
    assert!(state.is_admin_session());
    assert!(state.security().verify_pin("222222").expect("verify"));
    assert_eq!(
        state.reset_app_pin_with_recovery(&code, "333333").unwrap_err(),
        "恢复码不正确"
    );
}

#[test]
fn changing_the_pin_needs_the_administrator_and_the_old_pin() {
    let (mut state, _) = app_with_pin("123456");
    assert_eq!(state.change_app_admin_pin("111111", "222222").unwrap_err(), "旧管理员 PIN 不正确");
    state.change_app_admin_pin("123456", "222222").expect("change");
    state.lock_admin().expect("lock");
    assert_eq!(
        state.change_app_admin_pin("222222", "333333").unwrap_err(),
        "当前为只读模式，请先解锁管理员权限"
    );
}

#[test]
fn opened_vaults_are_noted_once_and_forgotten_by_path() {
    let mut state = AppState::new(AppSecurityStore::new("security.sqlite".to_string()));
    assert_eq!(state.active_vault_path().unwrap_err(), "请先打开礼金库");
    state.use_opened_vault("D:\\A.giftvault".to_string(), "D:\\A.giftvault".to_string());
    state.use_opened_vault("D:\\B.giftvault".to_string(), "D:\\B.giftvault".to_string());
    state.use_opened_vault("D:\\A.giftvault".to_string(), "D:\\A.giftvault".to_string());
    assert_eq!(state.opened_vault_paths(), vec!["D:\\A.giftvault", "D:\\B.giftvault"]);
    assert_eq!(state.active_vault_path().expect("active"), "D:\\A.giftvault");
    state.forget_opened_vault_path("\\\\?\\d:/a.GIFTVAULT");
    assert_eq!(state.opened_vault_paths(), vec!["D:\\B.giftvault"]);
    assert_eq!(state.requested_vault_path(None).expect("requested"), "D:\\A.giftvault");
    assert_eq!(state.requested_vault_path(Some("E:\\C.giftvault")).expect("requested"), "E:\\C.giftvault");
    state.close_vault().expect("close");
    assert!(state.opened_vault_paths().is_empty());
    assert_eq!(state.requested_vault_path(None).unwrap_err(), "请先打开礼金库");
}

#[test]
fn opening_and_closing_vaults_leaves_the_administrator_session_alone() {
    let (mut state, _) = app_with_pin("123456");
    state.use_opened_vault("a.giftvault".to_string(), "/x/a.giftvault".to_string());
    state.return_to_start_page().expect("back");
    assert!(state.is_admin_session());
    assert_eq!(state.session().role, SessionRole::Admin);
}

#[test]
fn only_opened_vaults_can_be_targeted() {
    let opened = vec!["D:\\Ledgers\\A.giftvault".to_string()];
    assert_eq!(
        opened_vault_match("d:/ledgers/a.giftvault".to_string(), &opened).expect("opened"),
        "d:/ledgers/a.giftvault"
    );
    assert_eq!(
        opened_vault_match("D:\\Ledgers\\B.giftvault".to_string(), &opened).unwrap_err(),
        "该礼金库未在当前会话中打开"
    );
}

#[test]
fn viewers_open_only_upgraded_vaults() {
    let mut state = AppState::new(AppSecurityStore::new("security.sqlite".to_string()));
    assert_eq!(state.vault_open_plan(8, false), Ok(false));
    assert_eq!(
        state.vault_open_plan(2, false).unwrap_err(),
        "该礼金库需要由管理员模式打开一次完成升级后才能只读查看"
    );
    state.setup_app_admin_pin("123456").expect("setup");
    assert_eq!(state.vault_open_plan(2, false), Ok(true));
    assert_eq!(state.vault_open_plan(8, true), Ok(true));
    assert_eq!(state.vault_open_plan(8, false), Ok(false));
}

// --- tags ----------------------------------------------------------------------

#[test]
fn tag_names_are_compared_by_collapsed_lower_case_form() {
    assert_eq!(normalize_tag_name("  Old   Friends "), "old friends");
    assert_eq!(split_tag_names("Team A, team   a|TEAM a"), vec!["Team A"]);
    assert!(split_tag_names(" ,;/ ").is_empty());
}

#[test]
fn new_tag_colours_follow_the_palette_then_the_generator() {
    let used = vec!["#0F766E".to_string()];
    assert_eq!(next_auto_tag_color(&used), "#2563eb");
    let all = auto_tag_colors();
    let generated = next_auto_tag_color(&all);
    assert_eq!(generated.len(), 7);
    assert!(generated.starts_with('#'));
    assert!(generated[1..].chars().all(|c| c.is_ascii_hexdigit() && !c.is_ascii_uppercase()));
    assert!(!all.contains(&generated));
}

#[test]
fn importing_a_deleted_tag_is_refused_by_name() {
    let sheet = ParsedSheet {
        file_name: "t.csv".to_string(),
        sheet_name: "CSV".to_string(),
        header_row: 1,
        headers: vec!["姓名".to_string(), "金额".to_string(), "标签".to_string()],
        rows: vec![vec!["张三".to_string(), "500".to_string(), "同学、Old  Friends".to_string()]],
    };
    let analysis = analyze_sheet(&sheet);
    assert_eq!(
        ensure_import_tags_are_available(&sheet, &analysis, &["old friends".to_string()]).unwrap_err(),
        "导入标签「old friends」在回收站中，请先恢复或清空回收站"
    );
    assert!(ensure_import_tags_are_available(&sheet, &analysis, &["家人".to_string()]).is_ok());
}

// --- import rows ---------------------------------------------------------------

#[test]
fn an_import_row_becomes_a_gift_record() {
    let sheet = ParsedSheet {
        file_name: "t.csv".to_string(),
        sheet_name: "CSV".to_string(),
        header_row: 1,
        headers: vec![
            "姓名".to_string(),
            "金额".to_string(),
            "支付方式".to_string(),
            "回礼金额".to_string(),
            "标签".to_string(),
        ],
        rows: vec![vec![
            " 张三 ".to_string(),
            "¥500".to_string(),
            "  ".to_string(),
            "".to_string(),
            "亲戚/同学".to_string(),
        ]],
    };
    let analysis = analyze_sheet(&sheet);
    let (name, amount) = import_columns(&analysis).expect("columns");
    let row = prepare_import_row(&sheet.rows[0], &analysis, name, amount).expect("row");
    assert_eq!(row.person_name, "张三");
    assert_eq!(row.amount_fen, 50_000);
    assert_eq!(row.payment_method, "导入");
    assert_eq!(row.return_gift_amount_fen, None);
    assert_eq!(
        row.tags,
        vec![
            ("亲戚".to_string(), "亲戚".to_string()),
            ("同学".to_string(), "同学".to_string())
        ]
    );
    let bad = vec!["李四".to_string(), "很多".to_string()];
    assert_eq!(prepare_import_row(&bad, &analysis, name, amount).unwrap_err(), "导入金额解析失败");
}

#[test]
fn a_bad_return_gift_amount_is_named_in_the_error() {
    let row = vec!["张三".to_string(), " -5 ".to_string()];
    assert_eq!(optional_imported_amount(&row, Some(1)).unwrap_err(), "回礼金额无效: -5");
    assert_eq!(optional_imported_amount(&row, Some(7)), Ok(None));
    assert_eq!(optional_imported_amount(&row, None), Ok(None));
    let good = vec!["12.5".to_string()];
    assert_eq!(optional_imported_amount(&good, Some(0)), Ok(Some(1_250)));
}

#[test]
fn import_column_checks_name_the_missing_column() {
    let sheet = ParsedSheet {
        file_name: "t.csv".to_string(),
        sheet_name: "CSV".to_string(),
        header_row: 1,
        headers: vec!["金额".to_string()],
        rows: vec![],
    };
    assert_eq!(import_columns(&analyze_sheet(&sheet)).unwrap_err(), "缺少姓名列");
}

#[test]
fn preview_tags_split_into_new_and_reused() {
    let value = |name: &str, color: &str, existing: bool| SpreadsheetTagValuePreview {
        name: name.to_string(),
        color: color.to_string(),
        existing,
        count: 1,
    };
    let preview = SpreadsheetTagPreview {
        column_name: Some("标签".to_string()),
        values: vec![value("亲戚", "#0f766e", true), value("Friends", "#2563eb", false)],
    };
    let (created, existing) = partition_preview_tags(&preview);
    assert_eq!(created.len(), 1);
    assert_eq!(created[0].name, "Friends");
    assert_eq!(existing, vec!["亲戚"]);
    assert_eq!(planned_tag_color(&preview, "friends"), "#2563eb");
    assert_eq!(planned_tag_color(&preview, "others"), "#3b82f6");
}

#[test]
fn empty_text_is_stored_as_nothing() {
    assert_eq!(null_if_empty("  "), None);
    assert_eq!(null_if_empty(" 昆明 "), Some("昆明".to_string()));
    assert_eq!(received_at_or_now(" 2026-08-06 "), "2026-08-06");
    assert_eq!(received_at_or_now("").len(), 19);
}

// --- records ------------------------------------------------------------------

#[test]
fn entry_fields_are_checked_in_order() {
    assert_eq!(validate_entry_input(" ", 0, None).unwrap_err(), "姓名不能为空");
    assert_eq!(validate_entry_input("张三", 0, None).unwrap_err(), "金额必须大于 0");
    assert_eq!(validate_entry_input("张三", 100, Some(0)).unwrap_err(), "回礼金额必须大于 0");
    assert!(validate_entry_input("张三", 100, Some(1)).is_ok());
    assert!(validate_return_gift_amount(-1).is_err());
    assert!(validate_return_gift_amount(1).is_ok());
}

#[test]
fn an_edited_entry_keeps_its_person_only_when_name_and_address_match() {
    assert!(same_person("张三", None, " 张三 ", "  "));
    assert!(same_person("张三", Some("昆明"), "张三", " 昆明"));
    assert!(!same_person("张三", Some("昆明"), "张三", ""));
    assert!(!same_person("张三", None, "李四", ""));
    assert_eq!(entry_return_time(None, Some("t0".to_string()), "now"), None);
    assert_eq!(entry_return_time(Some(5), Some("t0".to_string()), "now"), Some("t0".to_string()));
    assert_eq!(entry_return_time(Some(5), None, "now"), Some("now".to_string()));
}

#[test]
fn editing_a_book_lists_each_changed_field() {
    let existing = GiftBook {
        id: "b1".to_string(),
        title: "婚礼".to_string(),
        occasion: "婚礼".to_string(),
        event_date: Some("2026-08-06".to_string()),
        location: None,
        notes: Some("旧备注".to_string()),
        created_at: "2026-01-01".to_string(),
        source_file_name: None,
        source_file_path: None,
        source_imported_at: None,
    };
    let input = EditBookInput {
        title: " 婚礼 ".to_string(),
        occasion: "寿宴".to_string(),
        event_date: "2026-08-06".to_string(),
        location: " 昆明 ".to_string(),
        notes: "".to_string(),
    };
    assert!(validate_book_title(&input.title).is_ok());
    assert_eq!(validate_book_title("  ").unwrap_err(), "礼金簿名称不能为空");
    let (book, changes) = book_edit(&existing, &input);
    assert_eq!(book.title, "婚礼");
    assert_eq!(book.location.as_deref(), Some("昆明"));
    assert_eq!(book.notes, None);
    let triples = changes
        .iter()
        .map(|c| (c.field.as_str(), c.before.as_str(), c.after.as_str()))
        .collect::<Vec<_>>();
    assert_eq!(
        triples,
        vec![("活动类型", "婚礼", "寿宴"), ("地点", "未填写", "昆明"), ("备注", "旧备注", "未填写")]
    );
}

#[test]
fn a_new_tag_needs_a_name_and_a_valid_colour_and_a_free_name() {
    assert_eq!(tag_input(" ", "#000000").unwrap_err(), "标签名称不能为空");
    assert_eq!(
        tag_input("亲戚", " ").expect("default colour"),
        ("亲戚".to_string(), "#3b82f6".to_string())
    );
    assert_eq!(
        tag_input(" 亲戚 ", "#ABCDEF").expect("colour"),
        ("亲戚".to_string(), "#abcdef".to_string())
    );
    assert_eq!(tag_input("亲戚", "blue").unwrap_err(), "标签颜色必须是 #RRGGBB 格式");
    let existing = vec![("Old Friends".to_string(), Some("2026".to_string())), ("家人".to_string(), None)];
    assert_eq!(
        check_tag_conflict("old friends", &existing).unwrap_err(),
        "标签「Old Friends」在回收站中，请先恢复或清空回收站"
    );
    assert_eq!(check_tag_conflict("家人", &existing).unwrap_err(), "标签「家人」已经存在");
    assert!(check_tag_conflict("同学", &existing).is_ok());
}

// --- history ------------------------------------------------------------------

#[test]
fn revertible_records_depend_on_action_and_kind() {
    assert_eq!(revert_check("update", "gift_entry", true), Some(RevertCheck::EntryLive));
    assert_eq!(revert_check("update", "return_gift", true), Some(RevertCheck::EntryLive));
    assert_eq!(revert_check("update", "person", false), None);
    assert_eq!(revert_check("update", "vault", true), Some(RevertCheck::VaultIdentified));
    assert_eq!(revert_check("delete", "gift_book", false), Some(RevertCheck::BookDeleted));
    assert_eq!(revert_check("restore", "person", false), Some(RevertCheck::PersonLive));
    assert_eq!(revert_check("delete", "vault", true), None);
    assert_eq!(revert_check("create", "tag", true), None);
}

#[test]
fn seconds_between_round_toward_zero() {
    assert_eq!(seconds_between((10, 500_000_000), (1, 0)), 9);
    assert_eq!(seconds_between((1, 0), (10, 500_000_000)), -9);
    assert_eq!(seconds_between((5, 0), (5, 999_999_999)), 0);
}

fn tag_payload(before: &str, after: &str, book: Option<&str>) -> AuditPayload {
    AuditPayload {
        target: "张三".to_string(),
        book_title: book.map(str::to_string),
        description: "修改人物标签".to_string(),
        changes: vec![AuditChange {
            field: "人物标签".to_string(),
            before: before.to_string(),
            after: after.to_string(),
        }],
    }
}

fn head(id: &str, at: &str) -> AuditRowHead {
    AuditRowHead {
        id: id.to_string(),
        entity_type: "person".to_string(),
        entity_id: "p1".to_string(),
        created_at: at.to_string(),
    }
}

#[test]
fn quick_tag_edits_of_one_person_merge_into_one_change() {
    let previous = head("a", "2026-08-06T10:00:00+00:00");
    let current = head("b", "2026-08-06T10:00:08.900+00:00");
    let merged = person_tag_audit_merge(
        &current,
        &previous,
        "p1",
        &Some(tag_payload("亲戚", "亲戚、同学", None)),
        &Some(tag_payload("未设置", "亲戚", Some("婚礼"))),
    )
    .expect("merged");
    assert_eq!(merged.change.field, "人物标签");
    assert_eq!(merged.change.before, "未设置");
    assert_eq!(merged.change.after, "亲戚、同学");
    assert_eq!(merged.book_title.as_deref(), Some("婚礼"));

    let late = head("b", "2026-08-06T10:00:09+00:00");
    assert!(person_tag_audit_merge(
        &late,
        &previous,
        "p1",
        &Some(tag_payload("亲戚", "亲戚、同学", None)),
        &Some(tag_payload("未设置", "亲戚", None)),
    )
    .is_none());
    assert!(person_tag_audit_merge(
        &current,
        &previous,
        "p1",
        &Some(tag_payload("同学", "亲戚、同学", None)),
        &Some(tag_payload("未设置", "亲戚", None)),
    )
    .is_none());
    assert!(person_tag_audit_merge(&current, &previous, "p2", &None, &None).is_none());
}

#[test]
fn a_tag_change_is_recorded_only_when_the_tags_differ() {
    let same = "亲戚".to_string();
    assert!(person_tags_audit_payload("张三", &same, &same, &[]).is_none());
    let payload = person_tags_audit_payload("张三", &String::new(), &same, &["婚礼".to_string(), "寿宴".to_string()])
        .expect("payload");
    assert_eq!(payload.book_title.as_deref(), Some("婚礼、寿宴"));
    assert_eq!(payload.changes[0].before, "未设置");
    assert_eq!(payload.changes[0].after, "亲戚");
    let alone = person_tags_audit_payload("张三", &same, &String::new(), &[]).expect("payload");
    assert_eq!(alone.book_title.as_deref(), Some("未关联礼金簿"));
}

// --- export, files, backups -------------------------------------------------------

#[test]
fn exports_are_named_after_the_book_and_end_in_xlsx() {
    assert_eq!(export_default_name("2026/婚礼"), "2026婚礼.xlsx");
    assert_eq!(export_destination("D:\\out\\book.XLSX"), "D:\\out\\book.XLSX");
    assert_eq!(export_destination("D:\\out\\book"), "D:\\out\\book.xlsx");
    let entries = vec![entry("1", "b", "张三", 50_000), entry("2", "b", "李四", -1_000)];
    assert_eq!(export_totals(&entries), (49_000, 2));
    assert_eq!(entry_tag_text(&entries[0]), "亲戚、同学");
}

#[test]
fn ledger_paths_get_their_extension() {
    assert_eq!(normalize_vault_path("ledger.giftvault"), "ledger.giftvault");
    assert_eq!(normalize_vault_path("ledger.db"), "ledger.giftvault");
    assert_eq!(normalize_vault_path("ledger"), "ledger.giftvault");
}

#[test]
fn the_delimiter_is_the_most_frequent_in_the_first_twenty_lines() {
    assert_eq!(spreadsheet_delimiter(b"a;b;c\n1;2;3"), b';');
    assert_eq!(spreadsheet_delimiter(b"a\tb,c"), b',');
    assert_eq!(spreadsheet_delimiter(b"a\tb\tc"), b'\t');
    assert_eq!(spreadsheet_delimiter(b""), b',');
    let mut late = Vec::new();
    for _ in 0..20 {
        late.extend_from_slice(b"x,y\n");
    }
    late.extend_from_slice(b"1;2;3;4;5;6\n");
    assert_eq!(spreadsheet_delimiter(&late), b',');
}

#[test]
fn the_browser_runtime_is_looked_for_beside_the_program() {
    let candidates = embedded_webview_runtime_candidates("/opt/app/lijin-book");
    assert_eq!(candidates.len(), 2);
    assert_eq!(candidates[0].0, "/opt/app/webview2-fixed");
    assert_eq!(candidates[0].1, "/opt/app/webview2-fixed/msedgewebview2.exe");
    assert_eq!(candidates[1].0, "/opt/app/resources/webview2-fixed");
    assert!(embedded_webview_runtime_candidates("/").is_empty());
}

#[test]
fn book_titles_are_numbered_when_taken() {
    assert_eq!(book_title_candidate("婚礼", 2), "婚礼 (2)");
    assert_eq!(book_title_candidate("a", 10), "a (10)");
}

#[test]
fn backups_are_taken_daily_or_before_risky_changes() {
    let names = vec!["daily-20260806-101010-001-x.giftvault".to_string()];
    assert!(has_daily_backup(&names, "20260806"));
    assert!(!has_daily_backup(&names, "20260807"));
    assert_eq!(backup_prefix(false, "edit", true), None);
    assert_eq!(backup_prefix(false, "edit", false), Some("daily".to_string()));
    assert_eq!(backup_prefix(true, "delete-book", true), Some("delete-book".to_string()));
    assert!(backups_to_prune(&names).is_empty());
}

// --- search -----------------------------------------------------------------------

#[test]
fn a_search_reports_hits_of_live_books_only_and_caps_them() {
    let entries = vec![
        entry("1", "b1", "张三", 100),
        entry("2", "gone", "张三", 100),
        entry("3", "b1", "李四", 100),
    ];
    let titles = vec![("b1".to_string(), "婚礼".to_string())];
    let hits = search_in_vault(entries, &titles, "张三", "D:\\a.giftvault", "家");
    assert_eq!(hits.len(), 1);
    assert_eq!(hits[0].entry.id, "1");
    assert_eq!(hits[0].book_title, "婚礼");
    assert_eq!(hits[0].matched_fields, vec!["姓名"]);
    assert_eq!(hits[0].vault_name, "家");

    let many = (0..150).map(|i| entry(&i.to_string(), "b1", "张三", 100)).collect::<Vec<_>>();
    let hits = search_in_vault(many, &titles, "张三", "p", "n");
    let summary = SearchVaultSummary { vault_path: "p".to_string(), vault_name: "n".to_string(), match_count: 150 };
    let response = search_response(hits, vec![summary]);
    assert_eq!(response.total_matches, 150);
    assert!(response.truncated);
    assert_eq!(response.results.len(), 100);
    assert_eq!(response.results[99].entry.id, "99");
    let empty = empty_search_response();
    assert!(empty.results.is_empty() && !empty.truncated && empty.total_matches == 0);
}

// --- installer checksum -----------------------------------------------------------

#[test]
fn the_installer_checksum_is_compared_with_the_sha256_of_the_bytes() {
    let digest = "ba7816bf8f01cfea414140de5dae2223b00361a396177a9cb410ff61f20015ad";
    let text = format!("{digest}  礼金簿管理_0.3.6_x64-setup.exe\n");
    assert!(verify_installer_checksum(b"abc", &text, "礼金簿管理_0.3.6_x64-setup.exe").is_ok());
    assert!(verify_installer_checksum(b"abd", &text, "礼金簿管理_0.3.6_x64-setup.exe").is_err());
}

// --- further contracts ----------------------------------------------------------

use lijin_book::audit::{entry_audit_changes, should_record_audit, EntryAuditSnapshot};
use lijin_book::comparison::{merge_comparison_person_sources, normalized_comparison_person_name};
use lijin_book::history::fallback_audit_payload;
use lijin_book::models::{ComparisonPerson, ComparisonPersonSource};
use lijin_book::search::normalized_search;
use lijin_book::sheet::{has_required_columns, mapping_from_analysis, validate_spreadsheet_import};
use lijin_book::update::{candidate_from_github_release, newer_release, GithubAsset, GithubRelease};

#[test]
fn comparison_names_drop_whitespace_and_ignore_case_beyond_ascii() {
    assert_eq!(normalized_comparison_person_name("  Élise  Mïng "), "élisemïng");
    assert_eq!(normalized_comparison_person_name("ΑΒΓ 张三"), "αβγ张三");
    assert_eq!(normalized_comparison_person_name("   "), "");
}

#[test]
fn search_queries_drop_money_punctuation_and_case() {
    assert_eq!(normalized_search("  ¥1,200.50 ÉLAN "), "120050élan");
    assert_eq!(normalized_search("￥ 30"), "30");
}

#[test]
fn merged_comparison_sources_are_unique_and_sorted_by_title() {
    let source = |book_id: &str, title: &str| ComparisonPersonSource {
        vault_path: "D:\\a.giftvault".to_string(),
        vault_name: "家".to_string(),
        book_id: book_id.to_string(),
        book_title: title.to_string(),
        event_date: None,
        gift_count: 1,
        total_fen: 100,
    };
    let person = |sources: Vec<ComparisonPersonSource>| ComparisonPerson {
        vault_path: "D:\\a.giftvault".to_string(),
        vault_name: "家".to_string(),
        person_id: "p".to_string(),
        display_name: "张三".to_string(),
        address: None,
        notes: None,
        tags: Vec::new(),
        source_books: sources,
    };
    let mut target = person(vec![source("b2", "婚礼B")]);
    merge_comparison_person_sources(&mut target, person(vec![source("b1", "婚礼A"), source("b2", "婚礼B")]));
    let ids = target.source_books.iter().map(|s| s.book_id.as_str()).collect::<Vec<_>>();
    assert_eq!(ids, vec!["b1", "b2"]);
}

#[test]
fn an_analysis_gives_back_its_column_mapping_and_is_checked_before_import() {
    let sheet = ParsedSheet {
        file_name: "t.csv".to_string(),
        sheet_name: "CSV".to_string(),
        header_row: 1,
        headers: vec!["姓名".to_string(), "金额".to_string(), "标签".to_string()],
        rows: vec![vec!["张三".to_string(), "500".to_string(), "亲戚".to_string()]],
    };
    assert!(has_required_columns(&sheet.headers));
    assert!(!has_required_columns(&["备注".to_string()]));
    let analysis = analyze_sheet(&sheet);
    let mapping = mapping_from_analysis(&analysis);
    assert_eq!(mapping.name, Some(0));
    assert_eq!(mapping.amount, Some(1));
    assert_eq!(mapping.tags, Some(2));
    assert_eq!(mapping.address, None);
    assert!(validate_spreadsheet_import(&analysis).is_ok());

    let bad = ParsedSheet {
        rows: vec![
            vec!["张三".to_string(), "x".to_string()],
            vec!["".to_string(), "5".to_string()],
        ],
        ..sheet.clone()
    };
    let bad_analysis = analyze_sheet(&bad);
    let message = validate_spreadsheet_import(&bad_analysis).unwrap_err();
    assert!(message.starts_with("导入未执行："));
    assert!(message.contains("；"));

    let empty = ParsedSheet { rows: Vec::new(), ..sheet };
    assert_eq!(validate_spreadsheet_import(&analyze_sheet(&empty)).unwrap_err(), "没有可导入的有效记录");
}

#[test]
fn entry_history_lists_amount_and_tag_changes() {
    let snapshot = |amount_fen: i64, tags: &str| EntryAuditSnapshot {
        book_title: "婚礼".to_string(),
        person_name: "张三".to_string(),
        address: None,
        amount_fen,
        payment_method: "现金".to_string(),
        note: None,
        return_gift: None,
        return_gift_amount_fen: None,
        tags: tags.to_string(),
    };
    let changes = entry_audit_changes(&snapshot(50_000, ""), &snapshot(-120_050, "亲戚"));
    let triples = changes
        .iter()
        .map(|c| (c.field.as_str(), c.before.as_str(), c.after.as_str()))
        .collect::<Vec<_>>();
    assert_eq!(
        triples,
        vec![("金额", "¥500.00", "¥-1200.-50"), ("人物标签", "未设置", "亲戚")]
    );
    assert!(entry_audit_changes(&snapshot(1, "a"), &snapshot(1, "a")).is_empty());
    assert!(should_record_audit("gift_entry", "restore"));
    assert!(should_record_audit("vault", "update"));
    assert!(!should_record_audit("vault", "delete"));
    assert!(!should_record_audit("tag", "create"));
    let fallback = fallback_audit_payload();
    assert_eq!(fallback.target, "历史记录");
    assert_eq!(fallback.description, "历史记录未保存具体变更内容");
}

#[test]
fn the_security_status_matches_the_session_status() {
    let (state, _) = app_with_pin("123456");
    let a = state.session_status().expect("status");
    let b = state.get_app_security_status().expect("status");
    assert_eq!((a.role, a.security_configured, a.edit_locked), (b.role, b.security_configured, b.edit_locked));
}

#[test]
fn a_release_offers_its_installer_and_checksums_when_newer() {
    let asset = |name: &str| GithubAsset {
        name: name.to_string(),
        browser_download_url: format!("https://example.invalid/{name}"),
    };
    let release = GithubRelease {
        tag_name: "v0.3.7".to_string(),
        body: Some("notes".to_string()),
        published_at: None,
        html_url: None,
        assets: vec![asset("Gift-Money-Management-System_0.3.7_x64-setup.exe"), asset("sha256sums.TXT")],
    };
    let candidate = candidate_from_github_release(&release).expect("release").expect("candidate");
    assert_eq!(candidate.version, "0.3.7");
    assert_eq!(candidate.file_name, "Gift-Money-Management-System_0.3.7_x64-setup.exe");
    assert_eq!(candidate.checksum_url.as_deref(), Some("https://example.invalid/sha256sums.TXT"));
    assert!(newer_release(Some(candidate.clone()), "0.3.6").is_some());
    assert!(newer_release(Some(candidate.clone()), "0.3.7").is_none());
    assert!(newer_release(Some(candidate), "bad").is_none());

    let no_sums = GithubRelease { assets: vec![asset("Gift-Money-Management-System_0.3.7_x64-setup.exe")], ..release.clone() };
    assert_eq!(
        candidate_from_github_release(&no_sums).unwrap_err(),
        "GitHub Release 缺少 SHA256SUMS.txt，已拒绝更新"
    );
    let bad_tag = GithubRelease { tag_name: "v1.2".to_string(), ..release };
    assert_eq!(candidate_from_github_release(&bad_tag).unwrap_err(), "GitHub 最新发布版本号格式无效：v1.2");
}

use lijin_book::comparison::{people_in_several_vaults, sort_comparison_people, unique_comparison_people};

fn listed(vault: &str, id: &str, name: &str, address: Option<&str>, books: &[(&str, &str)]) -> ComparisonPerson {
    ComparisonPerson {
        vault_path: vault.to_string(),
        vault_name: format!("{vault}-name"),
        person_id: id.to_string(),
        display_name: name.to_string(),
        address: address.map(str::to_string),
        notes: None,
        tags: Vec::new(),
        source_books: books
            .iter()
            .map(|(book_id, title)| ComparisonPersonSource {
                vault_path: vault.to_string(),
                vault_name: format!("{vault}-name"),
                book_id: book_id.to_string(),
                book_title: title.to_string(),
                event_date: None,
                gift_count: 1,
                total_fen: 100,
            })
            .collect(),
    }
}

#[test]
fn people_are_listed_by_name_vault_and_address() {
    let people = vec![
        listed("b", "1", "Wang", Some("x"), &[]),
        listed("a", "2", "Wang", Some("x"), &[]),
        listed("a", "3", "Li", None, &[]),
        listed("a", "4", "Wang", None, &[]),
    ];
    let ids = sort_comparison_people(people).into_iter().map(|p| p.person_id).collect::<Vec<_>>();
    assert_eq!(ids, vec!["3", "4", "2", "1"]);
}

#[test]
fn duplicates_across_vaults_need_two_vaults() {
    let people = vec![
        listed("a", "1", "Liu  Yang", None, &[]),
        listed("a", "2", "liu yang", None, &[]),
        listed("b", "3", "LIU YANG", None, &[]),
        listed("a", "4", "Wang", None, &[]),
        listed("b", "5", "Wang ", None, &[]),
        listed("a", "6", "Zhao", None, &[]),
        listed("a", "7", "Zhao", None, &[]),
    ];
    let ids = people_in_several_vaults(people).into_iter().map(|p| p.person_id).collect::<Vec<_>>();
    assert_eq!(ids, vec!["1", "2", "3", "4", "5"]);
}

#[test]
fn a_person_listed_in_several_books_is_listed_once() {
    let people = vec![
        listed("a", "1", "Liu", None, &[("b2", "寿宴")]),
        listed("a", "2", "Wang", None, &[("b1", "婚礼")]),
        listed("a", "1", "Liu", None, &[("b1", "婚礼"), ("b2", "寿宴")]),
    ];
    let unique = unique_comparison_people(people);
    assert_eq!(unique.len(), 2);
    assert_eq!(unique[0].person_id, "1");
    let books = unique[0].source_books.iter().map(|s| s.book_id.as_str()).collect::<Vec<_>>();
    assert_eq!(books, vec!["b1", "b2"]);
    let titles = unique[0].source_books.iter().map(|s| s.book_title.as_str()).collect::<Vec<_>>();
    assert_eq!(titles, vec!["婚礼", "寿宴"]);
}

use lijin_book::audit::format_money_fen;
use lijin_book::money::parse_amount_fen;
use lijin_book::tags::normalize_tag_color;

#[test]
fn money_written_in_the_history_reads_back() {
    for amount in [0i64, 5, 99, 100, 50_000, 120_050, 3_020_000, 9_007_199_254_740_993] {
        assert_eq!(parse_amount_fen(&format_money_fen(amount)), Some(amount));
    }
    assert_eq!(format_money_fen(120_050), "¥1200.50");
    assert_eq!(format_money_fen(5), "¥0.05");
}

#[test]
fn a_normalized_colour_normalizes_to_itself() {
    let once = normalize_tag_color(" #ABCdef ").expect("valid");
    assert_eq!(once, "#abcdef");
    assert_eq!(normalize_tag_color(&once).expect("valid"), once);
}

#[test]
fn few_backups_are_all_kept() {
    let names = (1..=5).map(|i| format!("daily-2026080{i}.giftvault")).collect::<Vec<_>>();
    assert!(backups_to_prune(&names).is_empty());
    let mut many = (10..=24).map(|i| format!("edit-20260806-0000{i}.giftvault")).collect::<Vec<_>>();
    many.reverse();
    let pruned = backups_to_prune(&many);
    assert_eq!(pruned.len(), 5);
    assert!(pruned.iter().all(|name| name.as_str() < "edit-20260806-000015.giftvault"));
}

#[test]
fn new_tags_of_one_import_get_distinct_fresh_colours() {
    let sheet = ParsedSheet {
        file_name: "t.csv".to_string(),
        sheet_name: "CSV".to_string(),
        header_row: 1,
        headers: vec!["姓名".to_string(), "金额".to_string(), "标签".to_string()],
        rows: vec![
            vec!["a".to_string(), "1".to_string(), "x、y".to_string()],
            vec!["b".to_string(), "1".to_string(), "z、亲戚、X".to_string()],
        ],
    };
    let existing = vec![(
        "亲戚".to_string(),
        lijin_book::tags::TagCatalogEntry {
            id: "t".to_string(),
            name: "亲戚".to_string(),
            color: "#2563EB".to_string(),
        },
    )];
    let analysis = analyze_sheet(&sheet);
    let preview = lijin_book::tags::tag_previews(&sheet, analysis.tag_index, &existing);
    let names = preview.values.iter().map(|v| v.name.as_str()).collect::<Vec<_>>();
    assert_eq!(names, vec!["x", "y", "z", "亲戚"]);
    let counts = preview.values.iter().map(|v| v.count).collect::<Vec<_>>();
    assert_eq!(counts, vec![2, 1, 1, 1]);
    let colours = preview.values.iter().filter(|v| !v.existing).map(|v| v.color.clone()).collect::<Vec<_>>();
    assert_eq!(colours, vec!["#0f766e", "#b45309", "#9f1239"]);
    assert_eq!(preview.values[3].color, "#2563EB");
}

use lijin_book::comparison::{sort_comparison_books, sort_person_history};
use lijin_book::models::{ComparisonBook, ComparisonPersonHistory, TrashItem};
use lijin_book::trash::{sort_trash_items, trash_kind, vault_trash_item, TrashKind};

fn compared_book(id: &str, vault: &str, title: &str, date: Option<&str>) -> ComparisonBook {
    ComparisonBook {
        vault_path: format!("C:/{vault}.giftvault"),
        vault_name: vault.to_string(),
        book_id: id.to_string(),
        title: title.to_string(),
        event_date: date.map(str::to_string),
        people_count: 0,
        gift_count: 0,
        total_fen: 0,
    }
}

#[test]
fn comparison_books_list_latest_event_first_then_vault_and_title() {
    let books = vec![
        compared_book("undated", "甲", "无日期", None),
        compared_book("old", "甲", "旧", Some("2023-01-01")),
        compared_book("new-b", "Bvault", "Gift", Some("2024-05-01")),
        compared_book("new-a2", "Avault", "Wedding", Some("2024-05-01")),
        compared_book("new-a1", "Avault", "Birthday", Some("2024-05-01")),
    ];
    let ids = sort_comparison_books(books).into_iter().map(|b| b.book_id).collect::<Vec<_>>();
    assert_eq!(ids, vec!["new-a1", "new-a2", "new-b", "old", "undated"]);
}

fn history_row(entry_id: &str, date: Option<&str>, received: &str) -> ComparisonPersonHistory {
    ComparisonPersonHistory {
        vault_path: "C:/a.giftvault".to_string(),
        vault_name: "甲".to_string(),
        person_id: "p1".to_string(),
        person_name: "张三".to_string(),
        person_address: None,
        person_notes: None,
        tags: Vec::new(),
        entry_id: entry_id.to_string(),
        book_id: "b".to_string(),
        book_title: "簿".to_string(),
        event_date: date.map(str::to_string),
        gift_count: 1,
        total_fen: 100,
        payment_method: "现金".to_string(),
        note: None,
        return_gift: None,
        return_gift_amount_fen: None,
        latest_received_at: received.to_string(),
    }
}

#[test]
fn person_history_lists_latest_event_then_latest_gift_first() {
    let rows = vec![
        history_row("no-date", None, "2025-01-01 10:00"),
        history_row("early", Some("2024-01-01"), "2024-01-01 09:00"),
        history_row("same-day-early", Some("2024-06-01"), "2024-06-01 08:00"),
        history_row("same-day-late", Some("2024-06-01"), "2024-06-01 18:00"),
        history_row("tie", Some("2024-06-01"), "2024-06-01 08:00"),
    ];
    let ids = sort_person_history(rows).into_iter().map(|h| h.entry_id).collect::<Vec<_>>();
    assert_eq!(ids, vec!["same-day-late", "same-day-early", "tie", "early", "no-date"]);
}

fn binned(id: &str, kind: &str, deleted_at: &str) -> TrashItem {
    TrashItem {
        id: id.to_string(),
        kind: kind.to_string(),
        vault_path: Some("C:/a.giftvault".to_string()),
        title: id.to_string(),
        book_title: "簿".to_string(),
        deleted_at: deleted_at.to_string(),
    }
}

#[test]
fn recycle_bin_lists_most_recently_deleted_first() {
    let items = vec![
        binned("book-1", "book", "2024-03-01 10:00:00"),
        binned("entry-1", "entry", "2024-05-01 10:00:00"),
        binned("tag-1", "tag", "2024-03-01 10:00:00"),
        vault_trash_item("v-1".to_string(), "旧库".to_string(), "2024-04-01 10:00:00".to_string()),
    ];
    let ids = sort_trash_items(items).into_iter().map(|t| t.id).collect::<Vec<_>>();
    assert_eq!(ids, vec!["entry-1", "v-1", "book-1", "tag-1"]);
}

#[test]
fn deleted_vault_file_is_listed_as_a_vault_item() {
    let item = vault_trash_item("v-9".to_string(), "家庭".to_string(), "2024-01-01".to_string());
    assert_eq!(item.kind, "vault");
    assert_eq!(item.book_title, "礼金库文件");
    assert_eq!(item.vault_path, None);
    assert_eq!(item.title, "家庭");
}

#[test]
fn recycle_bin_kinds_are_recognised_and_others_refused() {
    assert_eq!(trash_kind("book"), Ok(TrashKind::Book));
    assert_eq!(trash_kind("entry"), Ok(TrashKind::Entry));
    assert_eq!(trash_kind("tag"), Ok(TrashKind::Tag));
    assert_eq!(trash_kind("person"), Ok(TrashKind::Person));
    assert_eq!(trash_kind("vault"), Ok(TrashKind::Vault));
    assert_eq!(trash_kind("audit"), Err("不支持的回收站项目类型".to_string()));
}

use lijin_book::revert::{recorded_tags, revert_step, revert_steps, RevertStep};

fn recorded(field: &str, before: &str) -> AuditChange {
    AuditChange { field: field.to_string(), before: before.to_string(), after: "x".to_string() }
}

#[test]
fn reverting_an_entry_edit_gives_back_every_earlier_value() {
    let before = EntryAuditSnapshot {
        book_title: "婚礼".to_string(),
        person_name: "张三".to_string(),
        address: None,
        amount_fen: 120_050,
        payment_method: "现金".to_string(),
        note: Some("随礼".to_string()),
        return_gift: None,
        return_gift_amount_fen: Some(8_800),
        tags: "亲戚、同学".to_string(),
    };
    let after = EntryAuditSnapshot {
        book_title: "婚礼".to_string(),
        person_name: "李四".to_string(),
        address: Some("北京".to_string()),
        amount_fen: 20_000,
        payment_method: "微信".to_string(),
        note: None,
        return_gift: Some("喜糖".to_string()),
        return_gift_amount_fen: None,
        tags: String::new(),
    };
    let changes = entry_audit_changes(&before, &after);
    assert_eq!(changes.len(), 8);
    let steps = revert_steps("gift_entry", &changes).expect("every field has a way back");
    assert!(matches!(&steps[0], RevertStep::EntryPersonName(n) if n == "张三"));
    assert!(matches!(&steps[1], RevertStep::EntryPersonAddress(None)));
    assert!(matches!(&steps[2], RevertStep::EntryAmount(120_050)));
    assert!(matches!(&steps[3], RevertStep::EntryPaymentMethod(m) if m == "现金"));
    assert!(matches!(&steps[4], RevertStep::EntryNote(Some(n)) if n == "随礼"));
    assert!(matches!(&steps[5], RevertStep::EntryReturnGift(None)));
    assert!(matches!(&steps[6], RevertStep::EntryReturnGiftAmount(Some(8_800))));
    assert!(matches!(&steps[7], RevertStep::EntryPersonTags(t) if t == &vec!["亲戚".to_string(), "同学".to_string()]));
}

#[test]
fn reverting_a_vault_rename_writes_back_the_old_name() {
    let step = revert_step("vault", "礼金库名称", &"婚礼礼金".to_string()).expect("vault name");
    assert!(matches!(step, RevertStep::VaultName(n) if n == "婚礼礼金"));
    let notes = revert_step("vault", "礼金库备注", &"未填写".to_string()).expect("vault notes");
    assert!(matches!(notes, RevertStep::VaultNotes(n) if n.is_empty()));
}

#[test]
fn reverting_book_fields_clears_values_that_were_unset() {
    let date = revert_step("gift_book", "活动日期", &"未设置".to_string()).expect("date");
    assert!(matches!(date, RevertStep::BookEventDate(None)));
    let place = revert_step("gift_book", "地点", &"酒店".to_string()).expect("place");
    assert!(matches!(place, RevertStep::BookLocation(Some(p)) if p == "酒店"));
    let title = revert_step("gift_book", "礼金簿名称", &"寿宴".to_string()).expect("title");
    assert!(matches!(title, RevertStep::BookTitle(t) if t == "寿宴"));
}

#[test]
fn reverting_is_refused_without_changes_or_without_a_safe_mapping() {
    assert_eq!(
        revert_steps("gift_entry", &[]).err(),
        Some("该历史记录没有保存可逆的字段快照，无法恢复".to_string())
    );
    assert_eq!(
        revert_step("gift_book", "封面", &"红色".to_string()).err(),
        Some("历史字段“封面”没有安全的恢复映射".to_string())
    );
    assert_eq!(
        revert_step("gift_entry", "金额", &"很多".to_string()).err(),
        Some("历史礼金金额格式无法恢复".to_string())
    );
    assert_eq!(
        revert_step("return_gift", "回礼金额", &"不详".to_string()).err(),
        Some("历史回礼金额格式无法恢复".to_string())
    );
    let first_refusal = revert_steps(
        "gift_entry",
        &[recorded("支付方式", "现金"), recorded("颜色", "红"), recorded("金额", "坏")],
    );
    assert_eq!(first_refusal.err(), Some("历史字段“颜色”没有安全的恢复映射".to_string()));
}

#[test]
fn recorded_tag_lists_are_read_back_as_names() {
    assert_eq!(recorded_tags(" 亲戚 、、同学 "), vec!["亲戚".to_string(), "同学".to_string()]);
    assert!(recorded_tags("未设置").is_empty());
    assert!(recorded_tags("   ").is_empty());
    let person = revert_step("person", "人物标签", &"朋友".to_string()).expect("person tags");
    assert!(matches!(person, RevertStep::PersonTags(t) if t == vec!["朋友".to_string()]));
}

use lijin_book::files::{comparison_vault_name, vault_info, vault_open_result};

#[test]
fn a_ledger_is_named_by_what_it_stores_else_by_its_file() {
    let stored = vault_info("/data/家庭.giftvault", Some("婚礼".to_string()), Some("  备注 ".to_string()), 3);
    assert_eq!(stored.name, "婚礼");
    assert_eq!(stored.notes.as_deref(), Some("备注"));
    assert_eq!(stored.book_count, 3);
    assert_eq!(stored.path, "/data/家庭.giftvault");
    let unnamed = vault_info("/data/家庭.giftvault", None, Some("   ".to_string()), 0);
    assert_eq!(unnamed.name, "家庭");
    assert_eq!(unnamed.notes, None);
    let nameless = vault_info("", None, None, 0);
    assert_eq!(nameless.name, "家庭礼金库");
    let opened = vault_open_result(stored, SessionRole::Admin);
    assert_eq!(opened.role, "admin");
    assert_eq!(opened.vault.name, "婚礼");
}

#[test]
fn a_compared_ledger_with_a_blank_name_is_named_by_its_file() {
    assert_eq!(comparison_vault_name(Some("  ".to_string()), "/data/亲戚.giftvault"), "亲戚");
    assert_eq!(comparison_vault_name(Some("张家".to_string()), "/data/亲戚.giftvault"), "张家");
    assert_eq!(comparison_vault_name(None, ""), "礼金库");
}

use lijin_book::records::vault_edit;

#[test]
fn editing_a_ledger_trims_and_records_name_and_notes() {
    let (name, notes, changes) =
        vault_edit(&"家庭".to_string(), &"".to_string(), "  婚礼  ", " 2026 ").expect("valid name");
    assert_eq!(name, "婚礼");
    assert_eq!(notes, "2026");
    assert_eq!(changes.len(), 2);
    assert_eq!((changes[0].field.as_str(), changes[0].before.as_str(), changes[0].after.as_str()), ("礼金库名称", "家庭", "婚礼"));
    assert_eq!((changes[1].field.as_str(), changes[1].before.as_str(), changes[1].after.as_str()), ("礼金库备注", "未填写", "2026"));
    let (_, _, none) = vault_edit(&"婚礼".to_string(), &"2026".to_string(), "婚礼", "2026").expect("same");
    assert!(none.is_empty());
    assert_eq!(vault_edit(&"a".to_string(), &"".to_string(), "   ", "x").err(), Some("礼金库名称不能为空".to_string()));
    let back = revert_steps("vault", &changes).expect("revertible");
    assert!(matches!(&back[0], RevertStep::VaultName(n) if n == "家庭"));
    assert!(matches!(&back[1], RevertStep::VaultNotes(n) if n.is_empty()));
}

#[test]
fn reverting_a_book_edit_gives_back_the_earlier_fields() {
    let existing = GiftBook {
        id: "b1".to_string(),
        title: "婚礼".to_string(),
        occasion: "婚礼".to_string(),
        event_date: Some("2026-08-06".to_string()),
        location: Some("大理".to_string()),
        notes: Some("旧备注".to_string()),
        created_at: "2026-01-01".to_string(),
        source_file_name: None,
        source_file_path: None,
        source_imported_at: None,
    };
    let input = EditBookInput {
        title: "寿宴".to_string(),
        occasion: "生日".to_string(),
        event_date: "2027-01-01".to_string(),
        location: "昆明".to_string(),
        notes: "".to_string(),
    };
    let (_, changes) = book_edit(&existing, &input);
    let back = revert_steps("gift_book", &changes).expect("revertible");
    assert_eq!(back.len(), 5);
    assert!(matches!(&back[0], RevertStep::BookTitle(t) if t == "婚礼"));
    assert!(matches!(&back[1], RevertStep::BookOccasion(o) if o == "婚礼"));
    assert!(matches!(&back[2], RevertStep::BookEventDate(Some(d)) if d == "2026-08-06"));
    assert!(matches!(&back[3], RevertStep::BookLocation(Some(l)) if l == "大理"));
    assert!(matches!(&back[4], RevertStep::BookNotes(Some(n)) if n == "旧备注"));
}

use lijin_book::records::return_gift_changes;

#[test]
fn editing_a_return_gift_records_amount_and_note_and_reverts() {
    let changes = return_gift_changes(8_800, &None, 10_000, " 喜糖 ");
    assert_eq!(changes.len(), 2);
    assert_eq!((changes[0].field.as_str(), changes[0].before.as_str(), changes[0].after.as_str()), ("回礼金额", "¥88.00", "¥100.00"));
    assert_eq!((changes[1].field.as_str(), changes[1].before.as_str(), changes[1].after.as_str()), ("回礼备注", "未填写", "喜糖"));
    assert!(return_gift_changes(100, &Some("茶".to_string()), 100, "茶").is_empty());
    let back = revert_steps("gift_entry", &changes).expect("revertible");
    assert!(matches!(&back[0], RevertStep::EntryReturnGiftAmount(Some(8_800))));
    assert!(matches!(&back[1], RevertStep::EntryReturnGift(None)));
}

#[test]
fn reverting_a_book_date_recorded_as_unfilled_writes_that_text_back() {
    let step = revert_step("gift_book", "活动日期", &"未填写".to_string()).expect("date");
    assert!(matches!(step, RevertStep::BookEventDate(Some(d)) if d == "未填写"));
}

use lijin_book::files::{comparison_file_kind, distinct_vault_paths, ComparisonFile};

#[test]
fn comparison_files_are_ledgers_or_spreadsheets() {
    assert_eq!(comparison_file_kind("/d/家.GiftVault"), Ok(ComparisonFile::Vault));
    assert_eq!(comparison_file_kind("/d/表.XLSX"), Ok(ComparisonFile::Spreadsheet));
    assert_eq!(comparison_file_kind("/d/表.csv"), Ok(ComparisonFile::Spreadsheet));
    assert_eq!(comparison_file_kind("/d/说明.txt"), Err("不支持的比较文件类型：/d/说明.txt".to_string()));
}

#[test]
fn each_ledger_is_compared_once_in_the_order_chosen() {
    let paths = vec!["/a.giftvault", "/b.giftvault", "/a.giftvault", "/c.giftvault", "/b.giftvault"]
        .into_iter()
        .map(str::to_string)
        .collect::<Vec<_>>();
    assert_eq!(distinct_vault_paths(paths), vec!["/a.giftvault", "/b.giftvault", "/c.giftvault"]);
}

use lijin_book::files::vault_trash_check;

#[test]
fn only_an_idle_giftvault_file_goes_to_the_bin() {
    assert_eq!(vault_trash_check("/d/家.giftvault", &None), Ok(()));
    assert_eq!(vault_trash_check("/d/家.giftvault", &Some("/d/别的.giftvault".to_string())), Ok(()));
    assert_eq!(vault_trash_check("/d/家.xlsx", &None), Err("只能删除礼金库文件".to_string()));
    assert_eq!(vault_trash_check("/d/家.GIFTVAULT", &None), Err("只能删除礼金库文件".to_string()));
    assert_eq!(
        vault_trash_check("/d/家.giftvault", &Some("/d/家.giftvault".to_string())),
        Err("当前正在操作的礼金库不能从比较区删除，请先切换到其他礼金库".to_string())
    );
}

use lijin_book::revert::{history_undo, undo_batch_check, HistoryUndo};

#[test]
fn history_records_are_undone_by_their_action() {
    assert_eq!(history_undo("delete", "gift_entry"), Ok(HistoryUndo::RestoreDeleted));
    assert_eq!(history_undo("restore", "person"), Ok(HistoryUndo::DeleteAgain));
    assert_eq!(history_undo("update", "vault"), Ok(HistoryUndo::RevertChanges));
    assert_eq!(history_undo("update", "return_gift"), Ok(HistoryUndo::RevertChanges));
    assert_eq!(history_undo("update", "tag"), Err("该历史记录类型没有安全的恢复机制".to_string()));
    assert_eq!(history_undo("import", "gift_book"), Err("该历史记录类型没有安全的恢复机制".to_string()));
    assert_eq!(undo_batch_check(0, 0), Err("请先进入多选并选择要恢复的历史改动".to_string()));
    assert_eq!(undo_batch_check(3, 2), Err("部分历史记录已不存在，未执行恢复".to_string()));
    assert_eq!(undo_batch_check(2, 2), Ok(()));
}

use lijin_book::files::{embedded_webview_runtime_choice, unique_book_title};
use lijin_book::import::{return_time_source, ReturnTimeSource};

#[test]
fn the_portable_runtime_wins_over_the_installed_one() {
    let exe = "/opt/app/lijin-book.exe";
    assert_eq!(embedded_webview_runtime_choice(exe, true, true).as_deref(), Some("/opt/app/webview2-fixed"));
    assert_eq!(
        embedded_webview_runtime_choice(exe, false, true).as_deref(),
        Some("/opt/app/resources/webview2-fixed")
    );
    assert_eq!(embedded_webview_runtime_choice(exe, false, false), None);
    assert_eq!(embedded_webview_runtime_choice("", true, true), None);
}

#[test]
fn an_imported_return_time_comes_from_its_cell_or_the_import() {
    let row = vec!["张三".to_string(), " 2026/8/7 ".to_string(), "  ".to_string()];
    assert!(matches!(return_time_source(&row, Some(1), None), ReturnTimeSource::NoReturnGift));
    assert!(matches!(return_time_source(&row, Some(1), Some(100)), ReturnTimeSource::Cell(t) if t == "2026/8/7"));
    assert!(matches!(return_time_source(&row, Some(2), Some(100)), ReturnTimeSource::ImportTime));
    assert!(matches!(return_time_source(&row, Some(9), Some(100)), ReturnTimeSource::ImportTime));
    assert!(matches!(return_time_source(&row, None, Some(100)), ReturnTimeSource::ImportTime));
}

#[test]
fn an_imported_book_gets_the_first_free_title() {
    let taken = vec!["婚礼".to_string(), "婚礼 (2)".to_string(), "寿宴".to_string()];
    assert_eq!(unique_book_title("婚礼", &taken), "婚礼 (3)");
    assert_eq!(unique_book_title("满月", &taken), "满月");
    assert_eq!(unique_book_title("寿宴", &taken), "寿宴 (2)");
    assert_eq!(unique_book_title("2026/婚礼:礼金?", &[]), "2026婚礼礼金");
}

#[test]
fn a_blank_receiving_time_is_stamped_with_the_local_time() {
    let stamped = received_at_or_now("   ");
    let b = stamped.as_bytes();
    assert_eq!(b.len(), 19);
    assert_eq!((b[4], b[7], b[10], b[13], b[16]), (b'-', b'-', b' ', b':', b':'));
}

#[test]
fn clearing_then_setting_a_tag_merges_into_one_change() {
    let at = "2026-08-11T12:00:00+08:00";
    let first = head("first", at);
    let second = head("second", at);
    let payload = |before: &str, after: &str| AuditPayload {
        target: "二狗".to_string(),
        book_title: Some("测试数据 B".to_string()),
        description: "修改人物标签".to_string(),
        changes: vec![AuditChange { field: "人物标签".to_string(), before: before.to_string(), after: after.to_string() }],
    };
    let merged = person_tag_audit_merge(
        &second,
        &first,
        "p1",
        &Some(payload("未设置", "52班")),
        &Some(payload("兄弟", "未设置")),
    )
    .expect("merged into one change");
    assert_eq!(merged.change.before, "兄弟");
    assert_eq!(merged.change.after, "52班");
    assert_eq!(merged.book_title.as_deref(), Some("测试数据 B"));
}

use lijin_book::files::text_sheet_rows;
use lijin_book::import::written_received_at;
use lijin_book::tags::tag_colors_suffice;

#[test]
fn text_spreadsheets_are_split_at_their_delimiter() {
    let rows = text_sheet_rows("姓名;金额\n张三;100\n李四;200;多余\n".as_bytes(), false).expect("rows");
    assert_eq!(rows, vec![vec!["姓名", "金额"], vec!["张三", "100"], vec!["李四", "200", "多余"]]);
    let tabbed = text_sheet_rows("姓名\t金额\n王五\t50\n".as_bytes(), true).expect("rows");
    assert_eq!(tabbed, vec![vec!["姓名", "金额"], vec!["王五", "50"]]);
    let quoted = text_sheet_rows("a,\"b,c\"\n".as_bytes(), false).expect("rows");
    assert_eq!(quoted, vec![vec!["a", "b,c"]]);
}

#[test]
fn written_receiving_times_are_stored_in_one_form() {
    assert_eq!(written_received_at("2026-08-05 12:34:56"), "2026-08-05 12:34:56");
    assert_eq!(written_received_at("2026/8/7 00:00:03"), "2026-08-07 00:00:03");
    assert_eq!(written_received_at("2026-08-05 12:34"), "2026-08-05 12:34:00");
    assert_eq!(written_received_at("2026/8/7"), "2026-08-07 00:00:00");
    assert_eq!(written_received_at("原始日期"), "原始日期");
}

#[test]
fn a_small_tag_column_always_leaves_colours_for_new_tags() {
    let sheet = lijin_book::sheet::ParsedSheet {
        file_name: "a.csv".to_string(),
        sheet_name: "CSV".to_string(),
        header_row: 1,
        headers: vec!["姓名".to_string(), "标签".to_string()],
        rows: vec![vec!["张三".to_string(), "亲戚、同学".to_string()]],
    };
    assert!(tag_colors_suffice(&sheet, Some(1), &[]));
    assert!(tag_colors_suffice(&sheet, None, &[]));
}
