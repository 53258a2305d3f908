use lijin_book::comparison::duplicate_comparison_people;
use lijin_book::files::{
    is_comparison_spreadsheet, is_giftvault_path, spreadsheet_extensions,
    WINDOWS_THIS_PC_NAMESPACE,
};
use lijin_book::models::{ComparisonPerson, GiftEntry, SpreadsheetColumnMapping};
use lijin_book::money::parse_amount_fen;
use lijin_book::search::{comparable_path, displayable_path, entry_match_fields, resolve_opened_search_paths};
use lijin_book::security::{validate_pin, AppSecurityStore};
use lijin_book::session::{SessionRole, SessionState};
use lijin_book::sheet::{
    analyze_sheet, analyze_sheet_with_mapping, column_index, normalized_header,
    parsed_sheet_from_rows, safe_excel_file_stem, safe_worksheet_name,
    validate_spreadsheet_target, ParsedSheet,
};
use lijin_book::tags::{
    auto_tag_colors, next_auto_tag_color, normalize_tag_color, normalize_tag_name,
    split_tag_names, tag_previews, TagCatalogEntry,
};
use lijin_book::update::{latest_local_update, local_update_launcher_script, windows_powershell_script_bytes};
use std::collections::HashSet;

#[test]
fn pin_format_is_strict() {
    assert!(validate_pin("123456").is_ok());
    assert!(validate_pin("12345").is_err());
    assert!(validate_pin("1234567890123").is_err());
    assert!(validate_pin("abcdef").is_err());
}

#[test]
fn global_pin_is_hashed_and_can_be_reset_with_recovery() {
    let mut store = AppSecurityStore::new("admin-security.sqlite".to_string());
    assert!(!store.configured().expect("status"));
    let recovery = store.setup_pin("123456").expect("setup");
    assert!(store.configured().expect("configured"));
    assert!(store.verify_pin("123456").expect("verify"));
    assert!(!store.verify_pin("654321").expect("wrong pin"));

    let replacement = store.reset_with_recovery(&recovery, "654321").expect("reset");
    assert_ne!(recovery, replacement);
    assert!(store.verify_pin("654321").expect("replacement pin"));
    assert!(!store.verify_pin("123456").expect("old pin"));
}

#[test]
fn configured_pin_can_be_changed_with_the_old_pin() {
    let mut store = AppSecurityStore::new("admin-security.sqlite".to_string());
    let first_recovery = store.setup_pin("123456").expect("setup");
    let replacement = store.change_pin("123456", "654321").expect("change");
    assert_ne!(first_recovery, replacement);
    assert!(store.verify_pin("654321").expect("new pin"));
    assert!(!store.verify_pin("123456").expect("old pin"));
    assert!(store.change_pin("123456", "111111").is_err());
}

#[test]
fn display_path_removes_windows_extended_length_prefix() {
    assert_eq!(
        displayable_path(r"\\?\D:\Desktop\礼金簿.xlsx"),
        r"D:\Desktop\礼金簿.xlsx"
    );
    assert_eq!(
        displayable_path(r"\\?\UNC\server\礼金簿.xlsx"),
        r"\\server\礼金簿.xlsx"
    );
    assert_eq!(
        displayable_path(r"D:\Desktop\礼金簿.xlsx"),
        r"D:\Desktop\礼金簿.xlsx"
    );
}

#[test]
fn update_launcher_embeds_escaped_paths_without_positional_powershell_arguments() {
    let script = local_update_launcher_script(
        r"C:\Users\Updater\updates\礼金簿管理_0.3.1_x64-setup.exe",
        r"C:\Program Files\lijin-book\lijin-book.exe",
        4242,
        r"C:\Users\Updater\updates\update.log",
    );

    assert!(script.contains(
        "$installer = 'C:\\Users\\Updater\\updates\\礼金簿管理_0.3.1_x64-setup.exe'"
    ));
    assert!(script.contains("$application = 'C:\\Program Files\\lijin-book\\lijin-book.exe'"));
    assert!(script.contains("$oldProcessId = 4242"));
    assert!(script.contains("Get-Process -Id $oldProcessId"));
    assert!(script.contains("Start-Process -FilePath $installer"));
    assert!(script.contains("Start-Process -FilePath $application"));
    assert!(!script.contains("$args"));
}

#[test]
fn update_launcher_script_uses_utf16le_bom_for_chinese_paths() {
    let script = "$installer = 'C:\\\\Users\\\\Updater\\\\AppData\\\\Local\\\\礼金簿管理\\\\updates\\\\礼金簿管理_0.3.5_x64-setup.exe'";
    let bytes = windows_powershell_script_bytes(script);
    assert_eq!(&bytes[..2], &[0xff, 0xfe]);
    let code_units = bytes[2..]
        .chunks_exact(2)
        .map(|pair| u16::from_le_bytes([pair[0], pair[1]]))
        .collect::<Vec<_>>();
    assert_eq!(String::from_utf16(&code_units).expect("valid UTF-16LE"), script);
}

#[test]
fn duplicate_comparison_people_keeps_same_book_collisions_and_distinct_paths() {
    let person = |vault_path: &str, person_id: &str, display_name: &str| ComparisonPerson {
        vault_path: vault_path.to_string(),
        vault_name: "Test vault".to_string(),
        person_id: person_id.to_string(),
        display_name: display_name.to_string(),
        address: None,
        notes: None,
        tags: Vec::new(),
        source_books: Vec::new(),
    };
    let people = vec![
        person("D:\\same.giftvault", "person-a", "Liu Yang"),
        person("D:\\same.giftvault", "person-b", "Liu Yang"),
        person("D:\\other.giftvault", "person-a", "Liu Yang"),
        person("D:\\same.giftvault", "person-c", "Wang Mei"),
    ];

    let duplicates = duplicate_comparison_people(people);
    let identities = duplicates
        .iter()
        .map(|person| format!("{}\u{1f}{}", person.vault_path, person.person_id))
        .collect::<HashSet<_>>();

    assert_eq!(duplicates.len(), 3);
    assert!(identities.contains("D:\\same.giftvault\u{1f}person-a"));
    assert!(identities.contains("D:\\same.giftvault\u{1f}person-b"));
    assert!(identities.contains("D:\\other.giftvault\u{1f}person-a"));
    assert!(!identities.iter().any(|identity| identity.ends_with("person-c")));
}

#[test]
fn tag_colors_accept_only_standard_rgb_hex_values() {
    assert_eq!(normalize_tag_color(" #A1b2C3 ").expect("valid color"), "#a1b2c3");
    assert!(normalize_tag_color("red").is_err());
    assert!(normalize_tag_color("#12345").is_err());
    assert!(normalize_tag_color("#123456; color: red").is_err());
}

#[test]
fn native_file_dialog_default_is_the_windows_this_pc_namespace() {
    assert_eq!(WINDOWS_THIS_PC_NAMESPACE, "::{20D04FE0-3AEA-1069-A2D8-08002B30309D}");
}

#[test]
fn mapped_spreadsheet_analysis_accepts_manual_required_columns() {
    let sheet = ParsedSheet {
        file_name: "manual.csv".to_string(),
        sheet_name: "CSV".to_string(),
        header_row: 1,
        headers: vec!["说明".to_string(), "金额文本".to_string(), "姓名文本".to_string()],
        rows: vec![vec!["备注".to_string(), "800".to_string(), "李四".to_string()]],
    };
    let analysis = analyze_sheet_with_mapping(
        &sheet,
        &SpreadsheetColumnMapping { name: Some(2), amount: Some(1), ..Default::default() },
    );
    assert!(analysis.errors.is_empty());
    assert_eq!(analysis.valid_rows, 1);
}

#[test]
fn parses_exact_money_values_without_float_rounding() {
    assert_eq!(parse_amount_fen("500"), Some(50_000));
    assert_eq!(parse_amount_fen("¥1,200.50"), Some(120_050));
    assert_eq!(parse_amount_fen("12.3元"), Some(1_230));
    assert_eq!(parse_amount_fen(" 500 元 "), Some(50_000));
    assert_eq!(parse_amount_fen("12.345"), None);
    assert_eq!(parse_amount_fen("abc"), None);
}

#[test]
fn normalizes_chinese_and_english_headers() {
    assert_eq!(normalized_header(" 金额： "), "金额");
    assert_eq!(normalized_header("\u{feff}姓名"), "姓名");
    assert_eq!(
        column_index(&vec!["姓名".to_string(), "礼金金额".to_string()], &["金额", "amount"]),
        Some(1)
    );
}

#[test]
fn spreadsheet_parser_finds_header_after_title_rows_and_keeps_optional_columns() {
    let rows = vec![
        vec!["2026 年婚礼礼金登记".to_string()],
        vec![
            "姓名".to_string(),
            "金额（元）".to_string(),
            "备注".to_string(),
            "人物标签".to_string(),
        ],
        vec![
            "张三".to_string(),
            "500".to_string(),
            "带礼品".to_string(),
            "亲戚 / 同学".to_string(),
        ],
    ];

    let sheet = parsed_sheet_from_rows("test.xlsx", "礼金明细", rows)
        .expect("header row should be detected");

    assert_eq!(sheet.headers, ["姓名", "金额（元）", "备注", "人物标签"]);
    assert_eq!(sheet.rows.len(), 1);
    assert_eq!(sheet.rows[0][3], "亲戚 / 同学");
}

#[test]
fn spreadsheet_analysis_recognizes_optional_chinese_aliases() {
    let sheet = ParsedSheet {
        file_name: "aliases.csv".to_string(),
        sheet_name: "CSV".to_string(),
        header_row: 1,
        headers: vec![
            "来宾".to_string(),
            "礼金金额（元）".to_string(),
            "住址".to_string(),
            "付款方式".to_string(),
            "登记时间".to_string(),
            "附言".to_string(),
            "人物标签".to_string(),
        ],
        rows: vec![vec![
            "张三".to_string(),
            "500 元".to_string(),
            "昆明".to_string(),
            "微信".to_string(),
            "2026-08-06".to_string(),
            "带礼品".to_string(),
            "亲戚/同学".to_string(),
        ]],
    };
    let analysis = analyze_sheet(&sheet);
    assert!(analysis.name_index.is_some());
    assert!(analysis.amount_index.is_some());
    assert!(analysis.address_index.is_some());
    assert!(analysis.payment_index.is_some());
    assert!(analysis.date_index.is_some());
    assert!(analysis.note_index.is_some());
    assert!(analysis.tag_index.is_some());
    assert_eq!(analysis.valid_rows, 1);
    assert!(analysis.errors.is_empty());
}

#[test]
fn tag_cells_split_common_excel_delimiters_and_deduplicate_names() {
    assert_eq!(
        split_tag_names("亲戚 / 同学、人才\n亲戚；家人"),
        vec!["亲戚", "同学", "人才", "家人"]
    );
}

#[test]
fn imported_tag_colors_are_unique_and_skip_existing_colors() {
    let used = ["#0f766e", "#2563eb"].into_iter().map(str::to_string).collect::<Vec<_>>();

    let first = next_auto_tag_color(&used);
    assert_ne!(first, "#0f766e");
    assert_ne!(first, "#2563eb");

    let mut exhausted = auto_tag_colors();
    let generated = next_auto_tag_color(&exhausted);
    assert!(!exhausted.contains(&generated));
    exhausted.push(generated.clone());
    assert_ne!(next_auto_tag_color(&exhausted), generated);
}

#[test]
fn tag_preview_marks_existing_and_new_values_with_planned_colors() {
    let sheet = ParsedSheet {
        file_name: "tags.xlsx".to_string(),
        sheet_name: "明细".to_string(),
        header_row: 1,
        headers: vec!["姓名".to_string(), "金额".to_string(), "标签".to_string()],
        rows: vec![
            vec!["张三".to_string(), "500".to_string(), "亲戚、同学".to_string()],
            vec!["李四".to_string(), "800".to_string(), "同学".to_string()],
        ],
    };
    let existing = vec![(
        normalize_tag_name("亲戚"),
        TagCatalogEntry {
            id: "tag-relative".to_string(),
            name: "亲戚".to_string(),
            color: "#0f766e".to_string(),
        },
    )];

    let analysis = analyze_sheet(&sheet);
    let preview = tag_previews(&sheet, analysis.tag_index, &existing);

    assert_eq!(preview.column_name.as_deref(), Some("标签"));
    assert_eq!(preview.values.len(), 2);
    assert!(preview.values[0].existing);
    assert!(!preview.values[1].existing);
    assert_ne!(preview.values[1].color, "#0f766e");
}

#[test]
fn spreadsheet_picker_accepts_common_excel_variants() {
    let extensions = spreadsheet_extensions();
    assert!(extensions.contains(&"xlsx"));
    assert!(extensions.contains(&"xls"));
    assert!(extensions.contains(&"xlsm"));
    assert!(extensions.contains(&"xlsb"));
    assert!(extensions.contains(&"ods"));
    assert!(extensions.contains(&"csv"));
}

#[test]
fn comparison_picker_accepts_case_insensitive_vault_extensions() {
    assert!(is_giftvault_path("ledger.GIFTVAULT"));
    assert!(is_giftvault_path("ledger.giftvault"));
    assert!(!is_giftvault_path("ledger.xlsx"));
    assert!(is_comparison_spreadsheet("ledger.XLSX"));
}

#[test]
fn administrator_session_is_global_until_explicitly_locked() {
    let session = SessionState {
        role: SessionRole::Admin,
        failed_attempts: 0,
        locked_until: None,
        edit_locked: true,
    };
    assert!(matches!(session.role, SessionRole::Admin));
    assert!(session.locked_until.is_none());
}

#[test]
fn spreadsheet_analysis_rejects_bad_rows() {
    let sheet = ParsedSheet {
        file_name: "test.csv".to_string(),
        sheet_name: "CSV".to_string(),
        header_row: 1,
        headers: vec!["姓名".to_string(), "金额".to_string()],
        rows: vec![
            vec!["张三".to_string(), "500".to_string()],
            vec!["李四".to_string(), "不是金额".to_string()],
        ],
    };
    let analysis = analyze_sheet(&sheet);
    assert_eq!(analysis.valid_rows, 1);
    assert_eq!(analysis.errors.len(), 1);
}

#[test]
fn amount_parser_rejects_negative_and_overprecise_values() {
    assert_eq!(parse_amount_fen("-500"), None);
    assert_eq!(parse_amount_fen("500.001"), None);
    assert_eq!(parse_amount_fen("¥30,200.00"), Some(3_020_000));
}

#[test]
fn excel_names_are_cleaned_for_windows_and_worksheet_limits() {
    assert_eq!(safe_excel_file_stem("2026/婚礼:礼金?"), "2026婚礼礼金");
    assert_eq!(safe_worksheet_name("'2026[婚礼]*礼金'"), "2026婚礼礼金");
    assert_eq!(safe_worksheet_name(&"礼".repeat(40)).chars().count(), 31);
}

#[test]
fn global_search_matches_every_supported_gift_field() {
    let entry = GiftEntry {
        id: "entry-1".to_string(),
        book_id: "book-1".to_string(),
        person_id: "person-1".to_string(),
        person_name: "张三".to_string(),
        address: Some("昆明市五华区".to_string()),
        amount_fen: 3_020_000,
        payment_method: "微信".to_string(),
        received_at: "2026-08-06 12:34:56".to_string(),
        note: Some("另有一份礼品".to_string()),
        return_gift: Some("回赠喜糖".to_string()),
        return_gift_amount_fen: Some(50000),
        return_gifted_at: Some("2026-08-07 12:34:56".to_string()),
        tags: vec!["tag-1".to_string()],
        tag_names: vec!["同学".to_string()],
    };
    let cases = [
        ("张三", "姓名"),
        ("微信", "支付方式"),
        ("五华", "地址"),
        ("礼品", "备注"),
        ("喜糖", "回礼"),
        ("2026-08-06", "登记日期"),
        ("2026婚礼", "礼金簿"),
        ("同学", "标签"),
        ("¥30,200.00", "金额"),
    ];

    for (query, expected_field) in cases {
        assert!(
            entry_match_fields(&entry, "2026婚礼礼金", query)
                .iter()
                .any(|field| field == expected_field),
            "query {query} should match {expected_field}"
        );
    }
}

#[test]
fn global_search_scope_defaults_to_all_opened_vaults() {
    let first = "/tmp/lijin-search-scope/first.giftvault".to_string();
    let second = "/tmp/lijin-search-scope/second.giftvault".to_string();

    let all = resolve_opened_search_paths(&[], &[first.clone(), second.clone()], &first);
    assert_eq!(all.len(), 2);

    let selected = resolve_opened_search_paths(
        &[Some(second.clone())],
        &[first.clone(), second.clone()],
        &first,
    );
    assert_eq!(selected.len(), 1);
    assert_eq!(comparable_path(&selected[0]), comparable_path(&second));
}

#[test]
fn local_update_selection_only_accepts_a_newer_gift_ledger_installer() {
    let candidates = vec![
        "礼金簿管理_0.1.0_x64-setup.exe".to_string(),
        "礼金簿管理_0.2.0_x64-setup.exe".to_string(),
        "其他程序_9.9.9_x64-setup.exe".to_string(),
        "礼金簿管理_无效版本_x64-setup.exe".to_string(),
    ];

    assert_eq!(
        latest_local_update(&candidates, "0.1.0").expect("newer installer").version,
        "0.2.0"
    );
    assert!(latest_local_update(&candidates, "0.2.0").is_none());

    let current_release_candidates = vec![
        "礼金簿管理_0.3.5_x64-setup.exe".to_string(),
        "礼金簿管理_0.3.6_x64-setup.exe".to_string(),
    ];
    assert_eq!(
        latest_local_update(&current_release_candidates, "0.3.5")
            .expect("0.3.6 should update 0.3.5")
            .version,
        "0.3.6"
    );
    assert!(latest_local_update(&current_release_candidates, "0.3.6").is_none());
}

#[test]
fn spreadsheet_import_requires_an_explicit_target_mode() {
    assert!(validate_spreadsheet_target(Some("book-1"), false).is_ok());
    assert!(validate_spreadsheet_target(None, true).is_ok());
    assert!(validate_spreadsheet_target(None, false).is_err());
    assert!(validate_spreadsheet_target(Some("book-1"), true).is_err());
}

#[test]
fn automatic_backup_paths_remain_unique_within_one_millisecond() {
    let directory = "/tmp/lijin-book-backups";
    let first = lijin_book::backups::automatic_backup_path(directory, "delete-entry");
    let second = lijin_book::backups::automatic_backup_path(directory, "delete-entry");

    assert_ne!(first, second);
    let path = std::path::Path::new(&first);
    assert!(path
        .file_name()
        .is_some_and(|name| name.to_string_lossy().starts_with("delete-entry-")));
    assert!(path.extension().is_some_and(|extension| extension == "giftvault"));
}

#[test]
fn automatic_backup_pruning_keeps_the_ten_newest_snapshots() {
    let names = (1..=12)
        .map(|index| format!("daily-20260806-0000{index:02}.giftvault"))
        .collect::<Vec<_>>();
    let pruned = lijin_book::backups::backups_to_prune(&names);
    assert_eq!(names.len() - pruned.len(), 10);
    assert_eq!(pruned, vec!["daily-20260806-000001.giftvault", "daily-20260806-000002.giftvault"]);
}

#[test]
fn empty_entry_time_is_local_timestamp_with_seconds() {
    let generated = lijin_book::import::received_at_or_now("");
    assert_eq!(generated.len(), 19);
    assert!(chrono::NaiveDateTime::parse_from_str(&generated, "%Y-%m-%d %H:%M:%S").is_ok());
    assert_eq!(
        lijin_book::import::received_at_or_now(" 2026-08-05 12:34:56 "),
        "2026-08-05 12:34:56"
    );
}
