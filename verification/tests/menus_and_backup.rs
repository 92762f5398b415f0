//! The console-side pieces: menu index parsing, the label table, the
//! backup rules, the stress tally, and the process commands.

use android_checker::backup::{parse_selection, BackupEngine, BackupItem, RestoreMode};
use android_checker::config::Config;
use android_checker::menu::Menu;
use android_checker::monitor::{kill_command_args, ProcessDetails};
use android_checker::stress::StressTally;

#[test]
fn menu_index_plain_numbers() {
    assert_eq!(Menu::parse_index("3"), Some(3));
    assert_eq!(Menu::parse_index("  7  "), Some(7));
    assert_eq!(Menu::parse_index("0"), None);
    assert_eq!(Menu::parse_index(""), None);
    assert_eq!(Menu::parse_index("q"), None);
}

#[test]
fn menu_index_full_width_digits() {
    assert_eq!(Menu::parse_index("３"), Some(3));
    assert_eq!(Menu::parse_index("１２"), Some(12));
}

#[test]
fn menu_index_digits_scattered_in_noise() {
    assert_eq!(Menu::parse_index("12abc"), Some(12));
    assert_eq!(Menu::parse_index("abc3x4"), Some(34));
    assert_eq!(Menu::parse_index("abc"), None);
}

#[test]
fn config_labels_are_looked_up() {
    let c = Config::load();
    assert_eq!(c.get_label("0", "fallback"), "检测是否存在 Root 环境");
    assert_eq!(c.get_label("4", "fallback"), "系统与硬件安全检查");
    assert_eq!(c.get_label("z", "fallback"), "fallback");
    assert_eq!(c.menu_labels.len(), 10);
}

#[test]
fn backup_item_names_and_root_needs() {
    assert_eq!(BackupItem::UserFiles.name(), "用户文件 (/sdcard/)");
    assert_eq!(BackupItem::SystemSettings.name(), "系统设置数据库 (需Root)");
    assert!(BackupItem::SystemSettings.requires_root());
    assert!(!BackupItem::UserFiles.requires_root());
    assert!(!BackupItem::AppList.requires_root());
    assert!(!BackupItem::AppData.requires_root());
    let all = BackupItem::all_items();
    assert_eq!(all.len(), 4);
    assert_eq!(all[0], BackupItem::UserFiles);
    assert_eq!(all[3], BackupItem::SystemSettings);
}

#[test]
fn eligible_items_drop_root_only_without_root() {
    let all = BackupItem::all_items();
    let without = BackupEngine::eligible_items(all.clone(), false);
    assert_eq!(without.len(), 3);
    assert!(!without.contains(&BackupItem::SystemSettings));
    let with = BackupEngine::eligible_items(all, true);
    assert_eq!(with.len(), 4);
}

#[test]
fn selection_line_is_parsed() {
    assert_eq!(parse_selection("1 3 0 5 x", 4), vec![0, 2]);
    assert_eq!(parse_selection("", 4), Vec::<usize>::new());
    assert_eq!(parse_selection("4 4", 4), vec![3, 3]);
}

#[test]
fn restore_mode_carries_items() {
    let m = RestoreMode::Selective(vec![BackupItem::AppList]);
    match m {
        RestoreMode::Selective(items) => assert_eq!(items, vec![BackupItem::AppList]),
        RestoreMode::Full => panic!("expected a selective mode"),
    }
}

#[test]
fn stress_tally_counts_outcomes() {
    let mut t = StressTally::new();
    t.record(true);
    t.record(true);
    t.record(false);
    assert_eq!(t.success, 2);
    assert_eq!(t.failed, 1);
}

#[test]
fn kill_commands_are_built() {
    let plain = kill_command_args(907, false);
    assert_eq!(plain, vec!["kill".to_string(), "907".to_string()]);
    let forced = kill_command_args(907, true);
    assert_eq!(forced, vec!["kill".to_string(), "-9".to_string(), "907".to_string()]);
}

#[test]
fn process_details_page() {
    let d = ProcessDetails {
        pid: 42,
        stat: String::new(),
        status: "Name: init\nState: S".to_string(),
        cmdline: String::new(),
        io_stats: String::new(),
    };
    assert_eq!(
        d.format_display(),
        "Process Details (PID: 42)\n======================================\nStatus:\nName: init\nState: S",
    );
}
