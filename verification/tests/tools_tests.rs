use syncopy::api::{upload_operation_ok, UploadOperation};
use syncopy::tools::{
    construct_backup_file_name, get_bytes_string, get_delta_string, get_latest_backup,
    resolve_token, u64_to_string, Backup, Logger,
};

#[test]
fn numbers_render_in_decimal() {
    assert_eq!(u64_to_string(0), "0");
    assert_eq!(u64_to_string(7), "7");
    assert_eq!(u64_to_string(907), "907");
    assert_eq!(u64_to_string(1000000), "1000000");
}

#[test]
fn byte_counts_below_a_kibibyte_are_plain() {
    assert_eq!(get_bytes_string(0), "0 bytes");
    assert_eq!(get_bytes_string(1), "1 bytes");
    assert_eq!(get_bytes_string(1023), "1023 bytes");
}

#[test]
fn byte_counts_scale_to_units_with_two_decimals() {
    assert_eq!(get_bytes_string(1024), "1.00 KB");
    assert_eq!(get_bytes_string(1536), "1.50 KB");
    assert_eq!(get_bytes_string(10240000), "9.77 MB");
    assert_eq!(get_bytes_string(1048576), "1.00 MB");
    assert_eq!(get_bytes_string(1073741824), "1.00 GB");
    assert_eq!(get_bytes_string(1610612736), "1.50 GB");
}

#[test]
fn deltas_pick_the_largest_whole_unit() {
    assert_eq!(get_delta_string(59, 0), "59s");
    assert_eq!(get_delta_string(60, 0), "1m");
    assert_eq!(get_delta_string(3599, 0), "59m");
    assert_eq!(get_delta_string(3600, 0), "1h");
    assert_eq!(get_delta_string(86399, 0), "23h");
    assert_eq!(get_delta_string(86400, 0), "1d");
    assert_eq!(get_delta_string(604799, 0), "6d");
    assert_eq!(get_delta_string(604800, 0), "1w");
    assert_eq!(get_delta_string(1300000, 0), "2w");
}

#[test]
fn negative_deltas_fall_into_weeks() {
    assert_eq!(get_delta_string(0, 5), "0w");
    assert_eq!(get_delta_string(0, 604800), "-1w");
    assert_eq!(get_delta_string(0, 1300000), "-2w");
}

#[test]
fn backup_file_names_carry_prefix_and_date() {
    assert_eq!(
        construct_backup_file_name("SYNCOPY_BACKUP", "05_06_2024_10_30"),
        "SYNCOPY_BACKUP_05_06_2024_10_30.tar.gz"
    );
}

fn backup(name: &str, created_at: i64) -> Backup {
    Backup { name: name.to_string(), created_at, disk_path: None }
}

#[test]
fn latest_backup_of_empty_list_is_none() {
    let backups: Vec<Backup> = Vec::new();
    assert!(get_latest_backup(&backups).is_none());
}

#[test]
fn latest_backup_is_the_first_of_the_newest() {
    let backups = vec![
        backup("old", 10),
        backup("new_first", 30),
        backup("new_second", 30),
        backup("middle", 20),
    ];
    let latest = get_latest_backup(&backups).unwrap();
    assert_eq!(latest.name, "new_first");
    assert_eq!(latest.created_at, 30);
}

#[test]
fn token_resolution_prefers_env_then_config_then_file() {
    let env = Some("from_env".to_string());
    let cfg = Some("from_config".to_string());
    let file = Some("from_file".to_string());
    assert_eq!(resolve_token(env.clone(), cfg.clone(), file.clone()), env);
    assert_eq!(resolve_token(None, cfg.clone(), file.clone()), cfg);
    assert_eq!(resolve_token(None, None, file.clone()), file);
    assert_eq!(resolve_token(None, None, None), None);
}

#[test]
fn upload_operation_needs_target_and_put() {
    let good = UploadOperation {
        operation_id: "op".to_string(),
        href: "https://example/upload".to_string(),
        method: "PUT".to_string(),
    };
    assert!(upload_operation_ok(&good));
    let no_href = UploadOperation { href: "".to_string(), ..good.clone() };
    assert!(!upload_operation_ok(&no_href));
    let wrong_method = UploadOperation { method: "GET".to_string(), ..good.clone() };
    assert!(!upload_operation_ok(&wrong_method));
}

#[test]
fn logger_calls_do_not_panic() {
    let quiet = Logger { enabled: false };
    quiet.log("hidden");
    quiet.force_log("shown");
}
