use eprice::backend::{join_strings, BackendHealth, SupabaseConfig};
use eprice::error::{AppError, ContextualError, ErrorContext, ErrorHandler, RecoveryStrategy};
use eprice::ranking::{rank_by_count, rank_by_name, sorted_prices, str_lt};
use eprice::settings::config::{validate_monitoring_and_data, BackendSettings, DataSettings, MonitoringSettings};
use eprice::table::{distinct_strings, holds_string, occurrences, tally_strings};
use eprice::text::{lines_of, str_contains, to_lowercase, trim_str};

fn strings(v: &[&str]) -> Vec<String> {
    v.iter().map(|s| s.to_string()).collect()
}

#[test]
fn settings_rules() {
    let m = MonitoringSettings::default();
    let d = DataSettings::default();
    assert_eq!(m.monitoring_interval_minutes, 30);
    assert_eq!(d.data_retention_days, 365);
    assert_eq!(validate_monitoring_and_data(&m, &d), Ok(()));
    let m4 = MonitoringSettings { monitoring_interval_minutes: 4, ..m };
    assert_eq!(
        validate_monitoring_and_data(&m4, &d),
        Err("Monitoring interval must be at least 5 minutes".to_string())
    );
    let m9 = MonitoringSettings { max_price_records_per_product: 9, ..m };
    assert_eq!(
        validate_monitoring_and_data(&m9, &d),
        Err("Maximum price records must be at least 10".to_string())
    );
    let d0 = DataSettings { backup_frequency_hours: 0, ..d };
    assert_eq!(
        validate_monitoring_and_data(&m, &d0),
        Err("Backup frequency must be at least 1 hour".to_string())
    );
    let f0 = DataSettings { max_backup_files: 0, ..d };
    assert_eq!(validate_monitoring_and_data(&m, &f0), Err("Must keep at least 1 backup file".to_string()));
}

#[test]
fn backend_configuration() {
    let blank = SupabaseConfig::default();
    assert!(!blank.is_configured());
    assert_eq!(blank.status_label(), "Supabase not configured");
    assert_eq!(
        blank.missing_fields(),
        strings(&["SUPABASE_URL", "SUPABASE_ANON_KEY", "SUPABASE_PROJECT_REF"])
    );
    assert_eq!(
        BackendHealth::from_config(&blank).label(),
        "Missing config: SUPABASE_URL, SUPABASE_ANON_KEY, SUPABASE_PROJECT_REF"
    );
    let settings = BackendSettings {
        supabase_url: "https://x.supabase.co".to_string(),
        supabase_anon_key: "key".to_string(),
        supabase_project_ref: "  ".to_string(),
    };
    let env = SupabaseConfig { url: "u".to_string(), anon_key: " ".to_string(), project_ref: "p".to_string() };
    let chosen = SupabaseConfig::from_env_or_settings(env, &settings);
    assert_eq!(chosen.url, "https://x.supabase.co");
    assert!(chosen.is_configured());
    assert_eq!(chosen.status_label(), "Supabase connected");
    assert_eq!(chosen.missing_fields(), strings(&["SUPABASE_PROJECT_REF"]));
    assert_eq!(BackendHealth::from_config(&chosen).label(), "Supabase ready");
    let env_ok = SupabaseConfig { url: "u".to_string(), anon_key: "k".to_string(), project_ref: String::new() };
    assert_eq!(SupabaseConfig::from_env_or_settings(env_ok, &settings).url, "u");
    assert_eq!(join_strings(&strings(&["a", "b", "c"]), "-"), "a-b-c");
    assert_eq!(join_strings(&vec![], "-"), "");
}

#[test]
fn errors_advice_and_history() {
    let e = AppError::Network("down".to_string());
    assert_eq!(e.message(), "Network error: down");
    assert_eq!(e.recovery_strategy(), RecoveryStrategy::RetryWithDelay(2));
    assert!(e.is_recoverable());
    assert_eq!(AppError::Database("x".to_string()).recovery_strategy(), RecoveryStrategy::RetryWithDelay(1));
    assert_eq!(AppError::FileSystem("x".to_string()).recovery_strategy(), RecoveryStrategy::Retry);
    assert!(!AppError::Validation("x".to_string()).is_recoverable());
    let ctx = ErrorContext::new("save").with_user("u1").with_request_id("r1").with_info("more");
    assert_eq!(ctx.user_id, Some("u1".to_string()));
    let ce = ContextualError::new(AppError::Validation("bad name".to_string()), ctx);
    assert_eq!(ce.message(), "Validation error: bad name (in save)");
    assert_eq!(ce.user_message(), "Validation failed: bad name");
    let mut h = ErrorHandler::new();
    assert!(!h.has_error());
    for i in 0..55 {
        h.handle_error(ContextualError::new(AppError::Internal(format!("e{}", i)), ErrorContext::new("op")));
    }
    assert!(h.has_error());
    assert_eq!(h.error_history().len(), 50);
    assert_eq!(h.error_history()[0].error.message(), "Internal error: e5");
    assert_eq!(
        h.current_error_message(),
        Some("An unexpected error occurred. Please try again.".to_string())
    );
    h.clear_current_error();
    assert!(!h.has_error());
    assert_eq!(h.error_history().len(), 50);
}

#[test]
fn ranking_orders() {
    assert_eq!(rank_by_count(&vec![3, 7, 3, 9], 10), vec![3, 1, 0, 2]);
    assert_eq!(rank_by_count(&vec![3, 7, 3, 9], 2), vec![3, 1]);
    assert!(rank_by_count(&vec![], 3).is_empty());
    let names = strings(&["pear", "apple", "fig", "apple"]);
    assert_eq!(rank_by_name(&names, false), vec![1, 3, 2, 0]);
    assert_eq!(rank_by_name(&names, true), vec![0, 2, 1, 3]);
    assert_eq!(sorted_prices(&vec![5, -1, 3, 3]), vec![-1, 3, 3, 5]);
    assert!(str_lt("ab", "abc"));
    assert!(!str_lt("b", "abc"));
    assert!(!str_lt("a", "a"));
}

#[test]
fn string_tables() {
    let v = strings(&["a", "b", "a", "c", "b", "a"]);
    assert_eq!(distinct_strings(&v), strings(&["a", "b", "c"]));
    assert_eq!(occurrences(&v, "a"), 3);
    assert_eq!(occurrences(&v, "z"), 0);
    assert!(holds_string(&v, "c"));
    assert!(!holds_string(&v, "d"));
    assert_eq!(
        tally_strings(&v),
        vec![("a".to_string(), 3), ("b".to_string(), 2), ("c".to_string(), 1)]
    );
}

#[test]
fn text_helpers() {
    assert_eq!(trim_str("  a b \n"), "a b");
    assert_eq!(lines_of("x\r\ny\n\nz"), strings(&["x", "y", "", "z"]));
    assert_eq!(lines_of("one\n"), strings(&["one"]));
    assert!(lines_of("").is_empty());
    assert!(str_contains("hello", "ell"));
    assert!(str_contains("hello", ""));
    assert!(!str_contains("hello", "lo!"));
    assert_eq!(to_lowercase("ÄBC"), "äbc");
}
