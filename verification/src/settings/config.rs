//! Settings groups with their defaults.
use vstd::prelude::*;

verus! {

/// Price monitoring settings.
#[derive(Debug, Clone, Copy, PartialEq, Eq)]
pub struct MonitoringSettings {
    pub enable_auto_monitoring: bool,
    pub monitoring_interval_minutes: u32,
    pub max_price_records_per_product: u32,
    pub enable_trend_analysis: bool,
    pub price_history_days: u32,
}

/// Data storage and sync settings.
#[derive(Debug, Clone, Copy, PartialEq, Eq)]
pub struct DataSettings {
    pub auto_backup: bool,
    pub backup_frequency_hours: u32,
    pub max_backup_files: u32,
    pub enable_cloud_sync: bool,
    pub data_retention_days: u32,
}

/// Where the hosted backend lives and how to reach it.
#[derive(Debug)]
pub struct BackendSettings {
    pub supabase_url: String,
    pub supabase_anon_key: String,
    pub supabase_project_ref: String,
}

impl Default for MonitoringSettings {
    fn default() -> (r: Self)
        ensures
            r.enable_auto_monitoring,
            r.monitoring_interval_minutes == 30,
            r.max_price_records_per_product == 100,
            r.enable_trend_analysis,
            r.price_history_days == 30,
    {
        MonitoringSettings {
            enable_auto_monitoring: true,
            monitoring_interval_minutes: 30,
            max_price_records_per_product: 100,
            enable_trend_analysis: true,
            price_history_days: 30,
        }
    }
}

impl Default for DataSettings {
    fn default() -> (r: Self)
        ensures
            r.auto_backup,
            r.backup_frequency_hours == 24,
            r.max_backup_files == 7,
            !r.enable_cloud_sync,
            r.data_retention_days == 365,
    {
        DataSettings {
            auto_backup: true,
            backup_frequency_hours: 24,
            max_backup_files: 7,
            enable_cloud_sync: false,
            data_retention_days: 365,
        }
    }
}

impl Default for BackendSettings {
    fn default() -> (r: Self)
        ensures
            r.supabase_url@.len() == 0,
            r.supabase_anon_key@.len() == 0,
            r.supabase_project_ref@.len() == 0,
    {
        BackendSettings {
            supabase_url: String::new(),
            supabase_anon_key: String::new(),
            supabase_project_ref: String::new(),
        }
    }
}

/// The first monitoring or data rule that the settings break, if any.
pub open spec fn monitoring_data_outcome(m: MonitoringSettings, d: DataSettings) -> Result<(), Seq<char>> {
    if m.monitoring_interval_minutes < 5 {
        Err("Monitoring interval must be at least 5 minutes"@)
    } else if m.max_price_records_per_product < 10 {
        Err("Maximum price records must be at least 10"@)
    } else if d.backup_frequency_hours < 1 {
        Err("Backup frequency must be at least 1 hour"@)
    } else if d.max_backup_files < 1 {
        Err("Must keep at least 1 backup file"@)
    } else {
        Ok(())
    }
}

/// The monitoring and data part of the settings check: interval at least 5
/// minutes, at least 10 price records, backups at least hourly, at least one
/// backup file.
pub fn validate_monitoring_and_data(m: &MonitoringSettings, d: &DataSettings) -> (r: Result<(), String>)
    ensures
        crate::text::msg_view(r) == monitoring_data_outcome(*m, *d),
{
    if m.monitoring_interval_minutes < 5 {
        return Err(crate::text::owned("Monitoring interval must be at least 5 minutes"));
    }
    if m.max_price_records_per_product < 10 {
        return Err(crate::text::owned("Maximum price records must be at least 10"));
    }
    if d.backup_frequency_hours < 1 {
        return Err(crate::text::owned("Backup frequency must be at least 1 hour"));
    }
    if d.max_backup_files < 1 {
        return Err(crate::text::owned("Must keep at least 1 backup file"));
    }
    Ok(())
}

} // verus!
