//! Price alerts: the monitor that checks them, the notifications they
//! raise, and the service that holds both.
pub mod monitor;
pub mod notification;

pub use monitor::{MonitoringResult, PriceMonitor};
pub use notification::{Notification, NotificationService, NotificationType};

use vstd::prelude::*;
use crate::models::PriceAlert;
use crate::text::owned;

verus! {

broadcast use vstd::string::group_string_axioms;

/// Why an alert operation failed. Thresholds are hundredths of a unit.
#[derive(Debug)]
pub enum AlertError {
    MonitoringFailed(String),
    NotificationFailed(String),
    AlertNotFound(String),
    InvalidThreshold(i64),
    DatabaseError(String),
}

/// An `AlertError` by its values.
pub enum AlertFailure {
    MonitoringFailed(Seq<char>),
    NotificationFailed(Seq<char>),
    AlertNotFound(Seq<char>),
    InvalidThreshold(i64),
    DatabaseError(Seq<char>),
}

/// The failure an `AlertError` stands for.
pub open spec fn alert_failure_of(e: AlertError) -> AlertFailure {
    match e {
        AlertError::MonitoringFailed(m) => AlertFailure::MonitoringFailed(m@),
        AlertError::NotificationFailed(m) => AlertFailure::NotificationFailed(m@),
        AlertError::AlertNotFound(m) => AlertFailure::AlertNotFound(m@),
        AlertError::InvalidThreshold(t) => AlertFailure::InvalidThreshold(t),
        AlertError::DatabaseError(m) => AlertFailure::DatabaseError(m@),
    }
}

impl AlertError {
    /// The displayed text of the error; a threshold is shown in hundredths.
    pub fn message(&self) -> (r: String)
        ensures
            self matches AlertError::MonitoringFailed(m) ==> r@ == "Price monitoring failed: "@ + m@,
            self matches AlertError::NotificationFailed(m) ==> r@ == "Notification failed: "@ + m@,
            self matches AlertError::AlertNotFound(m) ==> r@ == "Alert not found: "@ + m@,
            self matches AlertError::InvalidThreshold(t) ==> r@ == "Invalid price threshold: "@
                + crate::utils::numbers::int_decimal(t as int),
            self matches AlertError::DatabaseError(m) ==> r@ == "Database error: "@ + m@,
    {
        match self {
            AlertError::MonitoringFailed(m) => {
                let mut s = owned("Price monitoring failed: ");
                s.append(m.as_str());
                s
            },
            AlertError::NotificationFailed(m) => {
                let mut s = owned("Notification failed: ");
                s.append(m.as_str());
                s
            },
            AlertError::AlertNotFound(m) => {
                let mut s = owned("Alert not found: ");
                s.append(m.as_str());
                s
            },
            AlertError::InvalidThreshold(t) => {
                let mut s = owned("Invalid price threshold: ");
                let digits = crate::utils::numbers::i64_decimal(*t);
                let ghost base = s@;
                let mut i: usize = 0;
                while i < digits.len()
                    invariant
                        i <= digits@.len(),
                        s@ == base + digits@.subrange(0, i as int),
                    decreases digits.len() - i,
                {
                    crate::text::push_char(&mut s, digits[i]);
                    assert(s@ =~= base + digits@.subrange(0, i + 1));
                    i = i + 1;
                }
                assert(digits@.subrange(0, digits@.len() as int) =~= digits@);
                s
            },
            AlertError::DatabaseError(m) => {
                let mut s = owned("Database error: ");
                s.append(m.as_str());
                s
            },
        }
    }
}

/// The monitor and the notifications, together.
pub struct AlertService {
    monitor: PriceMonitor,
    notification_service: NotificationService,
}

impl AlertService {
    /// The monitor.
    pub closed spec fn monitor_state(&self) -> PriceMonitor {
        self.monitor
    }

    /// The notifications.
    pub closed spec fn notifications_state(&self) -> NotificationService {
        self.notification_service
    }

    /// A stopped monitor without alerts, and no notifications.
    pub fn new() -> (r: Self)
        ensures
            r.monitor_state().wf(),
            !r.monitor_state().running(),
            r.monitor_state().alerts().len() == 0,
            r.notifications_state().wf(),
            r.notifications_state().history().len() == 0,
    {
        AlertService { monitor: PriceMonitor::new(), notification_service: NotificationService::new() }
    }

    /// Start the monitor; see `PriceMonitor::start`.
    pub fn start_monitoring(&mut self) -> (r: Result<(), AlertError>)
        requires
            old(self).monitor_state().wf(),
        ensures
            final(self).monitor_state().wf(),
            final(self).notifications_state() == old(self).notifications_state(),
            old(self).monitor_state().running() ==> (r matches Err(e) && alert_failure_of(e)
                == AlertFailure::MonitoringFailed("Monitor is already running"@)),
            !old(self).monitor_state().running() ==> r is Ok,
            final(self).monitor_state().running(),
            final(self).monitor_state().alerts() == old(self).monitor_state().alerts(),
    {
        self.monitor.start()
    }

    /// Stop the monitor.
    pub fn stop_monitoring(&mut self) -> (r: Result<(), AlertError>)
        requires
            old(self).monitor_state().wf(),
        ensures
            final(self).monitor_state().wf(),
            final(self).notifications_state() == old(self).notifications_state(),
            r is Ok,
            !final(self).monitor_state().running(),
            final(self).monitor_state().alerts() == old(self).monitor_state().alerts(),
    {
        self.monitor.stop()
    }

    /// Add an alert; see `PriceMonitor::add_alert`.
    pub fn add_alert(&mut self, alert: PriceAlert) -> (r: Result<(), AlertError>)
        requires
            old(self).monitor_state().wf(),
        ensures
            final(self).monitor_state().wf(),
            final(self).notifications_state() == old(self).notifications_state(),
            alert.target_price <= 0 ==> (r matches Err(e) && alert_failure_of(e) == AlertFailure::InvalidThreshold(
                alert.target_price,
            ) && final(self).monitor_state().alerts() == old(self).monitor_state().alerts()),
            alert.target_price > 0 ==> r is Ok && final(self).monitor_state().alerts() == crate::table::put_record(
                old(self).monitor_state().alerts(),
                alert,
            ),
    {
        self.monitor.add_alert(alert)
    }

    /// Remove an alert; see `PriceMonitor::remove_alert`.
    pub fn remove_alert(&mut self, alert_id: &str) -> (r: Result<(), AlertError>)
        requires
            old(self).monitor_state().wf(),
        ensures
            final(self).monitor_state().wf(),
            final(self).notifications_state() == old(self).notifications_state(),
            final(self).monitor_state().alerts() == crate::table::drop_key(old(self).monitor_state().alerts(), alert_id@),
            crate::table::has_key(old(self).monitor_state().alerts(), alert_id@) ==> r is Ok,
            !crate::table::has_key(old(self).monitor_state().alerts(), alert_id@) ==> (r matches Err(e)
                && alert_failure_of(e) == AlertFailure::AlertNotFound(alert_id@)),
    {
        self.monitor.remove_alert(alert_id)
    }

    /// Whether the monitor runs.
    pub fn is_monitoring(&self) -> (b: bool)
        ensures
            b == self.monitor_state().running(),
    {
        self.monitor.is_running()
    }

    /// A user's active alerts.
    pub fn get_user_alerts(&self, user_id: &str) -> (r: Result<Vec<PriceAlert>, AlertError>)
        ensures
            r matches Ok(v) && v@ == self.monitor_state().alerts().filter(monitor::active_alert_of(user_id@)),
    {
        self.monitor.get_user_alerts(user_id)
    }

    /// Check every active alert; see `PriceMonitor::check_all_alerts`.
    pub fn check_alerts(&mut self) -> (r: Result<Vec<MonitoringResult>, AlertError>)
        requires
            old(self).monitor_state().wf(),
        ensures
            final(self).monitor_state().wf(),
            final(self).notifications_state() == old(self).notifications_state(),
            final(self).monitor_state().alerts() == old(self).monitor_state().alerts(),
            r matches Ok(v) && v@.len() == old(self).monitor_state().alerts().filter(monitor::active()).len(),
    {
        self.monitor.check_all_alerts()
    }

    /// The monitor.
    pub fn monitor(&self) -> (r: &PriceMonitor)
        ensures
            *r == self.monitor_state(),
    {
        &self.monitor
    }

    /// The notifications.
    pub fn notification_service(&self) -> (r: &NotificationService)
        ensures
            *r == self.notifications_state(),
    {
        &self.notification_service
    }
}

impl Default for AlertService {
    fn default() -> (r: Self)
        ensures
            r.monitor_state().wf(),
            !r.monitor_state().running(),
            r.monitor_state().alerts().len() == 0,
            r.notifications_state().wf(),
            r.notifications_state().history().len() == 0,
    {
        Self::new()
    }
}

} // verus!
