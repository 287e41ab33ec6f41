//! In-app notices, newest first, kept up to a maximum number.
use vstd::prelude::*;
use crate::alerts::notification::{money, money_text};
use crate::error::now_unix_seconds;
use crate::text::{owned, str_eq};
use crate::utils::crypto::{new_uuid_string, uuid_text};

verus! {

broadcast use vstd::string::group_string_axioms;

/// What a notice is about.
#[derive(Debug, Clone, Copy, PartialEq, Eq, Structural)]
pub enum NotificationType {
    PriceAlert,
    SystemInfo,
    Warning,
    Error,
}

/// A notice; the time is Unix seconds.
#[derive(Debug, Clone)]
pub struct Notification {
    pub id: String,
    pub title: String,
    pub message: String,
    pub notification_type: NotificationType,
    pub created_at: i64,
    pub is_read: bool,
}

impl Notification {
    /// A fresh unread notice with a random id, created now.
    pub fn new(title: String, message: String, notification_type: NotificationType) -> (r: Self)
        ensures
            uuid_text(r.id@),
            r.title == title,
            r.message == message,
            r.notification_type == notification_type,
            !r.is_read,
    {
        Notification {
            id: new_uuid_string(),
            title,
            message,
            notification_type,
            created_at: now_unix_seconds(),
            is_read: false,
        }
    }

    /// Mark the notice read.
    pub fn mark_as_read(&mut self)
        ensures
            *final(self) == (Notification { is_read: true, ..*old(self) }),
    {
        self.is_read = true;
    }

    /// A copy of the notice.
    pub fn copy(&self) -> (r: Self)
        ensures
            r == *self,
    {
        Notification {
            id: self.id.clone(),
            title: self.title.clone(),
            message: self.message.clone(),
            notification_type: self.notification_type,
            created_at: self.created_at,
            is_read: self.is_read,
        }
    }
}

/// The notices after one more arrives: it comes first, and the oldest go
/// beyond `max`.
pub open spec fn after_adding(s: Seq<Notification>, n: Notification, max: int) -> Seq<Notification> {
    let t = seq![n] + s;
    if t.len() > max {
        t.subrange(0, max)
    } else {
        t
    }
}

/// The unread notices, in order.
pub open spec fn unread(s: Seq<Notification>) -> Seq<Notification>
    decreases s.len(),
{
    if s.len() == 0 {
        Seq::empty()
    } else if s.last().is_read {
        unread(s.drop_last())
    } else {
        unread(s.drop_last()).push(s.last())
    }
}

/// The message of a price notice: `{name} is now ¥{price} (target:
/// ¥{target})`, amounts in hundredths written with two decimals.
pub open spec fn price_alert_message(name: Seq<char>, current: int, target: int) -> Seq<char> {
    name + " is now ¥"@ + money_text(current) + " (target: ¥"@ + money_text(target) + ")"@
}

/// Notices, newest first, at most `max_notifications` of them.
pub struct NotificationService {
    notifications: Vec<Notification>,
    max_notifications: usize,
}

impl NotificationService {
    /// The notices, newest first.
    pub closed spec fn notices(&self) -> Seq<Notification> {
        self.notifications@
    }

    /// How many notices are kept.
    pub closed spec fn max_spec(&self) -> usize {
        self.max_notifications
    }

    /// No notices, keeping up to `max_notifications`.
    pub fn new(max_notifications: usize) -> (r: Self)
        ensures
            r.notices().len() == 0,
            r.max_spec() == max_notifications,
    {
        NotificationService { notifications: Vec::new(), max_notifications }
    }

    /// Add a notice in front, dropping the oldest beyond the maximum.
    pub fn add_notification(&mut self, notification: Notification)
        ensures
            final(self).notices() == after_adding(old(self).notices(), notification, old(self).max_spec() as int),
            final(self).max_spec() == old(self).max_spec(),
    {
        let ghost t = seq![notification] + self.notifications@;
        self.notifications.insert(0, notification);
        assert(self.notifications@ =~= t);
        while self.notifications.len() > self.max_notifications
            invariant
                self.max_notifications == old(self).max_notifications,
                t == seq![notification] + old(self).notifications@,
                t.len() > self.max_notifications ==> self.notifications@.len() >= self.max_notifications,
                self.notifications@.len() <= t.len(),
                self.notifications@ == t.subrange(0, self.notifications@.len() as int),
                t.len() <= self.max_notifications ==> self.notifications@ == t,
            decreases self.notifications.len(),
        {
            let ghost n0 = self.notifications@.len();
            self.notifications.pop();
            assert(self.notifications@ =~= t.subrange(0, n0 - 1));
        }
        proof {
            if t.len() > self.max_notifications {
                assert(self.notifications@ =~= t.subrange(0, self.max_notifications as int));
            }
        }
    }

    /// Add a price notice.
    pub fn add_price_alert(&mut self, product_name: &str, current_price: i64, target_price: i64)
        ensures
            final(self).max_spec() == old(self).max_spec(),
            exists|n: Notification|
                {
                    &&& final(self).notices() == #[trigger] after_adding(old(self).notices(), n, old(self).max_spec() as int)
                    &&& n.title@ == "Price Alert!"@
                    &&& n.message@ == price_alert_message(product_name@, current_price as int, target_price as int)
                    &&& n.notification_type == NotificationType::PriceAlert
                    &&& !n.is_read
                },
    {
        let mut m = owned(product_name);
        m.append(" is now ¥");
        m.append(money(current_price).as_str());
        m.append(" (target: ¥");
        m.append(money(target_price).as_str());
        m.append(")");
        let n = Notification::new(owned("Price Alert!"), m, NotificationType::PriceAlert);
        let ghost nv = n;
        self.add_notification(n);
    }

    /// Add an information notice.
    pub fn add_info(&mut self, title: String, message: String)
        ensures
            final(self).max_spec() == old(self).max_spec(),
            exists|n: Notification|
                final(self).notices() == #[trigger] after_adding(old(self).notices(), n, old(self).max_spec() as int)
                    && n.title == title && n.message == message && n.notification_type == NotificationType::SystemInfo
                    && !n.is_read,
    {
        let n = Notification::new(title, message, NotificationType::SystemInfo);
        self.add_notification(n);
    }

    /// Add a warning.
    pub fn add_warning(&mut self, title: String, message: String)
        ensures
            final(self).max_spec() == old(self).max_spec(),
            exists|n: Notification|
                final(self).notices() == #[trigger] after_adding(old(self).notices(), n, old(self).max_spec() as int)
                    && n.title == title && n.message == message && n.notification_type == NotificationType::Warning
                    && !n.is_read,
    {
        let n = Notification::new(title, message, NotificationType::Warning);
        self.add_notification(n);
    }

    /// Add an error notice.
    pub fn add_error(&mut self, title: String, message: String)
        ensures
            final(self).max_spec() == old(self).max_spec(),
            exists|n: Notification|
                final(self).notices() == #[trigger] after_adding(old(self).notices(), n, old(self).max_spec() as int)
                    && n.title == title && n.message == message && n.notification_type == NotificationType::Error
                    && !n.is_read,
    {
        let n = Notification::new(title, message, NotificationType::Error);
        self.add_notification(n);
    }

    /// The notices, newest first.
    pub fn get_notifications(&self) -> (r: &Vec<Notification>)
        ensures
            r@ == self.notices(),
    {
        &self.notifications
    }

    /// Copies of the unread notices, newest first.
    pub fn get_unread_notifications(&self) -> (r: Vec<Notification>)
        ensures
            r@ == unread(self.notices()),
    {
        let mut out: Vec<Notification> = Vec::new();
        let mut i: usize = 0;
        while i < self.notifications.len()
            invariant
                i <= self.notifications@.len(),
                out@ == unread(self.notifications@.subrange(0, i as int)),
            decreases self.notifications.len() - i,
        {
            assert(self.notifications@.subrange(0, i + 1).drop_last() =~= self.notifications@.subrange(0, i as int));
            if !self.notifications[i].is_read {
                out.push(self.notifications[i].copy());
            }
            i = i + 1;
        }
        assert(self.notifications@.subrange(0, self.notifications@.len() as int) =~= self.notifications@);
        out
    }

    /// Mark the first notice with an id read; refused when none has it.
    pub fn mark_as_read(&mut self, notification_id: &str) -> (r: Result<(), String>)
        ensures
            final(self).max_spec() == old(self).max_spec(),
            !(exists|i: int| 0 <= i < old(self).notices().len() && (#[trigger] old(self).notices()[i]).id@ == notification_id@)
                ==> (r matches Err(m) && m@ == "Notification not found"@) && final(self).notices() == old(self).notices(),
            (exists|i: int| 0 <= i < old(self).notices().len() && (#[trigger] old(self).notices()[i]).id@ == notification_id@)
                ==> r is Ok && exists|i: int|
                0 <= i < old(self).notices().len() && (#[trigger] old(self).notices()[i]).id@ == notification_id@
                    && (forall|k: int| 0 <= k < i ==> old(self).notices()[k].id@ != notification_id@)
                    && final(self).notices() == old(self).notices().update(
                    i,
                    Notification { is_read: true, ..old(self).notices()[i] },
                ),
    {
        let mut i: usize = 0;
        while i < self.notifications.len()
            invariant
                self.notifications@ == old(self).notifications@,
                self.max_notifications == old(self).max_notifications,
                i <= self.notifications@.len(),
                forall|k: int| 0 <= k < i ==> self.notifications@[k].id@ != notification_id@,
            decreases self.notifications.len() - i,
        {
            if str_eq(self.notifications[i].id.as_str(), notification_id) {
                let mut n = self.notifications[i].copy();
                n.mark_as_read();
                self.notifications.set(i, n);
                assert(old(self).notices()[i as int].id@ == notification_id@);
                return Ok(());
            }
            i = i + 1;
        }
        Err(owned("Notification not found"))
    }

    /// Mark every notice read.
    pub fn mark_all_as_read(&mut self)
        ensures
            final(self).max_spec() == old(self).max_spec(),
            final(self).notices().len() == old(self).notices().len(),
            forall|i: int| 0 <= i < old(self).notices().len() ==> #[trigger] final(self).notices()[i] == (Notification {
                is_read: true,
                ..old(self).notices()[i]
            }),
    {
        let mut i: usize = 0;
        while i < self.notifications.len()
            invariant
                self.max_notifications == old(self).max_notifications,
                self.notifications@.len() == old(self).notifications@.len(),
                i <= self.notifications@.len(),
                forall|k: int| 0 <= k < i ==> #[trigger] self.notifications@[k] == (Notification {
                    is_read: true,
                    ..old(self).notifications@[k]
                }),
                forall|k: int| i <= k < self.notifications@.len() ==> #[trigger] self.notifications@[k] == old(self).notifications@[k],
            decreases self.notifications.len() - i,
        {
            let mut n = self.notifications[i].copy();
            n.mark_as_read();
            self.notifications.set(i, n);
            i = i + 1;
        }
    }

    /// Drop every notice.
    pub fn clear_all(&mut self)
        ensures
            final(self).notices().len() == 0,
            final(self).max_spec() == old(self).max_spec(),
    {
        self.notifications = Vec::new();
    }

    /// How many notices are kept.
    pub fn get_notification_count(&self) -> (n: usize)
        ensures
            n == self.notices().len(),
    {
        self.notifications.len()
    }

    /// How many notices are unread.
    pub fn get_unread_count(&self) -> (n: usize)
        ensures
            n == unread(self.notices()).len(),
    {
        let mut c: usize = 0;
        let mut i: usize = 0;
        while i < self.notifications.len()
            invariant
                i <= self.notifications@.len(),
                c == unread(self.notifications@.subrange(0, i as int)).len(),
                c <= i,
            decreases self.notifications.len() - i,
        {
            assert(self.notifications@.subrange(0, i + 1).drop_last() =~= self.notifications@.subrange(0, i as int));
            if !self.notifications[i].is_read {
                c = c + 1;
            }
            i = i + 1;
        }
        assert(self.notifications@.subrange(0, self.notifications@.len() as int) =~= self.notifications@);
        c
    }
}

impl Default for NotificationService {
    fn default() -> (r: Self)
        ensures
            r.notices().len() == 0,
            r.max_spec() == 100,
    {
        Self::new(100)
    }
}

/// The service keeps its bound and the newest notices: after adding a
/// notice there are never more than the maximum, the new notice comes
/// first (when anything is kept), and the rest are the earlier notices,
/// newest first, in their order.
pub proof fn law_notices_bounded_newest_first(s: Seq<Notification>, n: Notification, max: int)
    requires
        0 <= max,
    ensures
        after_adding(s, n, max).len() <= max || after_adding(s, n, max).len() == s.len() + 1,
        s.len() < max ==> after_adding(s, n, max).len() == s.len() + 1,
        s.len() >= max ==> after_adding(s, n, max).len() == max,
        max > 0 ==> after_adding(s, n, max)[0] == n,
        forall|i: int| 1 <= i < after_adding(s, n, max).len() ==> #[trigger] after_adding(s, n, max)[i] == s[i - 1],
{
    let t = seq![n] + s;
    assert forall|i: int| 1 <= i < t.len() implies #[trigger] t[i] == s[i - 1] by {}
}

} // verus!
