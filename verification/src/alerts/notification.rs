//! Notifications: building them, the channels each kind goes out on, and
//! the history of what was sent.
use vstd::prelude::*;
use crate::alerts::{alert_failure_of, AlertError, AlertFailure};
use crate::error::now_unix_seconds;
use crate::models::{PriceAlert, User};
use crate::table::{copy_flagged, flagged, lemma_flagged_filter};
use crate::text::{owned, str_eq};
use crate::utils::crypto::{new_uuid_string, uuid_text};
use crate::utils::numbers::nat_decimal;

verus! {

broadcast use vstd::string::group_string_axioms;

/// What a notification is about.
#[derive(Debug, Clone, Copy, PartialEq, Eq, Structural)]
pub enum NotificationType {
    PriceAlert,
    SystemAlert,
    ProductUpdate,
    UserMessage,
}

/// Where a notification stands.
#[derive(Debug, Clone, Copy, PartialEq, Eq, Structural)]
pub enum NotificationStatus {
    Pending,
    Sent,
    Failed,
    Read,
}

/// A way a notification reaches the user.
#[derive(Debug, Clone, Copy, PartialEq, Eq, Structural)]
pub enum Channel {
    Email,
    Push,
    InApp,
}

/// Which channels are on, and a daily cap.
#[derive(Debug, Clone, Copy)]
pub struct NotificationConfig {
    pub email_enabled: bool,
    pub push_enabled: bool,
    pub in_app_enabled: bool,
    pub max_notifications_per_day: usize,
}

impl Default for NotificationConfig {
    fn default() -> (r: Self)
        ensures
            r.email_enabled && r.push_enabled && r.in_app_enabled,
            r.max_notifications_per_day == 50,
    {
        NotificationConfig { email_enabled: true, push_enabled: true, in_app_enabled: true, max_notifications_per_day: 50 }
    }
}

/// A message to a user. `data` is JSON text; times are Unix seconds.
#[derive(Debug, Clone)]
pub struct Notification {
    pub id: String,
    pub user_id: String,
    pub notification_type: NotificationType,
    pub title: String,
    pub message: String,
    pub data: Option<String>,
    pub created_at: i64,
    pub sent_at: Option<i64>,
    pub read_at: Option<i64>,
    pub status: NotificationStatus,
}

/// The channels a kind of notification goes out on, in order: price
/// alerts on every enabled channel; system alerts by push when enabled and
/// always in the app; product updates in the app when enabled; user
/// messages by e-mail and in the app when enabled.
pub open spec fn channels_spec(t: NotificationType, c: NotificationConfig) -> Seq<Channel> {
    let email = if c.email_enabled { seq![Channel::Email] } else { Seq::empty() };
    let push = if c.push_enabled { seq![Channel::Push] } else { Seq::empty() };
    let in_app = if c.in_app_enabled { seq![Channel::InApp] } else { Seq::empty() };
    match t {
        NotificationType::PriceAlert => email + push + in_app,
        NotificationType::SystemAlert => push + seq![Channel::InApp],
        NotificationType::ProductUpdate => in_app,
        NotificationType::UserMessage => email + in_app,
    }
}

/// The channels a notification of this kind goes out on.
pub fn delivery_channels(t: NotificationType, c: NotificationConfig) -> (r: Vec<Channel>)
    ensures
        r@ == channels_spec(t, c),
{
    let mut out: Vec<Channel> = Vec::new();
    match t {
        NotificationType::PriceAlert => {
            if c.email_enabled {
                out.push(Channel::Email);
            }
            if c.push_enabled {
                out.push(Channel::Push);
            }
            if c.in_app_enabled {
                out.push(Channel::InApp);
            }
        },
        NotificationType::SystemAlert => {
            if c.push_enabled {
                out.push(Channel::Push);
            }
            out.push(Channel::InApp);
        },
        NotificationType::ProductUpdate => {
            if c.in_app_enabled {
                out.push(Channel::InApp);
            }
        },
        NotificationType::UserMessage => {
            if c.email_enabled {
                out.push(Channel::Email);
            }
            if c.in_app_enabled {
                out.push(Channel::InApp);
            }
        },
    }
    assert(out@ =~= channels_spec(t, c));
    out
}

/// An amount in hundredths, written with two decimals.
pub open spec fn money_text(v: int) -> Seq<char> {
    if v < 0 {
        seq!['-'] + money_text_abs(-v)
    } else {
        money_text_abs(v)
    }
}

/// A non-negative amount in hundredths, written with two decimals.
pub open spec fn money_text_abs(v: int) -> Seq<char> {
    nat_decimal((v / 100) as nat) + seq!['.', crate::utils::numbers::digit_char((v % 100) / 10), crate::utils::numbers::digit_char(v % 10)]
}

/// An amount in hundredths, written with two decimals.
pub fn money(v: i64) -> (r: String)
    ensures
        r@ == money_text(v as int),
{
    let mut s = String::new();
    let a: u64 = if v < 0 {
        crate::text::push_char(&mut s, '-');
        ((-(v + 1)) as u64) + 1
    } else {
        v as u64
    };
    let digits = crate::utils::numbers::u64_decimal(a / 100);
    let ghost base = s@;
    let mut i: usize = 0;
    while i < digits.len()
        invariant
            i <= digits@.len(),
            s@ == base + digits@.subrange(0, i as int),
        decreases digits.len() - i,
    {
        crate::text::push_char(&mut s, digits[i]);
        assert(s@ =~= base + digits@.subrange(0, i + 1));
        i = i + 1;
    }
    assert(digits@.subrange(0, digits@.len() as int) =~= digits@);
    crate::text::push_char(&mut s, '.');
    crate::text::push_char(&mut s, crate::utils::numbers::digit_to_char(((a % 100) / 10) as u32));
    crate::text::push_char(&mut s, crate::utils::numbers::digit_to_char((a % 10) as u32));
    assert(s@ =~= money_text(v as int));
    s
}

/// An amount in hundredths as a JSON number, the way `serde_json` writes
/// the amount as a float: the whole part, a point, then the hundredths
/// without a trailing zero, or a single `0` when there are none.
pub open spec fn json_price_text(v: int) -> Seq<char> {
    if v < 0 {
        seq!['-'] + json_price_abs(-v)
    } else {
        json_price_abs(v)
    }
}

/// A non-negative amount in hundredths as a JSON number.
pub open spec fn json_price_abs(v: int) -> Seq<char> {
    let c = v % 100;
    nat_decimal((v / 100) as nat) + seq!['.'] + if c % 10 == 0 {
        seq![crate::utils::numbers::digit_char(c / 10)]
    } else {
        seq![crate::utils::numbers::digit_char(c / 10), crate::utils::numbers::digit_char(c % 10)]
    }
}

/// An amount in hundredths as a JSON number.
pub fn json_price(v: i64) -> (r: String)
    ensures
        r@ == json_price_text(v as int),
{
    let mut s = String::new();
    let a: u64 = if v < 0 {
        crate::text::push_char(&mut s, '-');
        ((-(v + 1)) as u64) + 1
    } else {
        v as u64
    };
    let digits = crate::utils::numbers::u64_decimal(a / 100);
    let ghost base = s@;
    let mut i: usize = 0;
    while i < digits.len()
        invariant
            i <= digits@.len(),
            s@ == base + digits@.subrange(0, i as int),
        decreases digits.len() - i,
    {
        crate::text::push_char(&mut s, digits[i]);
        assert(s@ =~= base + digits@.subrange(0, i + 1));
        i = i + 1;
    }
    assert(digits@.subrange(0, digits@.len() as int) =~= digits@);
    crate::text::push_char(&mut s, '.');
    let c = a % 100;
    crate::text::push_char(&mut s, crate::utils::numbers::digit_to_char((c / 10) as u32));
    if c % 10 != 0 {
        crate::text::push_char(&mut s, crate::utils::numbers::digit_to_char((c % 10) as u32));
    }
    assert(s@ =~= json_price_text(v as int));
    s
}

/// The message of a price alert.
pub open spec fn price_alert_message(product_id: Seq<char>, current: int, target: int) -> Seq<char> {
    "Your price alert for product "@ + product_id + " has been triggered! Current price: ¥"@ + money_text(current)
        + ", Target: ¥"@ + money_text(target)
}

/// The JSON text of a price alert's data.
pub open spec fn price_alert_data(alert_id: Seq<char>, product_id: Seq<char>, current: int, target: int) -> Seq<char> {
    "{\"alert_id\":"@ + json_string_text(alert_id) + ",\"current_price\":"@ + json_price_text(current)
        + ",\"product_id\":"@ + json_string_text(product_id) + ",\"target_price\":"@ + json_price_text(target) + "}"@
}

/// A hexadecimal digit in lower case.
pub open spec fn lower_hex_digit(d: int) -> char {
    if d < 10 {
        ('0' as int + d) as char
    } else {
        ('a' as int + d - 10) as char
    }
}

/// How `serde_json` writes one character inside a string: quote and
/// backslash behind a backslash, backspace, tab, line feed, form feed and
/// carriage return by their short escapes, other control characters below
/// 0x20 as `\u00` and two hex digits, everything else as it is.
pub open spec fn json_char(c: char) -> Seq<char> {
    let u = c as u32;
    if c == '"' {
        seq!['\\', '"']
    } else if c == '\\' {
        seq!['\\', '\\']
    } else if u == 0x08 {
        seq!['\\', 'b']
    } else if u == 0x09 {
        seq!['\\', 't']
    } else if u == 0x0A {
        seq!['\\', 'n']
    } else if u == 0x0C {
        seq!['\\', 'f']
    } else if u == 0x0D {
        seq!['\\', 'r']
    } else if u < 0x20 {
        seq!['\\', 'u', '0', '0', lower_hex_digit(u as int / 16), lower_hex_digit(u as int % 16)]
    } else {
        seq![c]
    }
}

/// The characters of a text, each escaped as `json_char` says.
pub open spec fn json_escaped(s: Seq<char>) -> Seq<char>
    decreases s.len(),
{
    if s.len() == 0 {
        Seq::empty()
    } else {
        json_escaped(s.drop_last()) + json_char(s.last())
    }
}

/// The JSON string literal `serde_json` writes for a text: the escaped
/// characters between double quotes.
pub open spec fn json_string_text(s: Seq<char>) -> Seq<char> {
    seq!['"'] + json_escaped(s) + seq!['"']
}

/// Calls `serde_json::to_string` on the text: its JSON string literal,
/// quoted and escaped as `json_string_text` says. Writing a `&str` cannot
/// fail, so the error case is not reached.
#[verifier::external_body]
fn json_string(s: &str) -> (r: String)
    ensures
        r@ == json_string_text(s@),
{
    serde_json::to_string(s).unwrap_or_default()
}

/// Notifications of one user.
pub open spec fn to_user(user_id: Seq<char>) -> spec_fn(Notification) -> bool {
    |n: Notification| n.user_id@ == user_id
}

/// Unread notifications of one user.
pub open spec fn unread_of(user_id: Seq<char>) -> spec_fn(Notification) -> bool {
    |n: Notification| n.user_id@ == user_id && n.read_at is None
}

/// Notifications created after `cutoff`.
pub open spec fn created_after(cutoff: int) -> spec_fn(Notification) -> bool {
    |n: Notification| n.created_at > cutoff
}

/// The position of the first notification with this id.
pub open spec fn first_with_id(h: Seq<Notification>, id: Seq<char>) -> Option<int> {
    if exists|i: int| 0 <= i < h.len() && (#[trigger] h[i]).id@ == id {
        Some(choose|i: int| 0 <= i < h.len() && (#[trigger] h[i]).id@ == id && forall|j: int| 0 <= j < i ==> (#[trigger] h[j]).id@ != id)
    } else {
        None
    }
}

/// The notification marked read at `now`.
pub open spec fn read_at(n: Notification, now: i64) -> Notification {
    Notification { read_at: Some(now), ..n }
}

/// Notifications sent, and the channel settings.
pub struct NotificationService {
    notification_history: Vec<Notification>,
    config: NotificationConfig,
}

impl NotificationService {
    /// The notifications sent, oldest first.
    pub closed spec fn history(&self) -> Seq<Notification> {
        self.notification_history@
    }

    /// The channel settings.
    pub closed spec fn settings(&self) -> NotificationConfig {
        self.config
    }

    /// Always well formed.
    pub open spec fn wf(&self) -> bool {
        true
    }

    /// No notifications; every channel on.
    pub fn new() -> (r: Self)
        ensures
            r.history().len() == 0,
            r.settings().email_enabled && r.settings().push_enabled && r.settings().in_app_enabled,
            r.settings().max_notifications_per_day == 50,
    {
        NotificationService { notification_history: Vec::new(), config: NotificationConfig::default() }
    }

    /// Send a notification now: it joins the history as sent. Sending on a
    /// channel cannot fail.
    pub fn send_notification(
        &mut self,
        user_id: &str,
        notification_type: NotificationType,
        title: String,
        message: String,
        data: Option<String>,
    ) -> (r: Result<(), AlertError>)
        ensures
            r is Ok,
            final(self).settings() == old(self).settings(),
            final(self).history().len() == old(self).history().len() + 1,
            final(self).history().drop_last() == old(self).history(),
            ({
                let n = final(self).history().last();
                &&& uuid_text(n.id@)
                &&& n.user_id@ == user_id@
                &&& n.notification_type == notification_type
                &&& n.title == title
                &&& n.message == message
                &&& n.data == data
                &&& n.sent_at == Some(n.created_at)
                &&& n.read_at is None
                &&& n.status == NotificationStatus::Sent
            }),
    {
        let now = now_unix_seconds();
        let n = Notification {
            id: new_uuid_string(),
            user_id: owned(user_id),
            notification_type,
            title,
            message,
            data,
            created_at: now,
            sent_at: Some(now),
            read_at: None,
            status: NotificationStatus::Sent,
        };
        let ghost before = self.notification_history@;
        self.notification_history.push(n);
        assert(self.notification_history@.drop_last() =~= before);
        Ok(())
    }

    /// Tell a user that an alert's target price was reached.
    pub fn send_price_alert(&mut self, user: &User, alert: &PriceAlert, current_price: i64) -> (r: Result<(), AlertError>)
        ensures
            r is Ok,
            final(self).settings() == old(self).settings(),
            final(self).history().len() == old(self).history().len() + 1,
            final(self).history().drop_last() == old(self).history(),
            ({
                let n = final(self).history().last();
                &&& uuid_text(n.id@)
                &&& n.user_id@ == user.id@
                &&& n.notification_type == NotificationType::PriceAlert
                &&& n.title@ == "Price Alert: Target Reached!"@
                &&& n.message@ == price_alert_message(alert.product_id@, current_price as int, alert.target_price as int)
                &&& n.data matches Some(d) && d@ == price_alert_data(
                    alert.id@,
                    alert.product_id@,
                    current_price as int,
                    alert.target_price as int,
                )
                &&& n.sent_at == Some(n.created_at)
                &&& n.read_at is None
                &&& n.status == NotificationStatus::Sent
            }),
    {
        let mut message = owned("Your price alert for product ");
        message.append(alert.product_id.as_str());
        message.append(" has been triggered! Current price: ¥");
        message.append(money(current_price).as_str());
        message.append(", Target: ¥");
        message.append(money(alert.target_price).as_str());
        let mut data = owned("{\"alert_id\":");
        data.append(json_string(alert.id.as_str()).as_str());
        data.append(",\"current_price\":");
        data.append(json_price(current_price).as_str());
        data.append(",\"product_id\":");
        data.append(json_string(alert.product_id.as_str()).as_str());
        data.append(",\"target_price\":");
        data.append(json_price(alert.target_price).as_str());
        data.append("}");
        self.send_notification(
            user.id.as_str(),
            NotificationType::PriceAlert,
            owned("Price Alert: Target Reached!"),
            message,
            Some(data),
        )
    }

    fn copy_selected(&self, keep: &Vec<bool>, pred: Ghost<spec_fn(Notification) -> bool>) -> (r: Vec<Notification>)
        requires
            keep@.len() == self.notification_history@.len(),
            forall|j: int| 0 <= j < keep@.len() ==> #[trigger] keep@[j] == pred@(self.notification_history@[j]),
        ensures
            r@.len() == self.history().filter(pred@).len(),
            forall|k: int| 0 <= k < r@.len() ==> notification_same(#[trigger] r@[k], self.history().filter(pred@)[k]),
    {
        let ghost h = self.notification_history@;
        proof {
            lemma_flagged_filter(h, keep@, pred@);
        }
        let mut out: Vec<Notification> = Vec::new();
        let mut i: usize = 0;
        while i < self.notification_history.len()
            invariant
                h == self.notification_history@,
                keep@.len() == h.len(),
                i <= h.len(),
                out@.len() == flagged(h.subrange(0, i as int), keep@.subrange(0, i as int)).len(),
                forall|k: int| 0 <= k < out@.len() ==> notification_same(#[trigger] out@[k], flagged(h.subrange(0, i as int), keep@.subrange(0, i as int))[k]),
            decreases h.len() - i,
        {
            let ghost vs = h.subrange(0, i + 1);
            let ghost ks = keep@.subrange(0, i + 1);
            assert(vs.drop_last() =~= h.subrange(0, i as int));
            assert(ks.drop_last() =~= keep@.subrange(0, i as int));
            let ghost f = flagged(h.subrange(0, i as int), keep@.subrange(0, i as int));
            if keep[i] {
                out.push(duplicate_notification(&self.notification_history[i]));
                assert forall|k: int| 0 <= k < out@.len() implies notification_same(#[trigger] out@[k], flagged(vs, ks)[k]) by {
                    if k < out@.len() - 1 {
                        assert(flagged(vs, ks)[k] == f[k]);
                    }
                }
            } else {
                assert forall|k: int| 0 <= k < out@.len() implies notification_same(#[trigger] out@[k], flagged(vs, ks)[k]) by {
                    assert(flagged(vs, ks)[k] == f[k]);
                }
            }
            i = i + 1;
        }
        assert(h.subrange(0, h.len() as int) =~= h);
        assert(keep@.subrange(0, keep@.len() as int) =~= keep@);
        out
    }

    /// Copies of a user's notifications, oldest first.
    pub fn get_user_notifications(&self, user_id: &str) -> (r: Result<Vec<Notification>, AlertError>)
        ensures
            r matches Ok(v) && v@.len() == self.history().filter(to_user(user_id@)).len() && forall|k: int|
                0 <= k < v@.len() ==> notification_same(#[trigger] v@[k], self.history().filter(to_user(user_id@))[k]),
    {
        let mut keep: Vec<bool> = Vec::new();
        let mut i: usize = 0;
        while i < self.notification_history.len()
            invariant
                i <= self.notification_history@.len(),
                keep@.len() == i,
                forall|j: int| 0 <= j < i ==> #[trigger] keep@[j] == (to_user(user_id@))(self.notification_history@[j]),
            decreases self.notification_history.len() - i,
        {
            keep.push(str_eq(self.notification_history[i].user_id.as_str(), user_id));
            i = i + 1;
        }
        Ok(self.copy_selected(&keep, Ghost(to_user(user_id@))))
    }

    /// Mark the first notification with this id read at `now`.
    pub fn mark_as_read_at(&mut self, notification_id: &str, now: i64) -> (r: Result<(), AlertError>)
        ensures
            final(self).settings() == old(self).settings(),
            match first_with_id(old(self).history(), notification_id@) {
                None => (r matches Err(e) && alert_failure_of(e) == AlertFailure::NotificationFailed(
                    "Notification "@ + notification_id@ + " not found"@,
                )) && final(self).history() == old(self).history(),
                Some(i) => r is Ok && final(self).history() == old(self).history().update(
                    i,
                    read_at(old(self).history()[i], now),
                ),
            },
    {
        let mut i: usize = 0;
        while i < self.notification_history.len()
            invariant
                i <= self.notification_history@.len(),
                self.notification_history@ == old(self).history(),
                self.config == old(self).settings(),
                forall|j: int| 0 <= j < i ==> (#[trigger] self.notification_history@[j]).id@ != notification_id@,
            decreases self.notification_history.len() - i,
        {
            if str_eq(self.notification_history[i].id.as_str(), notification_id) {
                proof {
                    let h = self.notification_history@;
                    let c = choose|c: int| 0 <= c < h.len() && (#[trigger] h[c]).id@ == notification_id@ && forall|j: int| 0 <= j < c ==> (#[trigger] h[j]).id@ != notification_id@;
                    if c < i {
                    } else if c > i {
                        assert(h[i as int].id@ == notification_id@);
                    }
                }
                let mut n = duplicate_notification(&self.notification_history[i]);
                n.read_at = Some(now);
                let ghost before = self.notification_history@;
                self.notification_history.set(i, n);
                assert(self.notification_history@ =~= before.update(i as int, read_at(before[i as int], now)));
                return Ok(());
            }
            i = i + 1;
        }
        let mut m = owned("Notification ");
        m.append(notification_id);
        m.append(" not found");
        Err(AlertError::NotificationFailed(m))
    }

    /// Mark a notification read now.
    pub fn mark_as_read(&mut self, notification_id: &str) -> (r: Result<(), AlertError>)
        ensures
            final(self).settings() == old(self).settings(),
            match first_with_id(old(self).history(), notification_id@) {
                None => (r matches Err(e) && alert_failure_of(e) == AlertFailure::NotificationFailed(
                    "Notification "@ + notification_id@ + " not found"@,
                )) && final(self).history() == old(self).history(),
                Some(i) => r is Ok && exists|now: i64| final(self).history() == old(self).history().update(
                    i,
                    #[trigger] read_at(old(self).history()[i], now),
                ),
            },
    {
        let now = now_unix_seconds();
        self.mark_as_read_at(notification_id, now)
    }

    /// The number of a user's unread notifications.
    pub fn get_unread_count(&self, user_id: &str) -> (r: Result<usize, AlertError>)
        ensures
            r == Ok::<usize, AlertError>(self.history().filter(unread_of(user_id@)).len() as usize),
    {
        let ghost h = self.notification_history@;
        let mut c: usize = 0;
        let mut j: usize = 0;
        while j < self.notification_history.len()
            invariant
                h == self.notification_history@,
                j <= h.len(),
                c == h.subrange(0, j as int).filter(unread_of(user_id@)).len(),
                c <= j,
            decreases h.len() - j,
        {
            proof {
                reveal(Seq::filter);
            }
            assert(h.subrange(0, j + 1).drop_last() =~= h.subrange(0, j as int));
            assert(h.subrange(0, j + 1).last() == h[j as int]);
            let n = &self.notification_history[j];
            if str_eq(n.user_id.as_str(), user_id) && n.read_at.is_none() {
                c = c + 1;
            }
            j = j + 1;
        }
        assert(h.subrange(0, h.len() as int) =~= h);
        Ok(c)
    }

    /// Drop the notifications created at or before `now` minus `days`
    /// days, and return how many were dropped.
    pub fn clear_old_notifications_at(&mut self, days: i64, now: i64) -> (r: Result<usize, AlertError>)
        ensures
            final(self).settings() == old(self).settings(),
            final(self).history().len() == old(self).history().filter(created_after(now - days * 86400)).len(),
            forall|k: int| 0 <= k < final(self).history().len() ==> notification_same(
                #[trigger] final(self).history()[k],
                old(self).history().filter(created_after(now - days * 86400))[k],
            ),
            r == Ok::<usize, AlertError>(
                (old(self).history().len() - old(self).history().filter(created_after(now - days * 86400)).len()) as usize,
            ),
    {
        let cutoff: i128 = (now as i128) - (days as i128) * 86400;
        let ghost pred = created_after(now - days * 86400);
        let mut keep: Vec<bool> = Vec::new();
        let mut i: usize = 0;
        while i < self.notification_history.len()
            invariant
                cutoff == now - days * 86400,
                pred == created_after(now - days * 86400),
                i <= self.notification_history@.len(),
                keep@.len() == i,
                forall|j: int| 0 <= j < i ==> #[trigger] keep@[j] == pred(self.notification_history@[j]),
            decreases self.notification_history.len() - i,
        {
            keep.push((self.notification_history[i].created_at as i128) > cutoff);
            i = i + 1;
        }
        let kept = self.copy_selected(&keep, Ghost(pred));
        let initial = self.notification_history.len();
        proof {
            self.notification_history@.lemma_filter_len(pred);
        }
        let removed = initial - kept.len();
        self.notification_history = kept;
        Ok(removed)
    }

    /// Drop the notifications older than `days` days.
    pub fn clear_old_notifications(&mut self, days: i64) -> (r: Result<usize, AlertError>)
        requires
            -106751991167 <= days <= 106751991167,
        ensures
            final(self).settings() == old(self).settings(),
            exists|now: i64|
                final(self).history().len() == old(self).history().filter(#[trigger] created_after(now - days * 86400)).len(),
    {
        let now = now_unix_seconds();
        self.clear_old_notifications_at(days, now)
    }

    /// Replace the channel settings.
    pub fn update_config(&mut self, config: NotificationConfig)
        ensures
            final(self).settings() == config,
            final(self).history() == old(self).history(),
    {
        self.config = config;
    }
}

/// Two notifications hold the same values.
pub open spec fn notification_same(a: Notification, b: Notification) -> bool {
    a == b
}

/// A copy of a notification.
pub fn duplicate_notification(n: &Notification) -> (r: Notification)
    ensures
        r == *n,
{
    Notification {
        id: n.id.clone(),
        user_id: n.user_id.clone(),
        notification_type: n.notification_type,
        title: n.title.clone(),
        message: n.message.clone(),
        data: n.data.clone(),
        created_at: n.created_at,
        sent_at: n.sent_at,
        read_at: n.read_at,
        status: n.status,
    }
}

impl Default for NotificationService {
    fn default() -> (r: Self)
        ensures
            r.history().len() == 0,
    {
        Self::new()
    }
}

} // verus!
