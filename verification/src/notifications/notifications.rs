//! Desktop notifications: their levels, the notification records and the history
//! the manager keeps.
use vstd::prelude::*;
use crate::text::{digit_chars, push_digits, hex_lower, push_hex_lower};

verus! {

#[derive(Debug, Clone, Copy, PartialEq, Eq, Structural)]
pub enum NotificationLevel {
    Info,
    Warning,
    Error,
    Success,
}

impl NotificationLevel {
    /// The `notify-send` urgency of the level.
    pub fn urgency(&self) -> (r: &'static str)
        ensures
            r@ == (match *self {
                NotificationLevel::Info => "low"@,
                NotificationLevel::Warning => "normal"@,
                NotificationLevel::Error => "critical"@,
                NotificationLevel::Success => "low"@,
            }),
    {
        match self {
            NotificationLevel::Info => "low",
            NotificationLevel::Warning => "normal",
            NotificationLevel::Error => "critical",
            NotificationLevel::Success => "low",
        }
    }

    /// The freedesktop icon name of the level.
    pub fn icon(&self) -> (r: &'static str)
        ensures
            r@ == (match *self {
                NotificationLevel::Info => "dialog-information"@,
                NotificationLevel::Warning => "dialog-warning"@,
                NotificationLevel::Error => "dialog-error"@,
                NotificationLevel::Success => "dialog-information"@,
            }),
    {
        match self {
            NotificationLevel::Info => "dialog-information",
            NotificationLevel::Warning => "dialog-warning",
            NotificationLevel::Error => "dialog-error",
            NotificationLevel::Success => "dialog-information",
        }
    }
}

/// One notification.
#[derive(Debug, Clone)]
pub struct Notification {
    pub id: String,
    pub title: String,
    pub body: String,
    pub level: NotificationLevel,
    pub icon: Option<String>,
    pub timeout: u64,
    pub created_at_secs: u64,
    pub action: Option<String>,
}

/// Seconds and nanoseconds since the Unix epoch (`SystemTime::now` then
/// `duration_since(UNIX_EPOCH)`), `None` when the clock is set before it. The value
/// depends on the clock: only the range of the nanoseconds is stated.
#[verifier::external_body]
fn since_epoch() -> (r: Option<(u64, u32)>)
    ensures
        r matches Some((_, n)) ==> n < 1_000_000_000,
{
    match std::time::SystemTime::now().duration_since(std::time::UNIX_EPOCH) {
        Ok(d) => Some((d.as_secs(), d.subsec_nanos())),
        Err(_) => None,
    }
}

/// The characters of a lowercase hexadecimal number.
pub open spec fn hex_chars(n: nat) -> Seq<char> {
    hex_lower(n).map_values(|b: u8| b as char)
}

/// A notification id: seconds then nanoseconds, both in lowercase hexadecimal.
pub open spec fn time_id(secs: u64, nanos: u32) -> Seq<char> {
    hex_chars(secs as nat) + hex_chars(nanos as nat)
}

/// Appends `n` in lowercase hexadecimal.
fn push_hex(s: &mut String, n: u64)
    ensures
        final(s)@ == old(s)@ + hex_chars(n as nat),
{
    let mut bytes: Vec<u8> = Vec::new();
    push_hex_lower(&mut bytes, n);
    assert(bytes@ =~= hex_lower(n as nat));
    let mut i: usize = 0;
    while i < bytes.len()
        invariant
            i <= bytes@.len(),
            bytes@ == hex_lower(n as nat),
            s@ == old(s)@ + hex_chars(n as nat).take(i as int),
        decreases bytes@.len() - i,
    {
        proof {
            lemma_hex_digit_ascii(n as nat, i as int);
        }
        let b = bytes[i];
        let c: char = if b < 58 { digit_of(b - 48) } else { hex_letter(b - 87) };
        s.push(c);
        i = i + 1;
        assert(s@ =~= old(s)@ + hex_chars(n as nat).take(i as int));
    }
    assert(hex_chars(n as nat).take(i as int) =~= hex_chars(n as nat));
}

proof fn lemma_hex_digit_ascii(n: nat, i: int)
    requires
        0 <= i < hex_lower(n).len(),
    ensures
        (48 <= hex_lower(n)[i] <= 57) || (97 <= hex_lower(n)[i] <= 102),
    decreases n,
{
    if n >= 16 {
        if i < hex_lower(n / 16).len() {
            lemma_hex_digit_ascii(n / 16, i);
        }
    }
}

fn digit_of(d: u8) -> (c: char)
    requires
        d < 10,
    ensures
        c == ((48 + d) as u8) as char,
{
    if d == 0 { '0' } else if d == 1 { '1' } else if d == 2 { '2' } else if d == 3 { '3' } else if d == 4 {
        '4'
    } else if d == 5 { '5' } else if d == 6 { '6' } else if d == 7 { '7' } else if d == 8 { '8' } else { '9' }
}

fn hex_letter(d: u8) -> (c: char)
    requires
        10 <= d < 16,
    ensures
        c == ((87 + d) as u8) as char,
{
    if d == 10 { 'a' } else if d == 11 { 'b' } else if d == 12 { 'c' } else if d == 13 { 'd' } else if d == 14 {
        'e'
    } else { 'f' }
}

/// The id of a notification made at `secs` seconds and `nanos` nanoseconds after
/// the epoch (see [`time_id`]).
pub fn id_from_time(secs: u64, nanos: u32) -> (id: String)
    ensures
        id@ == time_id(secs, nanos),
{
    let mut id = String::new();
    push_hex(&mut id, secs);
    push_hex(&mut id, nanos as u64);
    assert(id@ =~= time_id(secs, nanos));
    id
}

/// An id from the current time (see [`id_from_time`]); a clock before the epoch
/// counts as the epoch itself.
pub fn uuid_simple() -> (id: String)
    ensures
        exists|secs: u64, nanos: u32| id@ == time_id(secs, nanos),
{
    let (secs, nanos) = match since_epoch() {
        Some(t) => t,
        None => (0, 0),
    };
    id_from_time(secs, nanos)
}

impl Notification {
    /// A notification with a fresh id, no icon or action, a timeout of 5 seconds and
    /// the current time.
    pub fn new(title: String, body: String, level: NotificationLevel) -> (n: Self)
        ensures
            n.title == title,
            n.body == body,
            n.level == level,
            n.icon is None,
            n.timeout == 5,
            n.action is None,
            exists|secs: u64, nanos: u32| n.id@ == time_id(secs, nanos),
    {
        let id = uuid_simple();
        let created = match since_epoch() {
            Some((s, _)) => s,
            None => 0,
        };
        Notification { id, title, body, level, icon: None, timeout: 5, created_at_secs: created, action: None }
    }

    pub fn with_icon(self, icon: String) -> (n: Self)
        ensures
            n == (Notification { icon: Some(icon), ..self }),
    {
        let mut n = self;
        n.icon = Some(icon);
        n
    }

    pub fn with_timeout(self, timeout_secs: u64) -> (n: Self)
        ensures
            n == (Notification { timeout: timeout_secs, ..self }),
    {
        let mut n = self;
        n.timeout = timeout_secs;
        n
    }

    pub fn with_action(self, action: String) -> (n: Self)
        ensures
            n == (Notification { action: Some(action), ..self }),
    {
        let mut n = self;
        n.action = Some(action);
        n
    }
}


impl Notification {
    /// A copy of the notification.
    pub fn clone_notification(&self) -> (n: Notification)
        ensures
            n == *self,
    {
        Notification {
            id: self.id.clone(),
            title: self.title.clone(),
            body: self.body.clone(),
            level: self.level,
            icon: match &self.icon {
                Some(i) => Some(i.clone()),
                None => None,
            },
            timeout: self.timeout,
            created_at_secs: self.created_at_secs,
            action: match &self.action {
                Some(a) => Some(a.clone()),
                None => None,
            },
        }
    }
}

/// Which way a notification would be delivered.
#[derive(Debug, Clone, Copy, PartialEq, Eq, Structural)]
pub enum Delivery {
    /// Notifications are off (`Notifications disabled`).
    Disabled,
    NotifySend,
    Dbus,
    /// No backend is available (`No notification backend`).
    NoBackend,
}

/// Abstract state of a [`NotificationManager`].
pub struct ManagerModel {
    pub notifications: Seq<Notification>,
    pub enabled: bool,
    pub max_notifications: usize,
    pub default_timeout: u64,
    pub use_dbus: bool,
    pub use_notify_send: bool,
}

/// The history after recording `n`: the oldest entry leaves first when full.
pub open spec fn recorded(h: Seq<Notification>, max: usize, n: Notification) -> Seq<Notification> {
    if h.len() >= max && h.len() > 0 {
        h.drop_first().push(n)
    } else {
        h.push(n)
    }
}

/// The `notify-send` arguments for `n`: urgency, application name, timeout in
/// milliseconds, icon (the level's when none is set), title and body.
pub open spec fn notify_send_args_spec(n: Notification) -> Seq<Seq<char>> {
    seq![
        "-u"@, n.level.urgency_spec(), "-a"@, "foxix"@, "-t"@, digit_chars((n.timeout * 1000) as nat), "-i"@,
        match n.icon {
            Some(i) => i@,
            None => n.level.icon_spec(),
        },
        n.title@, n.body@,
    ]
}

impl NotificationLevel {
    pub open spec fn urgency_spec(&self) -> Seq<char> {
        match *self {
            NotificationLevel::Info => "low"@,
            NotificationLevel::Warning => "normal"@,
            NotificationLevel::Error => "critical"@,
            NotificationLevel::Success => "low"@,
        }
    }

    pub open spec fn icon_spec(&self) -> Seq<char> {
        match *self {
            NotificationLevel::Info => "dialog-information"@,
            NotificationLevel::Warning => "dialog-warning"@,
            NotificationLevel::Error => "dialog-error"@,
            NotificationLevel::Success => "dialog-information"@,
        }
    }
}

/// The arguments to run `notify-send` with (see [`notify_send_args_spec`]).
pub fn notify_send_args(n: &Notification) -> (r: Vec<String>)
    requires
        n.timeout * 1000 <= u64::MAX,
    ensures
        r@.len() == 10,
        forall|i: int| 0 <= i < 10 ==> (#[trigger] r@[i])@ == notify_send_args_spec(*n)[i],
{
    let mut r: Vec<String> = Vec::new();
    r.push("-u".to_owned());
    r.push(n.level.urgency().to_owned());
    r.push("-a".to_owned());
    r.push("foxix".to_owned());
    r.push("-t".to_owned());
    let mut t = String::new();
    push_digits(&mut t, n.timeout * 1000);
    assert(t@ =~= digit_chars((n.timeout * 1000) as nat));
    r.push(t);
    r.push("-i".to_owned());
    match &n.icon {
        Some(i) => r.push(i.clone()),
        None => r.push(n.level.icon().to_owned()),
    }
    r.push(n.title.clone());
    r.push(n.body.clone());
    r
}

/// Delivers desktop notifications and keeps a bounded history of them.
pub struct NotificationManager {
    notifications: Vec<Notification>,
    enabled: bool,
    max_notifications: usize,
    default_timeout: u64,
    use_dbus: bool,
    use_notify_send: bool,
}

impl View for NotificationManager {
    type V = ManagerModel;

    closed spec fn view(&self) -> ManagerModel {
        ManagerModel {
            notifications: self.notifications@,
            enabled: self.enabled,
            max_notifications: self.max_notifications,
            default_timeout: self.default_timeout,
            use_dbus: self.use_dbus,
            use_notify_send: self.use_notify_send,
        }
    }
}

impl NotificationManager {
    /// An enabled manager keeping 50 notifications; `use_notify_send` tells whether a
    /// `notify-send` program was found.
    pub fn new(use_notify_send: bool) -> (m: Self)
        ensures
            m@ == (ManagerModel {
                notifications: Seq::empty(),
                enabled: true,
                max_notifications: 50,
                default_timeout: 5,
                use_dbus: false,
                use_notify_send,
            }),
    {
        NotificationManager {
            notifications: Vec::new(),
            enabled: true,
            max_notifications: 50,
            default_timeout: 5,
            use_dbus: false,
            use_notify_send,
        }
    }

    /// How a notification is sent now.
    pub fn delivery(&self) -> (d: Delivery)
        ensures
            d == (if !self@.enabled {
                Delivery::Disabled
            } else if self@.use_notify_send {
                Delivery::NotifySend
            } else if self@.use_dbus {
                Delivery::Dbus
            } else {
                Delivery::NoBackend
            }),
    {
        if !self.enabled {
            Delivery::Disabled
        } else if self.use_notify_send {
            Delivery::NotifySend
        } else if self.use_dbus {
            Delivery::Dbus
        } else {
            Delivery::NoBackend
        }
    }

    /// Records a delivered notification (the oldest leaves when the history is full)
    /// and returns its id.
    pub fn record(&mut self, n: Notification) -> (id: String)
        ensures
            id@ == n.id@,
            final(self)@ == (ManagerModel {
                notifications: recorded(old(self)@.notifications, old(self)@.max_notifications, n),
                ..old(self)@
            }),
    {
        let id = n.id.clone();
        if self.notifications.len() >= self.max_notifications && self.notifications.len() > 0 {
            self.notifications.remove(0);
        }
        self.notifications.push(n);
        proof {
            let h = old(self)@.notifications;
            if h.len() >= old(self)@.max_notifications && h.len() > 0 {
                assert(h.remove(0) =~= h.drop_first());
            }
        }
        id
    }

    /// Copies of the recorded notifications, oldest first.
    pub fn get_notifications(&self) -> (r: Vec<Notification>)
        ensures
            r@ == self@.notifications,
    {
        let mut r: Vec<Notification> = Vec::new();
        let mut i: usize = 0;
        while i < self.notifications.len()
            invariant
                i <= self.notifications@.len(),
                r@ == self.notifications@.take(i as int),
            decreases self.notifications@.len() - i,
        {
            r.push(self.notifications[i].clone_notification());
            i = i + 1;
            assert(r@ =~= self.notifications@.take(i as int));
        }
        assert(self.notifications@.take(i as int) =~= self.notifications@);
        r
    }

    pub fn clear_notifications(&mut self)
        ensures
            final(self)@ == (ManagerModel { notifications: Seq::empty(), ..old(self)@ }),
    {
        self.notifications.clear();
    }

    /// Removes the first notification with id `id`; `true` when there was one.
    pub fn remove_notification(&mut self, id: &str) -> (removed: bool)
        ensures
            removed == exists|i: int| 0 <= i < old(self)@.notifications.len() && (#[trigger] old(self)@.notifications[i]).id@ == id@,
            removed ==> exists|i: int| 0 <= i < old(self)@.notifications.len()
                && (#[trigger] old(self)@.notifications[i]).id@ == id@
                && (forall|j: int| 0 <= j < i ==> (#[trigger] old(self)@.notifications[j]).id@ != id@)
                && final(self)@ == (ManagerModel { notifications: old(self)@.notifications.remove(i), ..old(self)@ }),
            !removed ==> final(self)@ == old(self)@,
    {
        let key = id.to_owned();
        let mut i: usize = 0;
        while i < self.notifications.len()
            invariant
                i <= self.notifications@.len(),
                self@ == old(self)@,
                key@ == id@,
                forall|j: int| 0 <= j < i ==> (#[trigger] old(self)@.notifications[j]).id@ != id@,
            decreases self.notifications@.len() - i,
        {
            if self.notifications[i].id == key {
                self.notifications.remove(i);
                return true;
            }
            i = i + 1;
        }
        false
    }

    /// Turns notifications on or off; returns the new state.
    pub fn toggle_enabled(&mut self) -> (on: bool)
        ensures
            on == !old(self)@.enabled,
            final(self)@ == (ManagerModel { enabled: on, ..old(self)@ }),
    {
        self.enabled = !self.enabled;
        self.enabled
    }

    pub fn set_enabled(&mut self, enabled: bool)
        ensures
            final(self)@ == (ManagerModel { enabled, ..old(self)@ }),
    {
        self.enabled = enabled;
    }

    pub fn is_enabled(&self) -> (b: bool)
        ensures
            b == self@.enabled,
    {
        self.enabled
    }

    pub fn set_default_timeout(&mut self, timeout_secs: u64)
        ensures
            final(self)@ == (ManagerModel { default_timeout: timeout_secs, ..old(self)@ }),
    {
        self.default_timeout = timeout_secs;
    }

    pub fn set_max_notifications(&mut self, max: usize)
        ensures
            final(self)@ == (ManagerModel { max_notifications: max, ..old(self)@ }),
    {
        self.max_notifications = max;
    }

    /// Forgets the notifications older than `max_age_secs` at time `now` (seconds
    /// since the epoch, read by the caller).
    pub fn cleanup_old(&mut self, now: u64, max_age_secs: u64)
        requires
            forall|i: int| 0 <= i < old(self)@.notifications.len() ==> (#[trigger] old(self)@.notifications[i]).created_at_secs <= now,
        ensures
            final(self)@ == (ManagerModel {
                notifications: old(self)@.notifications.filter(|n: Notification| now - n.created_at_secs < max_age_secs),
                ..old(self)@
            }),
    {
        let ghost ns = self.notifications@;
        let ghost p = |n: Notification| now - n.created_at_secs < max_age_secs;
        let mut all: Vec<Notification> = Vec::new();
        std::mem::swap(&mut all, &mut self.notifications);
        let mut kept: Vec<Notification> = Vec::new();
        let mut i: usize = 0;
        assert forall|k: int| 0 <= k < ns.len() implies (#[trigger] ns[k]).created_at_secs <= now by {
            assert(ns[k] == old(self)@.notifications[k]);
        }
        while i < all.len()
            invariant
                i <= all@.len(),
                all@ == ns,
                p == (|n: Notification| now - n.created_at_secs < max_age_secs),
                forall|k: int| 0 <= k < ns.len() ==> (#[trigger] ns[k]).created_at_secs <= now,
                kept@ == ns.take(i as int).filter(p),
                self.notifications@.len() == 0,
                self.enabled == old(self).enabled,
                self.max_notifications == old(self).max_notifications,
                self.default_timeout == old(self).default_timeout,
                self.use_dbus == old(self).use_dbus,
                self.use_notify_send == old(self).use_notify_send,
            decreases all@.len() - i,
        {
            proof {
                assert(ns.take(i + 1).drop_last() =~= ns.take(i as int));
                reveal_with_fuel(Seq::<Notification>::filter, 1);
            }
            if now - all[i].created_at_secs < max_age_secs {
                kept.push(all[i].clone_notification());
            }
            i = i + 1;
            assert(kept@ =~= ns.take(i as int).filter(p));
        }
        assert(ns.take(i as int) =~= ns);
        self.notifications = kept;
    }
}

/// Law: the history never grows past its limit (one entry for a limit of 0), and
/// the notification recorded last is the newest entry.
pub proof fn law_history_bounded(h: Seq<Notification>, max: usize, n: Notification)
    requires
        h.len() <= if max == 0 { 1 } else { max as int },
    ensures
        recorded(h, max, n).len() <= if max == 0 { 1 } else { max as int },
        recorded(h, max, n).last() == n,
{
}
} // verus!
