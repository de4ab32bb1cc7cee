//! Notifications sent by administrators and displayed by the screens.

use vstd::prelude::*;
use vstd::string::*;
use vstd::utf8::encode_utf8;

use crate::date::{now_unix, Date};
use crate::digest::{digest, digest_of};

verus! {

/// What a notification holds.
pub struct NotificationView {
    pub id: u64,
    pub title: Seq<char>,
    pub body: Seq<char>,
    pub time: i64,
    pub sender: u64,
}

/// The id of a notification: a digest of its start time, its creation
/// time and its body.
pub open spec fn notification_id(time: i64, now: i64, body: Seq<char>) -> u64 {
    digest_of(seq![time as u64, now as u64], encode_utf8(body))
}

/// A notification, shown from its start time on.
#[derive(Debug)]
pub struct Notification {
    id: u64,
    /// Title of the notification.
    pub title: String,
    /// Body of the notification.
    pub body: String,
    time: i64,
    sender: u64,
}

impl View for Notification {
    type V = NotificationView;

    closed spec fn view(&self) -> NotificationView {
        NotificationView {
            id: self.id,
            title: self.title@,
            body: self.body@,
            time: self.time,
            sender: self.sender,
        }
    }
}

impl Notification {
    /// A notification by `sender` starting at `time`, created at `now`.
    pub fn new_at(title: String, body: String, time: i64, sender: u64, now: i64) -> (r: Notification)
        ensures
            r@ == (NotificationView {
                id: notification_id(time, now, body@),
                title: title@,
                body: body@,
                time,
                sender,
            }),
    {
        let words = vec![#[verifier::truncate] (time as u64), #[verifier::truncate] (now as u64)];
        let id = digest(&words, body.as_str());
        Notification { id, title, body, time, sender }
    }

    /// A notification by `sender` starting at `time`, created now.
    pub fn new(title: String, body: String, time: i64, sender: u64) -> (r: Notification)
        ensures
            exists|now: i64| r@ == (NotificationView {
                id: notification_id(time, now, body@),
                title: title@,
                body: body@,
                time,
                sender,
            }),
    {
        Notification::new_at(title, body, time, sender, now_unix())
    }

    /// A notification with all its fields given, as storage holds it.
    pub fn from_record(id: u64, title: String, body: String, time: i64, sender: u64) -> (r:
        Notification)
        ensures
            r@ == (NotificationView { id, title: title@, body: body@, time, sender }),
    {
        Notification { id, title, body, time, sender }
    }

    /// Id of this notification.
    pub fn id(&self) -> (r: u64)
        ensures
            r == self@.id,
    {
        self.id
    }

    /// Start time of this notification.
    pub fn time(&self) -> (r: i64)
        ensures
            r == self@.time,
    {
        self.time
    }

    /// Sender of this notification.
    pub fn sender(&self) -> (r: u64)
        ensures
            r == self@.sender,
    {
        self.sender
    }

    /// Moves the start time.
    pub fn set_time(&mut self, time: i64)
        ensures
            final(self)@ == (NotificationView { time, ..old(self)@ }),
    {
        self.time = time;
    }

    /// Whether a viewer sees this notification at `now`: managers see
    /// every notification, others only those already started.
    pub fn visible_at(&self, now: i64, manager: bool) -> (r: bool)
        ensures
            r == (manager || self@.time <= now),
    {
        manager || self.time <= now
    }
}

/// The Julian day number of the Unix epoch, 1970-01-01.
pub const UNIX_EPOCH_JULIAN: i64 = 2_440_588;

/// Seconds in a day.
pub const SECS_PER_DAY: i64 = 86400;

/// The Unix time at which the UTC day with Julian day number `julian`
/// begins.
pub open spec fn day_start(julian: int) -> int {
    (julian - UNIX_EPOCH_JULIAN) * SECS_PER_DAY
}

/// Filter options for listing notifications.
#[derive(Clone, Copy, Debug)]
pub struct NotificationFilter {
    /// Only notifications with a greater id.
    pub from: Option<u64>,
    /// Only notifications of this sender, for viewers who manage them.
    pub sender: Option<u64>,
    /// Only notifications starting on this (UTC) date or later.
    pub after: Option<Date>,
    /// Only notifications starting on this (UTC) date or earlier.
    pub before: Option<Date>,
}

/// Whether a listing with filter `f` by a viewer at `now` shows `n`: only
/// ids above `from`, only those of `sender` where the viewer manages
/// notifications, only those starting on a day from `after` to `before`,
/// and only started ones for viewers who do not manage notifications.
pub open spec fn listing_shows(n: NotificationView, f: NotificationFilter, manager: bool, now: i64) -> bool {
    &&& !(f.from matches Some(a) && n.id <= a)
    &&& !(f.sender matches Some(s) && manager && n.sender != s)
    &&& !(f.after matches Some(a) && n.time < day_start(a.julian as int))
    &&& !(f.before matches Some(b) && n.time >= day_start(b.julian as int) + SECS_PER_DAY)
    &&& (manager || n.time <= now)
}

/// The ids of the notifications before position `k` that a listing
/// shows, in order.
pub open spec fn listed_ids(
    ns: Seq<NotificationView>,
    f: NotificationFilter,
    manager: bool,
    now: i64,
    k: int,
) -> Seq<u64>
    decreases k,
{
    if k <= 0 {
        Seq::empty()
    } else if listing_shows(ns[k - 1], f, manager, now) {
        listed_ids(ns, f, manager, now, k - 1).push(ns[k - 1].id)
    } else {
        listed_ids(ns, f, manager, now, k - 1)
    }
}

proof fn lemma_listed_prefix(
    ns: Seq<NotificationView>,
    f: NotificationFilter,
    manager: bool,
    now: i64,
    i: int,
    n: int,
)
    requires
        0 <= i <= n,
    ensures
        listed_ids(ns, f, manager, now, i).len() <= listed_ids(ns, f, manager, now, n).len(),
        listed_ids(ns, f, manager, now, n).subrange(
            0,
            listed_ids(ns, f, manager, now, i).len() as int,
        ) == listed_ids(ns, f, manager, now, i),
    decreases n - i,
{
    if i < n {
        lemma_listed_prefix(ns, f, manager, now, i, n - 1);
        let a = listed_ids(ns, f, manager, now, i);
        let b = listed_ids(ns, f, manager, now, n - 1);
        if listing_shows(ns[n - 1], f, manager, now) {
            assert(b.push(ns[n - 1].id).subrange(0, a.len() as int) == b.subrange(0, a.len() as int));
        }
    }
}

/// At most `limit` of the ids, the first ones; all of them where `limit`
/// is zero.
pub open spec fn first_ids(ids: Seq<u64>, limit: usize) -> Seq<u64> {
    if limit == 0 || ids.len() <= limit {
        ids
    } else {
        ids.take(limit as int)
    }
}

/// Lists the ids of the notifications, among `ns` in order, that a
/// listing with filter `f` shows to a viewer at `now`, at most `limit` of
/// them (no bound where `limit` is zero).
pub fn filter_notifications(
    ns: &Vec<Notification>,
    f: &NotificationFilter,
    manager: bool,
    now: i64,
    limit: usize,
) -> (r: Vec<u64>)
    ensures
        r@ == first_ids(
            listed_ids(ns@.map_values(|n: Notification| n@), *f, manager, now, ns@.len() as int),
            limit,
        ),
{
    let ghost vs = ns@.map_values(|n: Notification| n@);
    let mut out: Vec<u64> = Vec::new();
    let mut i: usize = 0;
    while i < ns.len()
        invariant
            i <= ns@.len(),
            vs == ns@.map_values(|n: Notification| n@),
            out@ == listed_ids(vs, *f, manager, now, i as int),
            limit == 0 || out@.len() < limit,
        decreases ns@.len() - i,
    {
        let n = &ns[i];
        assert(vs[i as int] == n@);
        let mut show = n.visible_at(now, manager);
        if let Some(a) = f.from {
            if n.id <= a {
                show = false;
            }
        }
        if let Some(sd) = f.sender {
            if manager && n.sender != sd {
                show = false;
            }
        }
        if let Some(a) = f.after {
            let days: i128 = a.julian as i128 - UNIX_EPOCH_JULIAN as i128;
            assert(-0x1_0000_0000_0000 < days < 0x1_0000_0000_0000);
            let start: i128 = days * 86400;
            if (n.time as i128) < start {
                show = false;
            }
        }
        if let Some(b) = f.before {
            let days: i128 = b.julian as i128 - UNIX_EPOCH_JULIAN as i128;
            assert(-0x1_0000_0000_0000 < days < 0x1_0000_0000_0000);
            let end: i128 = days * 86400 + 86400;
            if (n.time as i128) >= end {
                show = false;
            }
        }
        assert(show == listing_shows(vs[i as int], *f, manager, now));
        if show {
            out.push(n.id);
        }
        i = i + 1;
        if limit != 0 && out.len() == limit {
            proof {
                lemma_listed_prefix(vs, *f, manager, now, i as int, ns@.len() as int);
                let all = listed_ids(vs, *f, manager, now, ns@.len() as int);
                if all.len() <= limit {
                    assert(all =~= all.subrange(0, limit as int));
                } else {
                    assert(all.take(limit as int) =~= all.subrange(0, limit as int));
                }
            }
            return out;
        }
    }
    out
}

} // verus!
