//! Captchas and the verification context of an account.

use vstd::prelude::*;

use crate::date::now_unix;
use crate::digest::random_below;
use crate::tags::{Permission, Tag, Tags, TagsView};
use crate::text::{decimal_padded, push_decimal};
use crate::Error;

verus! {

/// The number of digits of a captcha.
pub const CAPTCHA_DIGITS: u64 = 6;

/// One more than the largest captcha that is issued.
pub const CAPTCHA_BOUND: u32 = 1_000_000;

/// The least number of seconds between two captcha requests.
pub const LEAST_INTERVAL: i64 = 600;

/// A numeric captcha.
#[derive(Clone, Copy, PartialEq, Eq, Structural, Debug)]
pub struct Captcha(pub u32);

impl Captcha {
    /// Draws a captcha uniformly below [`CAPTCHA_BOUND`].
    pub fn random() -> (r: Captcha)
        ensures
            r.0 < CAPTCHA_BOUND,
    {
        Captcha(random_below(CAPTCHA_BOUND))
    }

    /// The numeric value of this captcha.
    pub fn into_inner(self) -> (r: u32)
        ensures
            r == self.0,
    {
        self.0
    }

    /// The captcha as text: its decimal digits, zero-padded to six.
    pub fn to_padded_string(&self) -> (r: String)
        ensures
            r@ == decimal_padded(self.0 as nat, CAPTCHA_DIGITS as nat),
    {
        let mut s = String::new();
        push_decimal(&mut s, self.0 as u64, CAPTCHA_DIGITS);
        s
    }
}

/// The permissions every newly verified account is granted.
pub open spec fn default_grant() -> Set<Permission> {
    set![
        Permission::GetPubPost,
        Permission::Post,
        Permission::UploadResource,
        Permission::ViewSimpleAccount,
        Permission::GetPubNotifications,
    ]
}

/// Extra arguments for verifying an account.
#[derive(Clone, Copy, Debug)]
pub struct DescArgs {
    /// The captcha given by the user.
    pub captcha: Captcha,
}

/// The state of a verification context.
pub struct VerifyCxView {
    /// The captcha currently valid.
    pub captcha: u32,
    /// When the last captcha was issued, in seconds since the Unix epoch.
    pub last_req: i64,
}

/// Seconds left of the cooldown that follows an issue at `last_req`,
/// as seen at `now`.
pub open spec fn cooldown_left(last_req: i64, now: i64) -> int {
    LEAST_INTERVAL - (now - last_req)
}

/// The state after a captcha request at `now` that would issue `fresh`,
/// and the request's outcome.
pub open spec fn update_spec(cx: VerifyCxView, now: i64, fresh: u32) -> (VerifyCxView, Result<
    Captcha,
    Error,
>) {
    if now - cx.last_req >= LEAST_INTERVAL {
        (VerifyCxView { captcha: fresh, last_req: now }, Ok(Captcha(fresh)))
    } else {
        (
            cx,
            Err(
                Error::ReqTooFrequent(
                    if cooldown_left(cx.last_req, now) > i64::MAX {
                        i64::MAX
                    } else {
                        cooldown_left(cx.last_req, now) as i64
                    },
                ),
            ),
        )
    }
}

/// Context used for verifying an account by email.
#[derive(Debug)]
pub struct VerifyCx {
    captcha: Captcha,
    last_req: i64,
}

impl View for VerifyCx {
    type V = VerifyCxView;

    closed spec fn view(&self) -> VerifyCxView {
        VerifyCxView { captcha: self.captcha.0, last_req: self.last_req }
    }
}

impl VerifyCx {
    /// A context that has issued no captcha yet: its last request lies at
    /// the Unix epoch, and its captcha is drawn at random.
    pub fn new() -> (r: VerifyCx)
        ensures
            r@.last_req == 0,
            r@.captcha < CAPTCHA_BOUND,
    {
        VerifyCx { captcha: Captcha::random(), last_req: 0 }
    }

    /// A context with the given captcha, issued at `last_req`.
    pub fn from_parts(captcha: Captcha, last_req: i64) -> (r: VerifyCx)
        ensures
            r@ == (VerifyCxView { captcha: captcha.0, last_req }),
    {
        VerifyCx { captcha, last_req }
    }

    /// The captcha currently valid.
    pub fn captcha(&self) -> (r: Captcha)
        ensures
            r.0 == self@.captcha,
    {
        self.captcha
    }

    /// When the last captcha was issued.
    pub fn last_req(&self) -> (r: i64)
        ensures
            r == self@.last_req,
    {
        self.last_req
    }

    /// Issues `fresh` as the new captcha at `now`, unless less than
    /// [`LEAST_INTERVAL`] seconds have passed since the last issue.
    pub fn update_at(&mut self, now: i64, fresh: Captcha) -> (r: Result<Captcha, Error>)
        ensures
            (final(self)@, r) == update_spec(old(self)@, now, fresh.0),
    {
        let delta: i128 = now as i128 - self.last_req as i128;
        if delta >= LEAST_INTERVAL as i128 {
            self.captcha = fresh;
            self.last_req = now;
            Ok(fresh)
        } else {
            let left: i128 = LEAST_INTERVAL as i128 - delta;
            if left > i64::MAX as i128 {
                Err(Error::ReqTooFrequent(i64::MAX))
            } else {
                Err(Error::ReqTooFrequent(left as i64))
            }
        }
    }

    /// Issues a random captcha now, unless one was issued less than
    /// [`LEAST_INTERVAL`] seconds ago.
    pub fn update(&mut self) -> (r: Result<Captcha, Error>)
        ensures
            exists|now: i64, fresh: u32|
                fresh < CAPTCHA_BOUND && (final(self)@, r) == update_spec(old(self)@, now, fresh),
    {
        let now = now_unix();
        let fresh = Captcha::random();
        self.update_at(now, fresh)
    }

    /// Checks the captcha a user gave; on a match, prepares the tags the
    /// user supplied for a verified account: the entries a user may not
    /// assign are dropped, an empty Permission entry is made and filled
    /// with the default grant.
    pub fn check(&self, args: &DescArgs, tags: &mut Tags) -> (r: Result<(), Error>)
        ensures
            args.captcha.0 != self@.captcha ==> r == Err::<(), Error>(Error::CaptchaIncorrect)
                && final(tags)@ == old(tags)@,
            args.captcha.0 == self@.captcha ==> r is Ok && final(tags)@ == (TagsView {
                permissions: Some(default_grant()),
                ..old(tags)@
            }),
    {
        if self.captcha.0 != args.captcha.0 {
            return Err(Error::CaptchaIncorrect);
        }
        tags.retain_user_definable();
        tags.initialize_permissions();
        tags.insert(Tag::Permission(Permission::GetPubPost));
        tags.insert(Tag::Permission(Permission::Post));
        tags.insert(Tag::Permission(Permission::UploadResource));
        tags.insert(Tag::Permission(Permission::ViewSimpleAccount));
        tags.insert(Tag::Permission(Permission::GetPubNotifications));
        assert(tags@.permissions->0 =~= default_grant());
        Ok(())
    }
}

/// A captcha issued at `t0` blocks another request at `t1` within the
/// cooldown, and the error carries exactly the seconds left.
pub proof fn lemma_cooldown_round_trip(
    cx: VerifyCxView,
    t0: i64,
    t1: i64,
    first: u32,
    second: u32,
)
    requires
        t0 - cx.last_req >= LEAST_INTERVAL,
        0 <= t1 - t0 < LEAST_INTERVAL,
    ensures
        ({
            let (issued, r0) = update_spec(cx, t0, first);
            let (after, r1) = update_spec(issued, t1, second);
            &&& r0 == Ok::<Captcha, Error>(Captcha(first))
            &&& r1 == Err::<Captcha, Error>(Error::ReqTooFrequent((LEAST_INTERVAL - (t1 - t0)) as i64))
            &&& after == issued
        }),
{
}

} // verus!
