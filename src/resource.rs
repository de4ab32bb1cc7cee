//! Resources: uploaded media files, their claiming and upload sessions.

use vstd::prelude::*;

use crate::date::now_unix;
use crate::digest::{digest, digest_of, random_below};
use crate::text::{decimal, prefixed_decimal};
use crate::{Error, Id};

verus! {

/// Kind of a resource, with its display metadata.
#[derive(Clone, PartialEq, Eq, Debug)]
pub enum Variant {
    /// An image, shown for `duration` seconds.
    Image { duration: u32 },
    /// A PDF file of `pages` pages, each shown for its duration in seconds.
    Pdf { pages: u16, durations: Vec<u32> },
    /// A video of `duration` seconds.
    Video { duration: u32 },
}

/// What a resource record holds.
pub struct ResourceView {
    pub id: u64,
    pub owner: u64,
    pub used: bool,
    pub variant: Variant,
}

/// Reference and metadata of a resource file.
#[derive(Debug)]
pub struct Resource {
    id: u64,
    variant: Variant,
    owner: Id,
    used: bool,
}

impl View for Resource {
    type V = ResourceView;

    closed spec fn view(&self) -> ResourceView {
        ResourceView { id: self.id, owner: self.owner.0, used: self.used, variant: self.variant }
    }
}

/// File name prefix of a committed resource.
pub const FILE_PREFIX: &'static str = "r_";

/// File name prefix of the buffer of a resource being uploaded.
pub const BUF_PREFIX: &'static str = "buf_";

impl Resource {
    /// A new, unclaimed resource of `account`, under an id drawn from the
    /// current time, the account and a random number.
    pub fn new(variant: Variant, account: Id) -> (r: Resource)
        ensures
            r@.owner == account.0,
            r@.variant == variant,
            !r@.used,
    {
        let now = now_unix();
        let salt = random_below(u32::MAX);
        let words = vec![#[verifier::truncate] (now as u64), account.0, salt as u64];
        let id = digest(&words, "");
        Resource { id, variant, owner: account, used: false }
    }

    /// A resource record with all its fields given, as storage holds it.
    pub fn from_record(id: u64, variant: Variant, owner: Id, used: bool) -> (r: Resource)
        ensures
            r@ == (ResourceView { id, owner: owner.0, used, variant }),
    {
        Resource { id, variant, owner, used }
    }

    /// Id of this resource.
    pub fn id(&self) -> (r: u64)
        ensures
            r == self@.id,
    {
        self.id
    }

    /// Owner of this resource.
    pub fn owner(&self) -> (r: Id)
        ensures
            r.0 == self@.owner,
    {
        self.owner
    }

    /// Variant of this resource.
    pub fn variant(&self) -> (r: &Variant)
        ensures
            *r == self@.variant,
    {
        &self.variant
    }

    /// Claims this resource. A resource already claimed stays claimed and
    /// the claim fails, whoever attempts it.
    pub fn block(&mut self) -> (r: Result<(), Error>)
        ensures
            old(self)@.used ==> r == Err::<(), Error>(Error::ResourceUsed(old(self)@.id))
                && final(self)@ == old(self)@,
            !old(self)@.used ==> r is Ok && final(self)@ == (ResourceView {
                used: true,
                ..old(self)@
            }),
    {
        if self.used {
            return Err(Error::ResourceUsed(self.id));
        }
        self.used = true;
        Ok(())
    }

    /// Releases this resource.
    pub fn unblock(&mut self)
        ensures
            final(self)@ == (ResourceView { used: false, ..old(self)@ }),
    {
        self.used = false;
    }

    /// Whether this resource is currently claimed.
    pub fn is_blocked(&self) -> (r: bool)
        ensures
            r == self@.used,
    {
        self.used
    }

    /// The index values of this record in storage: its id, then 1 where
    /// it is claimed and 0 where it is not.
    pub fn dims(&self) -> (r: Vec<u64>)
        ensures
            r@ == seq![self@.id, if self@.used { 1u64 } else { 0u64 }],
    {
        vec![self.id, if self.used { 1 } else { 0 }]
    }

    /// Whether `viewer` may read this resource: its owner always, others
    /// once it is claimed by a post.
    pub fn check_readable(&self, viewer: Id) -> (r: Result<(), Error>)
        ensures
            r is Ok <==> (self@.owner == viewer.0 || self@.used),
            r is Err ==> r == Err::<(), Error>(Error::PermissionDenied),
    {
        if self.owner.0 != viewer.0 && !self.used {
            return Err(Error::PermissionDenied);
        }
        Ok(())
    }

    /// File name of this resource.
    pub fn file_name(&self) -> (r: String)
        ensures
            r@ == FILE_PREFIX@ + decimal(self@.id as nat),
    {
        prefixed_decimal(FILE_PREFIX, self.id)
    }

    /// File name of the upload buffer of this resource.
    pub fn buf_name(&self) -> (r: String)
        ensures
            r@ == BUF_PREFIX@ + decimal(self@.id as nat),
    {
        prefixed_decimal(BUF_PREFIX, self.id)
    }
}

/// Seconds after which an upload session that was not committed expires.
pub const SESSION_EXPIRE_SECS: i64 = 15;

/// What an upload session holds.
pub struct SessionView {
    pub resource: ResourceView,
    /// Creation time, in seconds since the Unix epoch.
    pub instant: i64,
}

/// Whether a session created at `instant` has expired at `now`.
pub open spec fn expired_at(instant: i64, now: i64) -> bool {
    now - instant > SESSION_EXPIRE_SECS
}

/// The sessions still live at `now`, in order.
pub open spec fn live(s: Seq<SessionView>, now: i64) -> Seq<SessionView>
    decreases s.len(),
{
    if s.len() == 0 {
        s
    } else if expired_at(s.last().instant, now) {
        live(s.drop_last(), now)
    } else {
        live(s.drop_last(), now).push(s.last())
    }
}

/// Whether the sessions have pairwise distinct resource ids.
pub open spec fn ids_unique(s: Seq<SessionView>) -> bool {
    forall|i: int, j: int|
        0 <= i < s.len() && 0 <= j < s.len() && i != j ==> #[trigger] s[i].resource.id
            != #[trigger] s[j].resource.id
}

/// The position of the session of resource `id`, if there is one.
pub open spec fn has_session(s: Seq<SessionView>, id: u64) -> bool {
    exists|i: int| 0 <= i < s.len() && #[trigger] s[i].resource.id == id
}

/// The id a resource receives when its upload is committed: a digest of
/// the content digest, the commit time and the uploader.
pub open spec fn committed_id(content: u64, now: i64, user: u64) -> u64 {
    digest_of(seq![content, now as u64, user], Seq::empty())
}

/// The sessions after opening one for `res` at `now`: the expired ones
/// are dropped, and a session of the same id is replaced.
pub open spec fn insert_outcome(
    old: Seq<SessionView>,
    res: ResourceView,
    now: i64,
    new: Seq<SessionView>,
) -> bool {
    let l = live(old, now);
    let s = SessionView { resource: res, instant: now };
    if has_session(l, res.id) {
        exists|i: int| 0 <= i < l.len() && #[trigger] l[i].resource.id == res.id && new == l.update(i, s)
    } else {
        new == l.push(s)
    }
}

/// The outcome of committing the upload of resource `id` by `user` at
/// `now`: the expired sessions are dropped; then, where a live session of
/// `id` exists and belongs to `user`, it is removed and its resource
/// returned under the committed id.
pub open spec fn accept_outcome(
    old: Seq<SessionView>,
    id: u64,
    content: u64,
    user: u64,
    now: i64,
    new: Seq<SessionView>,
    r: Result<Resource, Error>,
) -> bool {
    let l = live(old, now);
    &&& !has_session(l, id) ==> r == Err::<Resource, Error>(Error::ResourceUploadSessionNotFound(id))
        && new == l
    &&& has_session(l, id) ==> exists|i: int|
        0 <= i < l.len() && #[trigger] l[i].resource.id == id && if l[i].resource.owner != user {
            r == Err::<Resource, Error>(Error::PermissionDenied) && new == l
        } else {
            &&& r matches Ok(res) && res@ == (ResourceView {
                id: committed_id(content, now, user),
                ..l[i].resource
            })
            &&& new == l.remove(i)
        }
}

/// A resource uploading session.
#[derive(Debug)]
pub struct UploadSession {
    resource: Resource,
    instant: i64,
}

impl View for UploadSession {
    type V = SessionView;

    closed spec fn view(&self) -> SessionView {
        SessionView { resource: self.resource@, instant: self.instant }
    }
}

impl UploadSession {
    /// A session for `resource`, created at `now`.
    pub fn new(resource: Resource, now: i64) -> (r: UploadSession)
        ensures
            r@ == (SessionView { resource: resource@, instant: now }),
    {
        UploadSession { resource, instant: now }
    }

    /// Whether this session has expired at `now`.
    pub fn is_expired(&self, now: i64) -> (r: bool)
        ensures
            r == expired_at(self@.instant, now),
    {
        now as i128 - self.instant as i128 > SESSION_EXPIRE_SECS as i128
    }
}

/// Storage of resource upload sessions, one per resource id.
#[derive(Debug)]
pub struct UploadSessions {
    inner: Vec<UploadSession>,
}

impl View for UploadSessions {
    type V = Seq<SessionView>;

    closed spec fn view(&self) -> Seq<SessionView> {
        self.inner@.map_values(|s: UploadSession| s@)
    }
}

proof fn lemma_live_unique(s: Seq<SessionView>, now: i64)
    requires
        ids_unique(s),
    ensures
        ids_unique(live(s, now)),
        forall|x: SessionView| live(s, now).contains(x) ==> s.contains(x),
    decreases s.len(),
{
    if s.len() > 0 {
        lemma_live_unique(s.drop_last(), now);
        let l = live(s.drop_last(), now);
        if !expired_at(s.last().instant, now) {
            assert forall|x: SessionView| l.contains(x) implies x.resource.id != s.last().resource.id by {
                let k = choose|k: int| 0 <= k < l.len() && l[k] == x;
                assert(s.drop_last().contains(x));
                let m = choose|m: int| 0 <= m < s.drop_last().len() && s.drop_last()[m] == x;
                assert(s[m] == x);
            }
            assert forall|i: int, j: int|
                0 <= i < l.push(s.last()).len() && 0 <= j < l.push(s.last()).len() && i != j
                implies #[trigger] l.push(s.last())[i].resource.id != #[trigger] l.push(
                s.last(),
            )[j].resource.id by {
                if i < l.len() {
                    assert(l.contains(l[i]));
                }
                if j < l.len() {
                    assert(l.contains(l[j]));
                }
            }
            assert(live(s, now) == l.push(s.last()));
            assert forall|x: SessionView| live(s, now).contains(x) implies s.contains(x) by {
                if x != s.last() {
                    let k = choose|k: int| 0 <= k < l.push(s.last()).len() && l.push(s.last())[k] == x;
                    assert(k < l.len());
                    assert(l[k] == x);
                    assert(l.contains(x));
                    assert(s.drop_last().contains(x));
                    let m = choose|m: int| 0 <= m < s.drop_last().len() && s.drop_last()[m] == x;
                    assert(s[m] == x);
                } else {
                    assert(s[s.len() - 1] == x);
                }
            }
        } else {
            assert(live(s, now) == l);
            assert forall|x: SessionView| live(s, now).contains(x) implies s.contains(x) by {
                assert(l.contains(x));
                assert(s.drop_last().contains(x));
                let m = choose|m: int| 0 <= m < s.drop_last().len() && s.drop_last()[m] == x;
                assert(s[m] == x);
            }
        }
    }
}

impl UploadSessions {
    /// Whether no two sessions share a resource id.
    pub closed spec fn wf(&self) -> bool {
        ids_unique(self@)
    }

    /// An empty storage.
    pub fn new() -> (r: UploadSessions)
        ensures
            r.wf(),
            r@ == Seq::<SessionView>::empty(),
    {
        let r = UploadSessions { inner: Vec::new() };
        assert(r@ == Seq::<SessionView>::empty());
        r
    }

    /// Drops the sessions that have expired at `now`.
    pub fn cleanup(&mut self, now: i64)
        requires
            old(self).wf(),
        ensures
            final(self).wf(),
            final(self)@ == live(old(self)@, now),
    {
        let mut old_inner: Vec<UploadSession> = Vec::new();
        std::mem::swap(&mut old_inner, &mut self.inner);
        let ghost orig = old_inner@.map_values(|s: UploadSession| s@);
        assert(orig == old(self)@);
        let mut kept: Vec<UploadSession> = Vec::new();
        let mut rest = old_inner;
        let mut i: usize = 0;
        let n = rest.len();
        while i < n
            invariant
                n == orig.len(),
                i <= n,
                rest@.len() == n - i,
                forall|k: int| 0 <= k < n - i ==> (#[trigger] rest@[k])@ == orig[i + k],
                kept@.map_values(|s: UploadSession| s@) == live(orig.subrange(0, i as int), now),
            decreases n - i,
        {
            let ghost before = rest@;
            let s = rest.remove(0);
            assert(s@ == orig[i as int]);
            assert forall|k: int| 0 <= k < n - (i + 1) implies (#[trigger] rest@[k])@ == orig[(i + 1) + k] by {
                assert(rest@[k] == before[k + 1]);
            }
            assert(orig.subrange(0, i + 1 as int).drop_last() == orig.subrange(0, i as int));
            if !s.is_expired(now) {
                kept.push(s);
                assert(kept@.map_values(|s: UploadSession| s@) == live(
                    orig.subrange(0, i as int),
                    now,
                ).push(s@));
            }
            i = i + 1;
        }
        assert(orig.subrange(0, n as int) == orig);
        self.inner = kept;
        proof {
            lemma_live_unique(orig, now);
        }
    }

    /// Opens a session for `res` at `now`, after dropping the expired
    /// ones; a session of the same id is replaced.
    pub fn insert_at(&mut self, res: Resource, now: i64)
        requires
            old(self).wf(),
        ensures
            final(self).wf(),
            insert_outcome(old(self)@, res@, now, final(self)@),
    {
        self.cleanup(now);
        let ghost l = self@;
        let id = res.id;
        let ghost rv = res@;
        let session = UploadSession::new(res, now);
        assert(session@.resource.id == id);
        let mut i: usize = 0;
        while i < self.inner.len()
            invariant
                self.wf(),
                self@ == l,
                l == live(old(self)@, now),
                session@ == (SessionView { resource: rv, instant: now }),
                rv.id == id,
                rv == res@,
                i <= self@.len(),
                forall|k: int| 0 <= k < i ==> self@[k].resource.id != id,
            decreases self@.len() - i,
        {
            if self.inner[i].resource.id == id {
                assert(self@[i as int].resource.id == id);
                let ghost before = self@;
                self.inner.set(i, session);
                assert(self@ == before.update(i as int, session@));
                assert(ids_unique(self@)) by {
                    assert forall|a: int, b: int|
                        0 <= a < self@.len() && 0 <= b < self@.len() && a != b
                        implies #[trigger] self@[a].resource.id != #[trigger] self@[b].resource.id by {
                        if a != i && b != i {
                            assert(before[a] == self@[a] && before[b] == self@[b]);
                        } else if a == i {
                            assert(before[b] == self@[b]);
                            assert(before[i as int].resource.id != before[b].resource.id);
                        } else {
                            assert(before[a] == self@[a]);
                            assert(before[i as int].resource.id != before[a].resource.id);
                        }
                    }
                }
                assert(has_session(l, rv.id));
                assert(l[i as int].resource.id == rv.id && self@ == l.update(i as int, session@));
                return;
            }
            i = i + 1;
        }
        let ghost before = self@;
        self.inner.push(session);
        assert(self@ == before.push(session@));
        assert(!has_session(l, rv.id));
        assert(ids_unique(self@)) by {
            assert forall|a: int, b: int|
                0 <= a < self@.len() && 0 <= b < self@.len() && a != b
                implies #[trigger] self@[a].resource.id != #[trigger] self@[b].resource.id by {
                if a < before.len() && b < before.len() {
                    assert(before[a] == self@[a] && before[b] == self@[b]);
                }
            }
        }
    }

    /// Opens a session for `res` now.
    pub fn insert(&mut self, res: Resource)
        requires
            old(self).wf(),
        ensures
            final(self).wf(),
            exists|now: i64| insert_outcome(old(self)@, res@, now, final(self)@),
    {
        let now = now_unix();
        self.insert_at(res, now);
    }

    /// Position of the session of `id`.
    fn position(&self, id: u64) -> (r: Option<usize>)
        ensures
            r matches Some(i) ==> i < self@.len() && self@[i as int].resource.id == id,
            r is None ==> !has_session(self@, id),
    {
        let mut i: usize = 0;
        while i < self.inner.len()
            invariant
                i <= self@.len(),
                forall|k: int| 0 <= k < i ==> self@[k].resource.id != id,
            decreases self@.len() - i,
        {
            if self.inner[i].resource.id == id {
                return Some(i);
            }
            i = i + 1;
        }
        None
    }

    /// Commits the upload of resource `id` by `user` at `now`, after
    /// dropping the expired sessions: the session is removed and its
    /// resource returned under the id that the content digest, the time and
    /// the uploader give.
    pub fn accept_at(&mut self, id: Id, content: u64, user: Id, now: i64) -> (r: Result<
        Resource,
        Error,
    >)
        requires
            old(self).wf(),
        ensures
            final(self).wf(),
            accept_outcome(old(self)@, id.0, content, user.0, now, final(self)@, r),
    {
        self.cleanup(now);
        match self.position(id.0) {
            None => Err(Error::ResourceUploadSessionNotFound(id.0)),
            Some(i) => {
                if self.inner[i].resource.owner.0 != user.0 {
                    return Err(Error::PermissionDenied);
                }
                let ghost before = self@;
                let session = self.inner.remove(i);
                assert(self@ == before.remove(i as int));
                assert(ids_unique(self@)) by {
                    assert forall|a: int, b: int|
                        0 <= a < self@.len() && 0 <= b < self@.len() && a != b
                        implies #[trigger] self@[a].resource.id != #[trigger] self@[b].resource.id by {
                        let a2 = if a < i { a } else { a + 1 };
                        let b2 = if b < i { b } else { b + 1 };
                        assert(before[a2] == self@[a] && before[b2] == self@[b]);
                    }
                }
                let mut res = session.resource;
                let words = vec![content, #[verifier::truncate] (now as u64), user.0];
                proof {
                    reveal_strlit("");
                }
                res.id = digest(&words, "");
                Ok(res)
            },
        }
    }

    /// Commits the upload of resource `id` by `user` now.
    pub fn accept(&mut self, id: Id, content: u64, user: Id) -> (r: Result<Resource, Error>)
        requires
            old(self).wf(),
        ensures
            final(self).wf(),
            exists|now: i64| accept_outcome(old(self)@, id.0, content, user.0, now, final(self)@, r),
    {
        let now = now_unix();
        self.accept_at(id, content, user, now)
    }

    /// File name of the upload buffer of the session of `id`, if there is
    /// one.
    pub fn buf_name(&self, id: u64) -> (r: Option<String>)
        ensures
            has_session(self@, id) <==> r is Some,
            r matches Some(s) ==> s@ == BUF_PREFIX@ + decimal(id as nat),
    {
        match self.position(id) {
            Some(i) => Some(self.inner[i].resource.buf_name()),
            None => None,
        }
    }
}

/// Largest accepted upload, in bytes.
pub const MAX_PAYLOAD_LEN: usize = 50 * 1024 * 1024;

/// Declares the hasher of uploaded content.
#[verifier::external_type_specification]
#[verifier::external_body]
pub struct ExPortableHash(highway::PortableHash);

/// The HighwayHash digest of a byte string, from a hasher in its default
/// state.
pub uninterp spec fn highway_of(bytes: Seq<u8>) -> u64;

/// The bytes a content hasher has been fed since its default state.
pub uninterp spec fn hasher_fed(h: highway::PortableHash) -> Seq<u8>;

/// Relies on `highway::PortableHash::default`: a hasher in its default
/// state, fed nothing yet.
#[verifier::external_body]
fn content_hasher() -> (r: highway::PortableHash)
    ensures
        hasher_fed(r) == Seq::<u8>::empty(),
{
    highway::PortableHash::default()
}

/// Relies on `highway::HighwayHash::append`: feeds the bytes to the hasher.
#[verifier::external_body]
fn content_append(h: &mut highway::PortableHash, data: &[u8])
    ensures
        hasher_fed(*final(h)) == hasher_fed(*old(h)) + data@,
{
    highway::HighwayHash::append(h, data)
}

/// Relies on `highway::HighwayHash::finalize64`: the digest of what was
/// fed, which depends on those bytes alone for a hasher that started in
/// its default state.
#[verifier::external_body]
fn content_finish(h: highway::PortableHash) -> (r: u64)
    ensures
        r == highway_of(hasher_fed(h)),
{
    highway::HighwayHash::finalize64(h)
}

/// An upload in progress: the content digest so far and its length,
/// bounded by [`MAX_PAYLOAD_LEN`].
pub struct UploadBuffer {
    hasher: highway::PortableHash,
    len: usize,
}

impl UploadBuffer {
    /// The bytes received so far.
    pub closed spec fn content(&self) -> Seq<u8> {
        hasher_fed(self.hasher)
    }

    /// Whether the count of bytes matches what the hasher was fed.
    pub closed spec fn wf(&self) -> bool {
        self.len as int == hasher_fed(self.hasher).len()
    }

    /// Bytes received so far.
    pub open spec fn len(&self) -> nat {
        self.content().len()
    }

    /// An upload that has received nothing.
    pub fn new() -> (r: UploadBuffer)
        ensures
            r.wf(),
            r.content() == Seq::<u8>::empty(),
    {
        UploadBuffer { hasher: content_hasher(), len: 0 }
    }

    /// Bytes received so far.
    pub fn received(&self) -> (r: usize)
        requires
            self.wf(),
        ensures
            r == self.len(),
    {
        self.len
    }

    /// Takes a chunk of the upload; fails once the upload exceeds
    /// [`MAX_PAYLOAD_LEN`], and then takes nothing.
    pub fn push(&mut self, chunk: &[u8]) -> (r: Result<(), Error>)
        requires
            old(self).wf(),
            old(self).len() <= MAX_PAYLOAD_LEN,
        ensures
            final(self).wf(),
            old(self).len() + chunk@.len() > MAX_PAYLOAD_LEN ==> r == Err::<(), Error>(
                Error::PayloadTooLarge { max: MAX_PAYLOAD_LEN },
            ) && final(self).content() == old(self).content(),
            old(self).len() + chunk@.len() <= MAX_PAYLOAD_LEN ==> r is Ok && final(self).content()
                == old(self).content() + chunk@,
    {
        if chunk.len() > MAX_PAYLOAD_LEN - self.len {
            return Err(Error::PayloadTooLarge { max: MAX_PAYLOAD_LEN });
        }
        content_append(&mut self.hasher, chunk);
        self.len = self.len + chunk.len();
        Ok(())
    }

    /// The digest of the content received.
    pub fn finish(self) -> (r: u64)
        ensures
            r == highway_of(self.content()),
    {
        content_finish(self.hasher)
    }
}

} // verus!
