//! The post workflow over resources: claiming on creation, resource
//! changes on modification, removal, and who may see a post.

use vstd::prelude::*;
use vstd::slice::slice_to_vec;

use crate::date::{now_unix, today_julian, Date};
use crate::digest::random_below;
use crate::post::{
    time_check, validate_time_at, DateRange, Post, PostView, Priority, State, StateView, Status,
};
use crate::resource::{Resource, ResourceView};
use crate::tags::{has_permission, Permission, Tags};
use crate::{Error, Id};

verus! {

/// The records of a list of resources.
pub open spec fn records_view(v: Seq<Resource>) -> Seq<ResourceView> {
    v.map_values(|r: Resource| r@)
}

/// Whether a record is one that a claim for `wanted`, restricted to the
/// resources of `owner` where given, takes.
pub open spec fn claims(r: ResourceView, wanted: Set<Id>, owner: Option<Id>) -> bool {
    wanted.contains(Id(r.id)) && (owner matches Some(o) ==> r.owner == o.0)
}

/// Whether a record stops a claim: it is taken by the claim but already
/// claimed.
pub open spec fn conflicts(r: ResourceView, wanted: Set<Id>, owner: Option<Id>) -> bool {
    claims(r, wanted, owner) && r.used
}

/// The records with those before position `k` that the claim takes
/// marked claimed.
pub open spec fn claimed_upto(s: Seq<ResourceView>, wanted: Set<Id>, owner: Option<Id>, k: int) -> Seq<
    ResourceView,
> {
    Seq::new(
        s.len(),
        |i: int|
            if i < k && claims(s[i], wanted, owner) {
                ResourceView { used: true, ..s[i] }
            } else {
                s[i]
            },
    )
}

/// The ids of the records before position `n` that the claim takes, in
/// order.
pub open spec fn claimed_ids(s: Seq<ResourceView>, wanted: Set<Id>, owner: Option<Id>, n: int) -> Seq<
    Id,
>
    decreases n,
{
    if n <= 0 {
        Seq::empty()
    } else if claims(s[n - 1], wanted, owner) {
        claimed_ids(s, wanted, owner, n - 1).push(Id(s[n - 1].id))
    } else {
        claimed_ids(s, wanted, owner, n - 1)
    }
}

/// Whether position `k` holds the first record that stops the claim.
pub open spec fn first_conflict(s: Seq<ResourceView>, wanted: Set<Id>, owner: Option<Id>, k: int) -> bool {
    &&& 0 <= k < s.len()
    &&& conflicts(s[k], wanted, owner)
    &&& forall|j: int| 0 <= j < k ==> !conflicts(#[trigger] s[j], wanted, owner)
}

/// Whether no record stops the claim.
pub open spec fn conflict_free(s: Seq<ResourceView>, wanted: Set<Id>, owner: Option<Id>) -> bool {
    forall|j: int| 0 <= j < s.len() ==> !conflicts(#[trigger] s[j], wanted, owner)
}

/// Whether `id` is in `ids`.
pub fn contains_id(ids: &Vec<Id>, id: Id) -> (r: bool)
    ensures
        r == ids@.contains(id),
{
    let mut i: usize = 0;
    while i < ids.len()
        invariant
            i <= ids@.len(),
            forall|k: int| 0 <= k < i ==> ids@[k] != id,
        decreases ids@.len() - i,
    {
        if ids[i] == id {
            return true;
        }
        i = i + 1;
    }
    false
}

/// Claims, in order, every record whose id is wanted (and, where `owner`
/// is given, that belongs to it). At the first such record already
/// claimed the claim stops with [`Error::ResourceUsed`], leaving claimed
/// the records taken before it. Otherwise it returns the ids claimed.
pub fn claim_matching(records: &mut Vec<Resource>, wanted: &Vec<Id>, owner: Option<Id>) -> (r:
    Result<Vec<Id>, Error>)
    ensures
        ({
            let s = records_view(old(records)@);
            &&& r is Ok ==> conflict_free(s, wanted@.to_set(), owner)
                && records_view(final(records)@) == claimed_upto(s, wanted@.to_set(), owner, s.len() as int)
                && r->Ok_0@ == claimed_ids(s, wanted@.to_set(), owner, s.len() as int)
            &&& r is Err ==> exists|k: int|
                #[trigger] first_conflict(s, wanted@.to_set(), owner, k) && r == Err::<
                    Vec<Id>,
                    Error,
                >(Error::ResourceUsed(s[k].id)) && records_view(final(records)@) == claimed_upto(
                    s,
                    wanted@.to_set(),
                    owner,
                    k,
                )
        }),
{
    let ghost s = records_view(records@);
    let mut ids: Vec<Id> = Vec::new();
    let mut i: usize = 0;
    while i < records.len()
        invariant
            s == records_view(old(records)@),
            records@.len() == s.len(),
            i <= s.len(),
            records_view(records@) == claimed_upto(s, wanted@.to_set(), owner, i as int),
            forall|j: int| 0 <= j < i ==> !conflicts(#[trigger] s[j], wanted@.to_set(), owner),
            ids@ == claimed_ids(s, wanted@.to_set(), owner, i as int),
        decreases s.len() - i,
    {
        assert(records_view(records@)[i as int] == records@[i as int]@);
        assert(records@[i as int]@ == s[i as int]);
        let rid = records[i].id();
        let rowner = records[i].owner();
        let take = contains_id(wanted, Id(rid)) && match owner {
            Some(o) => rowner.0 == o.0,
            None => true,
        };
        assert(take == claims(s[i as int], wanted@.to_set(), owner));
        if take {
            let ghost before = records@;
            let mut rec = records.remove(i);
            let res = rec.block();
            records.insert(i, rec);
            assert(records@ == before.update(i as int, records@[i as int]));
            if res.is_err() {
                assert(records_view(records@) == claimed_upto(s, wanted@.to_set(), owner, i as int)) by {
                    assert(records_view(records@) =~= records_view(before));
                }
                assert(first_conflict(s, wanted@.to_set(), owner, i as int));
                return Err(Error::ResourceUsed(rid));
            }
            ids.push(Id(rid));
            assert(records@[i as int]@ == ResourceView { used: true, ..s[i as int] });
            assert forall|j: int| 0 <= j < s.len() && j != i implies records_view(records@)[j]
                == claimed_upto(s, wanted@.to_set(), owner, i + 1 as int)[j] by {
                assert(records@[j] == before[j]);
                assert(records_view(before)[j] == before[j]@);
            }
            assert(records_view(records@) =~= claimed_upto(s, wanted@.to_set(), owner, i + 1 as int));
        } else {
            assert(records_view(records@) =~= claimed_upto(s, wanted@.to_set(), owner, i + 1 as int));
        }
        i = i + 1;
    }
    Ok(ids)
}

/// The ids of `a` that `keep` decides on, once each, in order of first
/// appearance: those in `b` where `keep`, those not in `b` otherwise.
fn select_ids(a: &Vec<Id>, b: &Vec<Id>, keep: bool) -> (r: Vec<Id>)
    ensures
        r@.no_duplicates(),
        keep ==> r@.to_set() == a@.to_set().intersect(b@.to_set()),
        !keep ==> r@.to_set() == a@.to_set().difference(b@.to_set()),
{
    let mut r: Vec<Id> = Vec::new();
    let mut i: usize = 0;
    while i < a.len()
        invariant
            i <= a@.len(),
            r@.no_duplicates(),
            keep ==> r@.to_set() == a@.subrange(0, i as int).to_set().intersect(b@.to_set()),
            !keep ==> r@.to_set() == a@.subrange(0, i as int).to_set().difference(b@.to_set()),
        decreases a@.len() - i,
    {
        let x = a[i];
        proof {
            assert(a@.subrange(0, i + 1 as int) == a@.subrange(0, i as int).push(x));
            a@.subrange(0, i as int).lemma_push_to_set_commute(x);
        }
        if contains_id(b, x) == keep && !contains_id(&r, x) {
            proof {
                r@.lemma_push_to_set_commute(x);
            }
            r.push(x);
        }
        proof {
            if keep {
                assert(r@.to_set() =~= a@.subrange(0, i + 1 as int).to_set().intersect(b@.to_set()));
            } else {
                assert(r@.to_set() =~= a@.subrange(0, i + 1 as int).to_set().difference(b@.to_set()));
            }
        }
        i = i + 1;
    }
    assert(a@.subrange(0, a@.len() as int) == a@);
    r
}

/// Changes requested to a post by its creator.
#[derive(Clone, Debug)]
pub struct ModifyReq {
    /// A new title.
    pub title: Option<String>,
    /// Notes of the new Pending state.
    pub notes: Option<String>,
    /// A new time range.
    pub time: Option<DateRange>,
    /// The new list of resources.
    pub resources: Option<Vec<Id>>,
    /// Whether the post is played as a full sequence.
    pub grouped: Option<bool>,
}

/// The resources that a modification brings into a post: those of the
/// new list that the post does not use yet.
pub open spec fn entering(old: Seq<Id>, new: Seq<Id>) -> Set<Id> {
    new.to_set().difference(old.to_set())
}

/// The outcome of a modification of `post` by `operator` on day `today` at
/// `now`, over `s`, the stored records of the resources the new list brings
/// in. Only the creator may modify; a new time range is checked first; the
/// resources brought in are claimed; on success the resources that left
/// the post are returned for destruction, and a Pending state is appended
/// so that any earlier review is revoked.
pub open spec fn modify_outcome(
    post: PostView,
    operator: Id,
    req: ModifyReq,
    s: Seq<ResourceView>,
    today: i32,
    now: i64,
    after_post: PostView,
    after: Seq<ResourceView>,
    r: Result<Vec<Id>, Error>,
) -> bool {
    if post.creator() != operator.0 {
        r == Err::<Vec<Id>, Error>(Error::PostNotFound(post.id)) && after_post == post && after == s
    } else if req.time is Some && time_check(req.time->Some_0, today) is Err {
        r == Err::<Vec<Id>, Error>(time_check(req.time->Some_0, today)->Err_0) && after_post == post
            && after == s
    } else if req.resources is Some && !conflict_free(
        s,
        entering(post.resources, req.resources->Some_0@),
        None,
    ) {
        exists|k: int|
            #[trigger] first_conflict(s, entering(post.resources, req.resources->Some_0@), None, k)
                && r == Err::<
                Vec<Id>,
                Error,
            >(Error::ResourceUsed(s[k].id)) && after_post == post && after == claimed_upto(
                s,
                entering(post.resources, req.resources->Some_0@),
                None,
                k,
            )
    } else {
        &&& r is Ok
        &&& after_post.id == post.id
        &&& after_post.title == (match req.title {
            Some(t) => t@,
            None => post.title,
        })
        &&& after_post.time == (match req.time {
            Some(t) => t,
            None => post.time,
        })
        &&& after_post.grouped == (match req.grouped {
            Some(g) => g,
            None => post.grouped,
        })
        &&& after_post.priority == post.priority
        &&& after_post.states == post.states.push(
            StateView {
                status: Status::Pending,
                time: now,
                operator: operator.0,
                message: match req.notes {
                    Some(n) => n@,
                    None => Seq::empty(),
                },
            },
        )
        &&& match req.resources {
            Some(new) => {
                &&& after == claimed_upto(s, entering(post.resources, new@), None, s.len() as int)
                &&& after_post.resources.to_set() == new@.to_set().intersect(post.resources.to_set()).union(
                    claimed_ids(s, entering(post.resources, new@), None, s.len() as int).to_set(),
                )
                &&& r->Ok_0@.to_set() == post.resources.to_set().difference(new@.to_set())
            },
            None => after == s && after_post.resources == post.resources && r->Ok_0@.len() == 0,
        }
    }
}

/// Modifies `post` on behalf of `operator` on day `today` at `now`;
/// `records` are the stored records of the resources that the new list
/// brings in. Returns the ids of the resources that left the post.
pub fn modify_post_at(
    post: &mut Post,
    operator: Id,
    req: ModifyReq,
    records: &mut Vec<Resource>,
    today: i32,
    now: i64,
) -> (r: Result<Vec<Id>, Error>)
    requires
        old(post)@.states.len() > 0,
    ensures
        final(post)@.states.len() > 0,
        modify_outcome(
            old(post)@,
            operator,
            req,
            records_view(old(records)@),
            today,
            now,
            final(post)@,
            records_view(final(records)@),
            r,
        ),
{
    if post.creator().0 != operator.0 {
        return Err(Error::PostNotFound(post.id()));
    }
    if let Some(t) = &req.time {
        validate_time_at(t, today)?;
    }
    let ghost s = records_view(records@);
    let ghost req0 = req;
    let ModifyReq { title, notes, time, resources, grouped } = req;
    let mut leaving: Vec<Id> = Vec::new();
    let mut next: Option<Vec<Id>> = None;
    if let Some(new) = resources {
        let old_ids = slice_to_vec(post.resources());
        let entering_ids = select_ids(&new, &old_ids, false);
        let mut kept = select_ids(&new, &old_ids, true);
        let claimed = match claim_matching(records, &entering_ids, None) {
            Ok(c) => c,
            Err(e) => {
                proof {
                    let k = choose|k: int| #[trigger] first_conflict(s, entering_ids@.to_set(), None, k);
                    assert(entering_ids@.to_set() == entering(post@.resources, new@));
                }
                return Err(e);
            },
        };
        let ghost kept0 = kept@;
        let mut i: usize = 0;
        while i < claimed.len()
            invariant
                i <= claimed@.len(),
                kept@ == kept0 + claimed@.subrange(0, i as int),
            decreases claimed@.len() - i,
        {
            kept.push(claimed[i]);
            i = i + 1;
            assert(kept@ == kept0 + claimed@.subrange(0, i as int));
        }
        assert(claimed@.subrange(0, claimed@.len() as int) == claimed@);
        proof {
            assert(kept@.to_set() =~= kept0.to_set().union(claimed@.to_set())) by {
                assert forall|x: Id| kept@.to_set().contains(x) <==> kept0.to_set().union(claimed@.to_set()).contains(x) by {
                    if kept@.contains(x) {
                        let k = kept@.index_of(x);
                        if k >= kept0.len() {
                            assert(claimed@[k - kept0.len()] == x);
                        }
                    }
                    if claimed@.contains(x) {
                        let k = claimed@.index_of(x);
                        assert(kept@[kept0.len() + k] == x);
                    }
                    if kept0.contains(x) {
                        let k = kept0.index_of(x);
                        assert(kept@[k] == x);
                    }
                }
            }
            assert(entering_ids@.to_set() == entering(post@.resources, new@));
        }
        leaving = select_ids(&old_ids, &new, false);
        next = Some(kept);
    }
    if let Some(t) = title {
        post.set_title(t);
    }
    if let Some(g) = grouped {
        post.set_is_grouped(g);
    }
    if let Some(t) = time {
        post.set_time_at(t, today)?;
    }
    if let Some(k) = next {
        post.set_resources(k);
    }
    let message = match notes {
        Some(n) => n,
        None => String::new(),
    };
    let res = post.pust_state(State::new_at(Status::Pending, operator.0, message, now));
    assert(res is Ok);
    Ok(leaving)
}

/// The outcome of creating a post for `creator` over the given records of
/// its resources, on day `today` at `now` with id nonce `nonce`: an empty
/// resource list is refused first, then the time range is checked, each
/// listed resource of the creator is claimed, and every listed resource
/// must have been claimed.
pub open spec fn create_outcome(
    title: Seq<char>,
    notes: Seq<char>,
    time: DateRange,
    wanted: Seq<Id>,
    creator: Id,
    grouped: bool,
    priority: Priority,
    s: Seq<ResourceView>,
    today: i32,
    now: i64,
    nonce: u32,
    after: Seq<ResourceView>,
    r: Result<Post, Error>,
) -> bool {
    if wanted.len() == 0 {
        r == Err::<Post, Error>(Error::PostResourceEmpty) && after == s
    } else if time_check(time, today) is Err {
        r == Err::<Post, Error>(time_check(time, today)->Err_0) && after == s
    } else if !conflict_free(s, wanted.to_set(), Some(creator)) {
        exists|k: int|
            #[trigger] first_conflict(s, wanted.to_set(), Some(creator), k) && r == Err::<Post, Error>(
                Error::ResourceUsed(s[k].id),
            ) && after == claimed_upto(s, wanted.to_set(), Some(creator), k)
    } else {
        &&& after == claimed_upto(s, wanted.to_set(), Some(creator), s.len() as int)
        &&& claimed_ids(s, wanted.to_set(), Some(creator), s.len() as int).len() < wanted.len() ==> r
            == Err::<Post, Error>(Error::PermissionDenied)
        &&& claimed_ids(s, wanted.to_set(), Some(creator), s.len() as int).len() >= wanted.len() ==> (
        r matches Ok(p) && p@ == (PostView {
            id: crate::post::post_id(creator.0, time, now, nonce, title),
            title,
            time,
            resources: wanted,
            states: seq![StateView { status: Status::Pending, time: now, operator: creator.0, message: notes }],
            grouped,
            priority,
        }))
    }
}

/// Creates a post for `creator` on day `today` at `now`, claiming its
/// resources among `records`, the stored records of the listed resources.
/// Resources claimed before a failure stay claimed.
pub fn create_post_at(
    title: String,
    notes: String,
    time: DateRange,
    resources: Vec<Id>,
    creator: Id,
    grouped: bool,
    priority: Priority,
    records: &mut Vec<Resource>,
    today: i32,
    now: i64,
    nonce: u32,
) -> (r: Result<Post, Error>)
    ensures
        create_outcome(
            title@,
            notes@,
            time,
            resources@,
            creator,
            grouped,
            priority,
            records_view(old(records)@),
            today,
            now,
            nonce,
            records_view(final(records)@),
            r,
        ),
{
    if resources.len() == 0 {
        return Err(Error::PostResourceEmpty);
    }
    validate_time_at(&time, today)?;
    let ghost s = records_view(records@);
    let claimed = match claim_matching(records, &resources, Some(creator)) {
        Ok(c) => c,
        Err(e) => {
            proof {
                let k = choose|k: int| #[trigger] first_conflict(s, resources@.to_set(), Some(creator), k);
                assert(!conflict_free(s, resources@.to_set(), Some(creator)));
            }
            return Err(e);
        },
    };
    if claimed.len() < resources.len() {
        return Err(Error::PermissionDenied);
    }
    Post::new_at(title, notes, time, resources, creator.0, grouped, priority, today, now, nonce)
}

/// Creates a post for `creator` now, claiming its resources among
/// `records`.
pub fn create_post(
    title: String,
    notes: String,
    time: DateRange,
    resources: Vec<Id>,
    creator: Id,
    grouped: bool,
    priority: Priority,
    records: &mut Vec<Resource>,
) -> (r: Result<Post, Error>)
    ensures
        exists|today: i32, now: i64, nonce: u32|
            create_outcome(
                title@,
                notes@,
                time,
                resources@,
                creator,
                grouped,
                priority,
                records_view(old(records)@),
                today,
                now,
                nonce,
                records_view(final(records)@),
                r,
            ),
{
    let today = today_julian();
    let now = now_unix();
    let nonce = random_below(u32::MAX);
    create_post_at(
        title,
        notes,
        time,
        resources,
        creator,
        grouped,
        priority,
        records,
        today,
        now,
        nonce,
    )
}

proof fn lemma_claimed_ids_witness(s: Seq<ResourceView>, wanted: Set<Id>, owner: Option<Id>, n: int)
    requires
        0 <= n <= s.len(),
        claimed_ids(s, wanted, owner, n).len() > 0,
    ensures
        exists|m: int| 0 <= m < n && #[trigger] claims(s[m], wanted, owner),
    decreases n,
{
    if !claims(s[n - 1], wanted, owner) {
        lemma_claimed_ids_witness(s, wanted, owner, n - 1);
    }
}

/// Two requests that both want the same single resource cannot both
/// succeed in claiming it, whichever accounts make them: after one claim
/// has taken it, a second one finds it claimed or not its own.
pub proof fn lemma_single_resource_claimed_once(
    s: Seq<ResourceView>,
    id: u64,
    first: Id,
    second: Id,
)
    requires
        forall|i: int, j: int|
            0 <= i < s.len() && 0 <= j < s.len() && #[trigger] s[i].id == #[trigger] s[j].id ==> i
                == j,
    ensures
        ({
            let w = set![Id(id)];
            let s1 = claimed_upto(s, w, Some(first), s.len() as int);
            conflict_free(s, w, Some(first)) && claimed_ids(s, w, Some(first), s.len() as int).len()
                >= 1 ==> !(conflict_free(s1, w, Some(second)) && claimed_ids(
                s1,
                w,
                Some(second),
                s.len() as int,
            ).len() >= 1)
        }),
{
    let w = set![Id(id)];
    let s1 = claimed_upto(s, w, Some(first), s.len() as int);
    if conflict_free(s, w, Some(first)) && claimed_ids(s, w, Some(first), s.len() as int).len() >= 1
        && conflict_free(s1, w, Some(second)) && claimed_ids(s1, w, Some(second), s.len() as int).len()
        >= 1 {
        lemma_claimed_ids_witness(s, w, Some(first), s.len() as int);
        let m = choose|m: int| 0 <= m < s.len() && #[trigger] claims(s[m], w, Some(first));
        lemma_claimed_ids_witness(s1, w, Some(second), s.len() as int);
        let m2 = choose|m2: int| 0 <= m2 < s.len() && #[trigger] claims(s1[m2], w, Some(second));
        assert(w.contains(Id(s[m].id)));
        assert(s[m].id == id);
        assert(s1[m2].id == s[m2].id);
        assert(w.contains(Id(s1[m2].id)));
        assert(s[m2].id == id);
        assert(m2 == m);
        assert(s1[m].used);
        assert(conflicts(s1[m], w, Some(second)));
    }
}

/// The posts of a list.
pub open spec fn posts_view(v: Seq<Post>) -> Seq<PostView> {
    v.map_values(|p: Post| p@)
}

/// The ids of the posts before position `n` that `pred` selects, in order.
pub open spec fn selected_ids(ps: Seq<PostView>, pred: spec_fn(PostView) -> bool, n: int) -> Seq<u64>
    decreases n,
{
    if n <= 0 {
        Seq::empty()
    } else if pred(ps[n - 1]) {
        selected_ids(ps, pred, n - 1).push(ps[n - 1].id)
    } else {
        selected_ids(ps, pred, n - 1)
    }
}

/// The resources of the posts before position `n` that `pred` selects,
/// in order.
pub open spec fn selected_resources(ps: Seq<PostView>, pred: spec_fn(PostView) -> bool, n: int) -> Seq<
    Id,
>
    decreases n,
{
    if n <= 0 {
        Seq::empty()
    } else if pred(ps[n - 1]) {
        selected_resources(ps, pred, n - 1) + ps[n - 1].resources
    } else {
        selected_resources(ps, pred, n - 1)
    }
}

proof fn lemma_selected_prefix(ps: Seq<PostView>, pred: spec_fn(PostView) -> bool, i: int, n: int)
    requires
        0 <= i <= n,
    ensures
        selected_ids(ps, pred, i).len() <= selected_ids(ps, pred, n).len(),
        selected_ids(ps, pred, n).subrange(0, selected_ids(ps, pred, i).len() as int)
            == selected_ids(ps, pred, i),
    decreases n - i,
{
    if i < n {
        lemma_selected_prefix(ps, pred, i, n - 1);
        let a = selected_ids(ps, pred, i);
        let b = selected_ids(ps, pred, n - 1);
        if pred(ps[n - 1]) {
            assert(b.push(ps[n - 1].id).subrange(0, a.len() as int) == b.subrange(0, a.len() as int));
        }
    }
}

/// Who may see what of a post.
#[derive(Clone, Copy, PartialEq, Eq, Structural, Debug)]
pub enum Visibility {
    /// The whole post, with its history.
    Full,
    /// Its title, creator, resources and play settings.
    Simple,
    /// Nothing: the post is reported as not found.
    Hidden,
}

/// What an account sees of a post on day `day`: the creator and holders
/// of the permission to judge posts see everything; holders of the get-published permission see approved
/// posts whose range holds the day; nobody else sees anything.
pub open spec fn visibility_of(p: PostView, viewer: u64, review: bool, get_pub: bool, day: i32) -> Visibility {
    if p.creator() == viewer || review {
        Visibility::Full
    } else if get_pub && p.status() == Status::Approved && p.time.start.julian <= day
        <= p.time.end.julian {
        Visibility::Simple
    } else {
        Visibility::Hidden
    }
}

/// What the account `viewer` with tags `tags` sees of `post` on day `day`.
pub fn visibility(post: &Post, viewer: Id, tags: &Tags, day: i32) -> (r: Visibility)
    requires
        post@.states.len() > 0,
    ensures
        r == visibility_of(
            post@,
            viewer.0,
            has_permission(tags@, Permission::ReviewPost),
            has_permission(tags@, Permission::GetPubPost),
            day,
        ),
{
    let review = tags.contains_permission(Permission::ReviewPost);
    let get_pub = tags.contains_permission(Permission::GetPubPost);
    if post.creator().0 == viewer.0 || review {
        Visibility::Full
    } else if get_pub && post.state().status() == Status::Approved && post.time().start.julian
        <= day && day <= post.time().end.julian {
        Visibility::Simple
    } else {
        Visibility::Hidden
    }
}

/// Filter options for listing posts.
#[derive(Clone, Copy, Debug)]
pub struct PostFilter {
    /// Only posts with a greater id.
    pub from: Option<u64>,
    /// Only posts of this creator.
    pub creator: Option<Id>,
    /// Only posts with this current status.
    pub status: Option<Status>,
    /// Only posts whose range holds this date.
    pub on: Option<Date>,
    /// Only posts whose id is a multiple of one more than this screen
    /// number.
    pub screen: Option<u64>,
}

/// Whether a listing with filter `f` by `viewer` on day `today` shows `p`;
/// visibility is judged on the filter's date where it has one.
pub open spec fn filter_accepts(
    p: PostView,
    f: PostFilter,
    viewer: u64,
    review: bool,
    get_pub: bool,
    today: i32,
) -> bool {
    &&& !(f.from matches Some(a) && p.id <= a)
    &&& !(f.screen matches Some(sc) && p.id as int % (sc as int + 1) != 0)
    &&& !(f.creator matches Some(c) && p.creator() != c.0)
    &&& !(f.status matches Some(st) && p.status() != st)
    &&& !(f.on matches Some(d) && !(p.time.start.julian <= d.julian <= p.time.end.julian))
    &&& visibility_of(
        p,
        viewer,
        review,
        get_pub,
        match f.on {
            Some(d) => d.julian,
            None => today,
        },
    ) != Visibility::Hidden
}

/// The selection of the posts that a listing shows.
pub open spec fn filter_pred(
    f: PostFilter,
    viewer: u64,
    review: bool,
    get_pub: bool,
    today: i32,
) -> spec_fn(PostView) -> bool {
    |p: PostView| filter_accepts(p, f, viewer, review, get_pub, today)
}

/// At most `limit` of the ids, the first ones; all of them where `limit`
/// is zero.
pub open spec fn take_limit(ids: Seq<u64>, limit: usize) -> Seq<u64> {
    if limit == 0 || ids.len() <= limit {
        ids
    } else {
        ids.take(limit as int)
    }
}

/// Lists the ids of the posts, among `posts` in order, that a listing with
/// filter `f` by `viewer` with tags `tags` on day `today` shows, at most
/// `limit` of them (no bound where `limit` is zero).
pub fn filter_posts(
    posts: &Vec<Post>,
    f: &PostFilter,
    viewer: Id,
    tags: &Tags,
    today: i32,
    limit: usize,
) -> (r: Vec<u64>)
    requires
        forall|i: int| 0 <= i < posts@.len() ==> (#[trigger] posts@[i])@.states.len() > 0,
    ensures
        r@ == take_limit(
            selected_ids(
                posts_view(posts@),
                filter_pred(
                    *f,
                    viewer.0,
                    has_permission(tags@, Permission::ReviewPost),
                    has_permission(tags@, Permission::GetPubPost),
                    today,
                ),
                posts@.len() as int,
            ),
            limit,
        ),
{
    let ghost ps = posts_view(posts@);
    let ghost pred = filter_pred(
        *f,
        viewer.0,
        has_permission(tags@, Permission::ReviewPost),
        has_permission(tags@, Permission::GetPubPost),
        today,
    );
    let mut out: Vec<u64> = Vec::new();
    let mut i: usize = 0;
    while i < posts.len()
        invariant
            i <= posts@.len(),
            ps == posts_view(posts@),
            forall|j: int| 0 <= j < posts@.len() ==> (#[trigger] posts@[j])@.states.len() > 0,
            pred == filter_pred(
                *f,
                viewer.0,
                has_permission(tags@, Permission::ReviewPost),
                has_permission(tags@, Permission::GetPubPost),
                today,
            ),
            out@ == selected_ids(ps, pred, i as int),
            limit == 0 || out@.len() < limit,
        decreases posts@.len() - i,
    {
        let p = &posts[i];
        assert(ps[i as int] == p@);
        let id = p.id();
        let day = match f.on {
            Some(d) => d.julian,
            None => today,
        };
        let mut accept = true;
        if let Some(a) = f.from {
            if id <= a {
                accept = false;
            }
        }
        if let Some(sc) = f.screen {
            if id as u128 % (sc as u128 + 1) != 0 {
                accept = false;
            }
        }
        if let Some(c) = f.creator {
            if p.creator().0 != c.0 {
                accept = false;
            }
        }
        if let Some(st) = f.status {
            if p.state().status() != st {
                accept = false;
            }
        }
        if let Some(d) = f.on {
            if !p.time().contains(&d) {
                accept = false;
            }
        }
        if visibility(p, viewer, tags, day) == Visibility::Hidden {
            accept = false;
        }
        assert(accept == filter_accepts(
            ps[i as int],
            *f,
            viewer.0,
            has_permission(tags@, Permission::ReviewPost),
            has_permission(tags@, Permission::GetPubPost),
            today,
        ));
        assert(accept == pred(ps[i as int]));
        if accept {
            out.push(id);
        }
        i = i + 1;
        if limit != 0 && out.len() == limit {
            proof {
                lemma_selected_prefix(ps, pred, i as int, posts@.len() as int);
                let all = selected_ids(ps, pred, posts@.len() as int);
                if all.len() <= limit {
                    assert(all =~= all.subrange(0, limit as int));
                } else {
                    assert(all.take(limit as int) =~= all.subrange(0, limit as int));
                }
            }
            return out;
        }
    }
    out
}

/// A request to remove several posts.
#[derive(Clone, Debug)]
pub enum BulkRemoveReq {
    /// The listed posts that the requester may remove.
    Posts { posts: Vec<Id> },
    /// Every post whose range has fully elapsed.
    Unused,
}

/// Whether the bulk removal `req` by `viewer` on day `today` takes `p`.
pub open spec fn removal_takes(
    p: PostView,
    req: BulkRemoveReq,
    viewer: u64,
    remove_any: bool,
    today: i32,
) -> bool {
    match req {
        BulkRemoveReq::Posts { posts } => posts@.contains(Id(p.id)) && (p.creator() == viewer
            || remove_any),
        BulkRemoveReq::Unused => p.time.end.julian < today,
    }
}

/// The selection of the posts that a bulk removal takes.
pub open spec fn removal_pred(req: BulkRemoveReq, viewer: u64, remove_any: bool, today: i32) -> spec_fn(
    PostView,
) -> bool {
    |p: PostView| removal_takes(p, req, viewer, remove_any, today)
}

/// What a removal destroys: posts by id, and the resources they used.
#[derive(Clone, Debug)]
pub struct Removal {
    pub posts: Vec<u64>,
    pub resources: Vec<Id>,
}

/// Whether `viewer` may remove `post`: its creator or a holder of the
/// remove-post permission. On success the resources of the post are
/// returned, to be destroyed with it; to others the post is not found.
pub fn plan_removal(post: &Post, viewer: Id, tags: &Tags) -> (r: Result<Removal, Error>)
    requires
        post@.states.len() > 0,
    ensures
        post@.creator() == viewer.0 || has_permission(tags@, Permission::RemovePost) ==> (r matches Ok(
            m,
        ) && m.posts@ == seq![post@.id] && m.resources@ == post@.resources),
        !(post@.creator() == viewer.0 || has_permission(tags@, Permission::RemovePost)) ==> r
            == Err::<Removal, Error>(Error::PostNotFound(post@.id)),
{
    if post.creator().0 != viewer.0 && !tags.contains_permission(Permission::RemovePost) {
        return Err(Error::PostNotFound(post.id()));
    }
    Ok(Removal { posts: vec![post.id()], resources: slice_to_vec(post.resources()) })
}

/// Decides a bulk removal by `viewer` with tags `tags` on day `today`
/// among `posts`, the stored posts it concerns. Removing the elapsed
/// posts takes both the remove-post and the maintenance permissions.
pub fn plan_bulk_removal(
    posts: &Vec<Post>,
    req: &BulkRemoveReq,
    viewer: Id,
    tags: &Tags,
    today: i32,
) -> (r: Result<Removal, Error>)
    requires
        forall|i: int| 0 <= i < posts@.len() ==> (#[trigger] posts@[i])@.states.len() > 0,
    ensures
        (*req is Unused && !(has_permission(tags@, Permission::Maintain) && has_permission(
            tags@,
            Permission::RemovePost,
        ))) ==> r == Err::<Removal, Error>(Error::PermissionDenied),
        !(*req is Unused && !(has_permission(tags@, Permission::Maintain) && has_permission(
            tags@,
            Permission::RemovePost,
        ))) ==> (r matches Ok(m)
            && m.posts@ == selected_ids(
            posts_view(posts@),
            removal_pred(*req, viewer.0, has_permission(tags@, Permission::RemovePost), today),
            posts@.len() as int,
        ) && m.resources@ == selected_resources(
            posts_view(posts@),
            removal_pred(*req, viewer.0, has_permission(tags@, Permission::RemovePost), today),
            posts@.len() as int,
        )),
{
    let unused = match req {
        BulkRemoveReq::Unused => true,
        BulkRemoveReq::Posts { .. } => false,
    };
    let remove_any = tags.contains_permission(Permission::RemovePost);
    if unused && !(tags.contains_permission(Permission::Maintain) && remove_any) {
        return Err(Error::PermissionDenied);
    }
    let ghost ps = posts_view(posts@);
    let ghost pred = removal_pred(*req, viewer.0, remove_any, today);
    let mut ids: Vec<u64> = Vec::new();
    let mut resources: Vec<Id> = Vec::new();
    let mut i: usize = 0;
    while i < posts.len()
        invariant
            i <= posts@.len(),
            ps == posts_view(posts@),
            forall|j: int| 0 <= j < posts@.len() ==> (#[trigger] posts@[j])@.states.len() > 0,
            pred == removal_pred(*req, viewer.0, remove_any, today),
            ids@ == selected_ids(ps, pred, i as int),
            resources@ == selected_resources(ps, pred, i as int),
        decreases posts@.len() - i,
    {
        let p = &posts[i];
        assert(ps[i as int] == p@);
        let take = match req {
            BulkRemoveReq::Posts { posts: wanted } => contains_id(wanted, Id(p.id())) && (
            p.creator().0 == viewer.0 || remove_any),
            BulkRemoveReq::Unused => p.time().end.julian < today,
        };
        assert(take == removal_takes(ps[i as int], *req, viewer.0, remove_any, today));
        assert(take == pred(ps[i as int]));
        if take {
            ids.push(p.id());
            let rs = p.resources();
            let ghost before = resources@;
            let mut k: usize = 0;
            while k < rs.len()
                invariant
                    k <= rs@.len(),
                    resources@ == before + rs@.subrange(0, k as int),
                decreases rs@.len() - k,
            {
                resources.push(rs[k]);
                k = k + 1;
                assert(resources@ == before + rs@.subrange(0, k as int));
            }
            assert(rs@.subrange(0, rs@.len() as int) == rs@);
        }
        i = i + 1;
    }
    Ok(Removal { posts: ids, resources })
}

} // verus!
