//! Posts: their time ranges and review state history.

use vstd::prelude::*;
use vstd::string::*;
use vstd::utf8::encode_utf8;

use crate::date::{now_unix, today_julian, Date};
use crate::digest::{digest, digest_of, random_below};
use crate::{Error, Id};

verus! {

/// Status of a post.
#[derive(Clone, Copy, PartialEq, Eq, Structural, Hash, Debug)]
pub enum Status {
    /// Pending for review.
    Pending,
    /// Approved.
    Approved,
    /// Rejected.
    Rejected,
}

/// Deploy priority of a post, from the lowest.
#[derive(Clone, Copy, PartialEq, Eq, Structural, PartialOrd, Ord, Hash, Debug)]
pub enum Priority {
    Low,
    Normal,
    High,
    /// Blocks all other non-blocking posts while in play time.
    Block,
}

impl Priority {
    /// The numeric level of this priority.
    pub open spec fn level_of(self) -> u8 {
        match self {
            Priority::Low => 1,
            Priority::Normal => 2,
            Priority::High => 3,
            Priority::Block => 255,
        }
    }

    /// The numeric level of this priority.
    pub fn level(&self) -> (r: u8)
        ensures
            r == self.level_of(),
    {
        match self {
            Priority::Low => 1,
            Priority::Normal => 2,
            Priority::High => 3,
            Priority::Block => 255,
        }
    }
}

impl Default for Priority {
    fn default() -> (r: Priority)
        ensures
            r == Priority::Normal,
    {
        Priority::Normal
    }
}

/// An inclusive range of dates.
#[derive(Clone, Copy, PartialEq, Eq, Structural, Hash, Debug)]
pub struct DateRange {
    pub start: Date,
    pub end: Date,
}

impl DateRange {
    /// Whether `d` lies within the range.
    pub open spec fn contains_spec(self, d: Date) -> bool {
        self.start.julian <= d.julian <= self.end.julian
    }

    /// Whether `d` lies within the range.
    pub fn contains(&self, d: &Date) -> (r: bool)
        ensures
            r == self.contains_spec(*d),
    {
        self.start.julian <= d.julian && d.julian <= self.end.julian
    }
}

/// The longest span of a post, in days.
pub const MAX_DUR_DAYS: i64 = 7;

/// Seconds in a day.
pub const SECS_PER_DAY: i64 = 86400;

/// Whether a post may run over `time`, as judged on day `today`.
pub open spec fn time_check(time: DateRange, today: i32) -> Result<(), Error> {
    let span = time.end.julian - time.start.julian;
    if span < 0 {
        Err(Error::PostTimeRangeOutOfBound(i64::MAX))
    } else if span > MAX_DUR_DAYS {
        Err(Error::PostTimeRangeOutOfBound((span * SECS_PER_DAY) as i64))
    } else if time.end.julian < today {
        Err(Error::PostTimeEnded)
    } else {
        Ok(())
    }
}

/// Checks that `time` spans at most [`MAX_DUR_DAYS`] days and has not
/// ended before `today`.
pub fn validate_time_at(time: &DateRange, today: i32) -> (r: Result<(), Error>)
    ensures
        r == time_check(*time, today),
{
    let span: i64 = time.end.julian as i64 - time.start.julian as i64;
    if span < 0 {
        Err(Error::PostTimeRangeOutOfBound(i64::MAX))
    } else if span > MAX_DUR_DAYS {
        Err(Error::PostTimeRangeOutOfBound(span * SECS_PER_DAY))
    } else if time.end.julian < today {
        Err(Error::PostTimeEnded)
    } else {
        Ok(())
    }
}

/// Checks that `time` spans at most [`MAX_DUR_DAYS`] days and has not
/// ended yet.
pub fn validate_time(time: &DateRange) -> (r: Result<(), Error>)
    ensures
        exists|today: i32| r == time_check(*time, today),
{
    validate_time_at(time, today_julian())
}

/// A range longer than [`MAX_DUR_DAYS`] days is refused whatever the day,
/// and one of exactly that many days is accepted on any day up to its end.
pub proof fn lemma_time_span_bound(time: DateRange, today: i32)
    ensures
        time.end.julian - time.start.julian > MAX_DUR_DAYS ==> time_check(time, today)
            is Err && time_check(time, today)->Err_0 is PostTimeRangeOutOfBound,
        time.end.julian - time.start.julian == MAX_DUR_DAYS && today <= time.end.julian
            ==> time_check(time, today) is Ok,
{
}

/// What a state of a post holds.
pub struct StateView {
    pub status: Status,
    pub time: i64,
    pub operator: u64,
    pub message: Seq<char>,
}

/// One entry of the history of a post.
#[derive(Clone, Debug)]
pub struct State {
    status: Status,
    time: i64,
    operator: u64,
    message: String,
}

impl View for State {
    type V = StateView;

    closed spec fn view(&self) -> StateView {
        StateView {
            status: self.status,
            time: self.time,
            operator: self.operator,
            message: self.message@,
        }
    }
}

impl State {
    /// A state entered by `account` at `time` (seconds since the Unix epoch).
    pub fn new_at(status: Status, account: u64, message: String, time: i64) -> (r: State)
        ensures
            r@ == (StateView { status, time, operator: account, message: message@ }),
    {
        State { status, time, operator: account, message }
    }

    /// A state entered by `account` now.
    pub fn new(status: Status, account: u64, message: String) -> (r: State)
        ensures
            r@.status == status && r@.operator == account && r@.message == message@,
    {
        State::new_at(status, account, message, now_unix())
    }

    /// Status of this state.
    pub fn status(&self) -> (r: Status)
        ensures
            r == self@.status,
    {
        self.status
    }

    /// When this state was entered.
    pub fn time(&self) -> (r: i64)
        ensures
            r == self@.time,
    {
        self.time
    }

    /// Who entered this state.
    pub fn operator(&self) -> (r: u64)
        ensures
            r == self@.operator,
    {
        self.operator
    }

    /// Description of this state, written by its operator.
    pub fn message(&self) -> (r: &str)
        ensures
            r@ == self@.message,
    {
        self.message.as_str()
    }
}

/// The history after pushing `next` onto `states`, and the outcome: a
/// review with the status the post already has is refused.
pub open spec fn push_outcome(states: Seq<StateView>, next: StateView) -> (Seq<StateView>, Result<
    (),
    Error,
>) {
    if states.last().status == next.status && (next.status == Status::Approved || next.status
        == Status::Rejected) {
        (states, Err(Error::InvalidPostStatus))
    } else {
        (states.push(next), Ok(()))
    }
}

/// What a post holds.
pub struct PostView {
    pub id: u64,
    pub title: Seq<char>,
    pub time: DateRange,
    pub resources: Seq<Id>,
    pub states: Seq<StateView>,
    pub grouped: bool,
    pub priority: Priority,
}

impl PostView {
    /// The creator: the operator of the first state.
    pub open spec fn creator(self) -> u64 {
        self.states[0].operator
    }

    /// The current status: that of the last state.
    pub open spec fn status(self) -> Status {
        self.states.last().status
    }
}

/// The id of a post: a digest of its creator, time range, creation time,
/// a random nonce and its title.
pub open spec fn post_id(account: u64, time: DateRange, now: i64, nonce: u32, title: Seq<char>) -> u64 {
    digest_of(
        seq![account, time.start.julian as u64, time.end.julian as u64, now as u64, nonce as u64],
        encode_utf8(title),
    )
}

/// A post: a title shown over a range of days, the resources it shows and
/// its review history. Every constructor gives it a first state, and no
/// method removes one.
#[derive(Debug)]
pub struct Post {
    id: u64,
    title: String,
    time: DateRange,
    resources: Vec<Id>,
    states: Vec<State>,
    grouped: bool,
    priority: Priority,
}

impl View for Post {
    type V = PostView;

    closed spec fn view(&self) -> PostView {
        PostView {
            id: self.id,
            title: self.title@,
            time: self.time,
            resources: self.resources@,
            states: self.states@.map_values(|s: State| s@),
            grouped: self.grouped,
            priority: self.priority,
        }
    }
}

impl Post {
    /// Creates a post on day `today` at `now`, with a single Pending state
    /// by its creator holding `notes`, after checking its time range.
    pub fn new_at(
        title: String,
        notes: String,
        time: DateRange,
        resources: Vec<Id>,
        account: u64,
        grouped: bool,
        priority: Priority,
        today: i32,
        now: i64,
        nonce: u32,
    ) -> (r: Result<Post, Error>)
        ensures
            time_check(time, today) is Err ==> r == Err::<Post, Error>(time_check(time, today)->Err_0),
            time_check(time, today) is Ok ==> (r matches Ok(p) && p@ == (PostView {
                id: post_id(account, time, now, nonce, title@),
                title: title@,
                time,
                resources: resources@,
                states: seq![StateView { status: Status::Pending, time: now, operator: account, message: notes@ }],
                grouped,
                priority,
            })),
    {
        if let Err(e) = validate_time_at(&time, today) {
            return Err(e);
        }
        let words = vec![
            account,
            #[verifier::truncate] (time.start.julian as u64),
            #[verifier::truncate] (time.end.julian as u64),
            #[verifier::truncate] (now as u64),
            nonce as u64,
        ];
        assert(words@ == seq![account, time.start.julian as u64, time.end.julian as u64, now as u64, nonce as u64]);
        let id = digest(&words, title.as_str());
        let first = State::new_at(Status::Pending, account, notes, now);
        let states = vec![first];
        let p = Post { id, title, time, resources, states, grouped, priority };
        assert(p@.states =~= seq![StateView { status: Status::Pending, time: now, operator: account, message: notes@ }]);
        Ok(p)
    }

    /// A post with all its fields given, as storage holds it.
    pub fn from_record(
        id: u64,
        title: String,
        time: DateRange,
        resources: Vec<Id>,
        states: Vec<State>,
        grouped: bool,
        priority: Priority,
    ) -> (r: Post)
        requires
            states@.len() > 0,
        ensures
            r@ == (PostView {
                id,
                title: title@,
                time,
                resources: resources@,
                states: states@.map_values(|s: State| s@),
                grouped,
                priority,
            }),
            r@.states.len() > 0,
    {
        Post { id, title, time, resources, states, grouped, priority }
    }

    /// Creates a post now, with a single Pending state by its creator
    /// holding `notes`, after checking its time range.
    pub fn new(
        title: String,
        notes: String,
        time: DateRange,
        resources: Vec<Id>,
        account: u64,
        grouped: bool,
        priority: Priority,
    ) -> (r: Result<Post, Error>)
        ensures
            exists|today: i32|
                #![trigger time_check(time, today)]
                (time_check(time, today) is Err ==> r == Err::<Post, Error>(
                    time_check(time, today)->Err_0,
                )) && (time_check(time, today) is Ok ==> (r matches Ok(p) && p@.title == title@
                    && p@.time == time && p@.resources == resources@ && p@.grouped == grouped
                    && p@.priority == priority && p@.states.len() == 1 && p@.states[0].status
                    == Status::Pending && p@.states[0].operator == account
                    && p@.states[0].message == notes@)),
    {
        let today = today_julian();
        let now = now_unix();
        let nonce = random_below(u32::MAX);
        Post::new_at(title, notes, time, resources, account, grouped, priority, today, now, nonce)
    }

    /// The index values of this post in storage: its id, the day of the
    /// year it starts, its creator, and 1 where it is currently approved
    /// and 0 otherwise.
    pub fn dims(&self) -> (r: Vec<u64>)
        requires
            self@.states.len() > 0,
        ensures
            r@ == seq![
                self@.id,
                self@.time.start.ordinal as u64,
                self@.creator(),
                if self@.status() == Status::Approved { 1u64 } else { 0u64 },
            ],
    {
        let approved: u64 = if self.state().status() == Status::Approved {
            1
        } else {
            0
        };
        vec![self.id, self.time.start.ordinal as u64, self.creator().0, approved]
    }

    /// Id of this post.
    pub fn id(&self) -> (r: u64)
        ensures
            r == self@.id,
    {
        self.id
    }

    /// Title of this post.
    pub fn title(&self) -> (r: &str)
        ensures
            r@ == self@.title,
    {
        self.title.as_str()
    }

    /// Replaces the title of this post.
    pub fn set_title(&mut self, title: String)
        ensures
            final(self)@ == (PostView { title: title@, ..old(self)@ }),
    {
        self.title = title;
    }

    /// The history of this post, oldest first.
    pub fn states(&self) -> (r: &[State])
        ensures
            r@.map_values(|s: State| s@) == self@.states,
    {
        self.states.as_slice()
    }

    /// Appends a state to the history; a review with the status the post
    /// already has is refused and changes nothing.
    pub fn pust_state(&mut self, state: State) -> (r: Result<(), Error>)
        requires
            old(self)@.states.len() > 0,
        ensures
            final(self)@.states.len() > 0,
            (final(self)@.states, r) == push_outcome(old(self)@.states, state@),
            final(self)@ == (PostView { states: final(self)@.states, ..old(self)@ }),
    {
        let last = self.states.len() - 1;
        let current = self.states[last].status;
        if current == state.status && (state.status == Status::Approved || state.status
            == Status::Rejected) {
            return Err(Error::InvalidPostStatus);
        }
        let ghost before = self.states@;
        self.states.push(state);
        assert(self.states@.map_values(|s: State| s@) =~= before.map_values(|s: State| s@).push(
            state@,
        ));
        Ok(())
    }

    /// The current state of this post: the last of its history.
    pub fn state(&self) -> (r: &State)
        requires
            self@.states.len() > 0,
        ensures
            r@ == self@.states.last(),
    {
        &self.states[self.states.len() - 1]
    }

    /// Creator of this post: the operator of its first state.
    pub fn creator(&self) -> (r: Id)
        requires
            self@.states.len() > 0,
        ensures
            r.0 == self@.creator(),
    {
        Id(self.states[0].operator)
    }

    /// Deploy priority of this post.
    pub fn priority(&self) -> (r: Priority)
        ensures
            r == self@.priority,
    {
        self.priority
    }

    /// Time range of this post.
    pub fn time(&self) -> (r: DateRange)
        ensures
            r == self@.time,
    {
        self.time
    }

    /// Replaces the time range, after checking it on day `today`.
    pub fn set_time_at(&mut self, time: DateRange, today: i32) -> (r: Result<(), Error>)
        ensures
            r == time_check(time, today),
            r is Ok ==> final(self)@ == (PostView { time, ..old(self)@ }),
            r is Err ==> final(self)@ == old(self)@,
    {
        validate_time_at(&time, today)?;
        self.time = time;
        Ok(())
    }

    /// Replaces the time range, after checking it today.
    pub fn set_time(&mut self, time: DateRange) -> (r: Result<(), Error>)
        ensures
            exists|today: i32| r == time_check(time, today),
            r is Ok ==> final(self)@ == (PostView { time, ..old(self)@ }),
            r is Err ==> final(self)@ == old(self)@,
    {
        self.set_time_at(time, today_julian())
    }

    /// Resources shown by this post.
    pub fn resources(&self) -> (r: &[Id])
        ensures
            r@ == self@.resources,
    {
        self.resources.as_slice()
    }

    /// Replaces the resources shown by this post.
    pub fn set_resources(&mut self, resources: Vec<Id>)
        ensures
            final(self)@ == (PostView { resources: resources@, ..old(self)@ }),
    {
        self.resources = resources;
    }

    /// Whether this post is played as a full sequence.
    pub fn is_grouped(&self) -> (r: bool)
        ensures
            r == self@.grouped,
    {
        self.grouped
    }

    /// Sets whether this post is played as a full sequence.
    pub fn set_is_grouped(&mut self, grouped: bool)
        ensures
            final(self)@ == (PostView { grouped, ..old(self)@ }),
    {
        self.grouped = grouped;
    }

    /// Records the judgement of `operator` at `now`. Only Approved and
    /// Rejected are outcomes of judging, and one equal to the status the
    /// post already has is refused.
    pub fn review_at(&mut self, status: Status, operator: u64, message: String, now: i64) -> (r:
        Result<(), Error>)
        requires
            old(self)@.states.len() > 0,
        ensures
            final(self)@.states.len() > 0,
            status == Status::Pending ==> r == Err::<(), Error>(Error::InvalidPostStatus)
                && final(self)@ == old(self)@,
            status != Status::Pending ==> (final(self)@.states, r) == push_outcome(
                old(self)@.states,
                StateView { status, time: now, operator: operator, message: message@ },
            ) && final(self)@ == (PostView { states: final(self)@.states, ..old(self)@ }),
    {
        if status == Status::Pending {
            return Err(Error::InvalidPostStatus);
        }
        self.pust_state(State::new_at(status, operator, message, now))
    }
}

/// Reviewing twice in a row with the same outcome fails the second time,
/// whatever the history.
pub proof fn lemma_review_twice(states: Seq<StateView>, first: StateView, second: StateView)
    requires
        states.len() > 0,
        first.status == second.status,
        first.status == Status::Approved || first.status == Status::Rejected,
    ensures
        push_outcome(states, first).1 is Ok ==> push_outcome(push_outcome(states, first).0, second)
            == (push_outcome(states, first).0, Err::<(), Error>(Error::InvalidPostStatus)),
{
}

/// Approved, then Rejected, then Approved again always succeeds, from a
/// history that is not currently Approved.
pub proof fn lemma_review_alternation(
    states: Seq<StateView>,
    a: StateView,
    b: StateView,
    c: StateView,
)
    requires
        states.len() > 0,
        states.last().status != Status::Approved,
        a.status == Status::Approved,
        b.status == Status::Rejected,
        c.status == Status::Approved,
    ensures
        ({
            let (s1, r1) = push_outcome(states, a);
            let (s2, r2) = push_outcome(s1, b);
            let (s3, r3) = push_outcome(s2, c);
            r1 is Ok && r2 is Ok && r3 is Ok && s3 == states.push(a).push(b).push(c)
        }),
{
}

} // verus!
