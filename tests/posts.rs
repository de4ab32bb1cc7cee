use sms4_backend::date::Date;
use sms4_backend::post::{validate_time_at, DateRange, Post, Priority, State, Status};
use sms4_backend::query::{ordinal_window, window_around, window_between, OrdinalRange};
use sms4_backend::resource::{Resource, Variant};
use sms4_backend::tags::{Permission, Tag, Tags};
use sms4_backend::workflow::{
    create_post_at, filter_posts, modify_post_at, plan_bulk_removal, plan_removal, visibility,
    BulkRemoveReq, ModifyReq, PostFilter, Visibility,
};
use sms4_backend::{Error, Id};

fn day(y: i32, m: u8, d: u8) -> Date {
    Date::from_calendar(y, m, d).unwrap()
}

fn range(a: Date, b: Date) -> DateRange {
    DateRange { start: a, end: b }
}

fn image(id: u64, owner: u64) -> Resource {
    Resource::from_record(id, Variant::Image { duration: 10 }, Id(owner), false)
}

fn sample_post(creator: u64, time: DateRange, today: i32) -> Post {
    Post::new_at(
        "Title".to_string(),
        "notes".to_string(),
        time,
        vec![Id(1)],
        creator,
        false,
        Priority::Normal,
        today,
        100,
        1,
    )
    .unwrap()
}

#[test]
fn calendar_dates_have_their_julian_day_and_ordinal() {
    let d = day(2000, 1, 1);
    assert_eq!(d.julian_day(), 2_451_545);
    assert_eq!(d.ordinal(), 1);
    let e = day(2019, 12, 31);
    assert_eq!(e.ordinal(), 365);
    assert!(Date::from_calendar(2019, 2, 29).is_none());
    assert!(Date::from_calendar(2019, 13, 1).is_none());
    assert_eq!(Date::from_julian_day(2_458_849).unwrap().ordinal(), 365);
    assert_eq!(d.checked_add_days(-1).unwrap().ordinal(), 365);
}

#[test]
fn span_of_eight_days_is_refused() {
    let start = day(2030, 3, 1);
    let end = day(2030, 3, 9);
    let today = day(2030, 2, 1).julian_day();
    assert_eq!(
        validate_time_at(&range(start, end), today),
        Err(Error::PostTimeRangeOutOfBound(8 * 86400))
    );
}

#[test]
fn span_of_exactly_seven_days_is_accepted() {
    let start = day(2030, 3, 1);
    let end = day(2030, 3, 8);
    let today = day(2030, 3, 8).julian_day();
    assert_eq!(validate_time_at(&range(start, end), today), Ok(()));
}

#[test]
fn reversed_range_is_out_of_bound() {
    let start = day(2030, 3, 5);
    let end = day(2030, 3, 1);
    assert_eq!(
        validate_time_at(&range(start, end), 0),
        Err(Error::PostTimeRangeOutOfBound(i64::MAX))
    );
}

#[test]
fn ended_range_is_refused() {
    let start = day(2030, 3, 1);
    let end = day(2030, 3, 3);
    let today = day(2030, 3, 4).julian_day();
    assert_eq!(validate_time_at(&range(start, end), today), Err(Error::PostTimeEnded));
}

#[test]
fn new_post_starts_pending_with_its_creator() {
    let time = range(day(2030, 3, 1), day(2030, 3, 2));
    let p = sample_post(7, time, day(2030, 1, 1).julian_day());
    assert_eq!(p.creator(), Id(7));
    assert_eq!(p.state().status(), Status::Pending);
    assert_eq!(p.state().message(), "notes");
    assert_eq!(p.states().len(), 1);
    assert_eq!(p.title(), "Title");
}

#[test]
fn same_review_twice_fails_the_second_time() {
    let time = range(day(2030, 3, 1), day(2030, 3, 2));
    let mut p = sample_post(7, time, day(2030, 1, 1).julian_day());
    assert_eq!(p.review_at(Status::Approved, 9, "ok".to_string(), 200), Ok(()));
    assert_eq!(
        p.review_at(Status::Approved, 9, "again".to_string(), 201),
        Err(Error::InvalidPostStatus)
    );
    assert_eq!(p.states().len(), 2);
}

#[test]
fn alternating_reviews_succeed() {
    let time = range(day(2030, 3, 1), day(2030, 3, 2));
    let mut p = sample_post(7, time, day(2030, 1, 1).julian_day());
    assert_eq!(p.review_at(Status::Approved, 9, String::new(), 200), Ok(()));
    assert_eq!(p.review_at(Status::Rejected, 9, String::new(), 201), Ok(()));
    assert_eq!(p.review_at(Status::Approved, 9, String::new(), 202), Ok(()));
    assert_eq!(p.states().len(), 4);
    assert_eq!(p.state().operator(), 9);
}

#[test]
fn pending_is_no_review_outcome() {
    let time = range(day(2030, 3, 1), day(2030, 3, 2));
    let mut p = sample_post(7, time, day(2030, 1, 1).julian_day());
    assert_eq!(
        p.review_at(Status::Pending, 9, String::new(), 200),
        Err(Error::InvalidPostStatus)
    );
    assert_eq!(p.pust_state(State::new_at(Status::Pending, 7, String::new(), 5)), Ok(()));
}

#[test]
fn window_across_new_year_is_split() {
    let after = day(2024, 12, 29);
    let before = day(2025, 1, 3);
    let w = window_between(&after, &before);
    assert_eq!(w.first, OrdinalRange { start: 364, end: 366 });
    assert_eq!(w.second, Some(OrdinalRange { start: 1, end: 3 }));
    assert!(w.contains(365));
    assert!(w.contains(2));
    assert!(!w.contains(200));
}

#[test]
fn window_within_a_year_is_single() {
    let w = ordinal_window(10, 24);
    assert_eq!(w.first, OrdinalRange { start: 10, end: 24 });
    assert_eq!(w.second, None);
    assert!(w.contains(24));
    assert!(!w.contains(25));
}

#[test]
fn window_around_new_year_day() {
    let w = window_around(&day(2025, 1, 1)).unwrap();
    assert_eq!(w.first, OrdinalRange { start: 360, end: 366 });
    assert_eq!(w.second, Some(OrdinalRange { start: 1, end: 8 }));
    assert!(w.contains(365));
    assert!(w.contains(2));
}

#[test]
fn creating_claims_the_resources() {
    let mut records = vec![image(1, 7), image(2, 7)];
    let time = range(day(2030, 3, 1), day(2030, 3, 2));
    let p = create_post_at(
        "t".to_string(),
        String::new(),
        time,
        vec![Id(1), Id(2)],
        Id(7),
        true,
        Priority::High,
        &mut records,
        day(2030, 1, 1).julian_day(),
        5,
        7,
    )
    .unwrap();
    assert!(records[0].is_blocked() && records[1].is_blocked());
    assert_eq!(p.resources(), &[Id(1), Id(2)]);
    assert!(p.is_grouped());
    assert_eq!(p.priority(), Priority::High);
}

#[test]
fn two_posts_for_one_resource_only_one_succeeds() {
    let mut records = vec![image(1, 7)];
    let time = range(day(2030, 3, 1), day(2030, 3, 2));
    let today = day(2030, 1, 1).julian_day();
    let first = create_post_at(
        "a".to_string(),
        String::new(),
        time,
        vec![Id(1)],
        Id(7),
        false,
        Priority::Normal,
        &mut records,
        today,
        5,
        7,
    );
    let second = create_post_at(
        "b".to_string(),
        String::new(),
        time,
        vec![Id(1)],
        Id(7),
        false,
        Priority::Normal,
        &mut records,
        today,
        6,
        7,
    );
    assert!(first.is_ok());
    assert_eq!(second.unwrap_err(), Error::ResourceUsed(1));
    assert!(records[0].is_blocked());
}

#[test]
fn resources_of_another_account_are_denied() {
    let mut records = vec![image(1, 8)];
    let time = range(day(2030, 3, 1), day(2030, 3, 2));
    let r = create_post_at(
        "a".to_string(),
        String::new(),
        time,
        vec![Id(1)],
        Id(7),
        false,
        Priority::Normal,
        &mut records,
        day(2030, 1, 1).julian_day(),
        5,
        7,
    );
    assert_eq!(r.unwrap_err(), Error::PermissionDenied);
    assert!(!records[0].is_blocked());
}

#[test]
fn empty_resource_list_is_refused_and_time_first() {
    let mut records = vec![];
    let time = range(day(2030, 3, 1), day(2030, 3, 2));
    let today = day(2030, 1, 1).julian_day();
    let r = create_post_at(
        "a".to_string(),
        String::new(),
        time,
        vec![],
        Id(7),
        false,
        Priority::Normal,
        &mut records,
        today,
        5,
        7,
    );
    assert_eq!(r.unwrap_err(), Error::PostResourceEmpty);
    let r = create_post_at(
        "a".to_string(),
        String::new(),
        range(day(2030, 3, 1), day(2030, 3, 20)),
        vec![],
        Id(7),
        false,
        Priority::Normal,
        &mut records,
        today,
        5,
        7,
    );
    assert_eq!(r.unwrap_err(), Error::PostResourceEmpty);
    let long = range(day(2030, 3, 1), day(2030, 3, 20));
    let mut records = vec![image(1, 7)];
    let r = create_post_at(
        "a".to_string(),
        String::new(),
        long,
        vec![Id(1)],
        Id(7),
        false,
        Priority::Normal,
        &mut records,
        today,
        5,
        7,
    );
    assert_eq!(r.unwrap_err(), Error::PostTimeRangeOutOfBound(19 * 86400));
    assert!(!records[0].is_blocked());
}

#[test]
fn modify_swaps_resources_and_revokes_review() {
    let time = range(day(2030, 3, 1), day(2030, 3, 2));
    let today = day(2030, 1, 1).julian_day();
    let mut p = sample_post(7, time, today);
    p.review_at(Status::Approved, 9, String::new(), 150).unwrap();
    let mut records = vec![image(2, 7)];
    let req = ModifyReq {
        title: Some("New".to_string()),
        notes: None,
        time: None,
        resources: Some(vec![Id(2)]),
        grouped: Some(true),
    };
    let leaving = modify_post_at(&mut p, Id(7), req, &mut records, today, 300).unwrap();
    assert_eq!(leaving, vec![Id(1)]);
    assert_eq!(p.resources(), &[Id(2)]);
    assert!(records[0].is_blocked());
    assert_eq!(p.title(), "New");
    assert!(p.is_grouped());
    assert_eq!(p.state().status(), Status::Pending);
    assert_eq!(p.states().len(), 3);
}

#[test]
fn modify_by_another_account_is_not_found() {
    let time = range(day(2030, 3, 1), day(2030, 3, 2));
    let today = day(2030, 1, 1).julian_day();
    let mut p = sample_post(7, time, today);
    let id = p.id();
    let req = ModifyReq { title: None, notes: None, time: None, resources: None, grouped: None };
    let r = modify_post_at(&mut p, Id(8), req, &mut vec![], today, 300);
    assert_eq!(r.unwrap_err(), Error::PostNotFound(id));
}

#[test]
fn modify_with_long_range_is_refused() {
    let time = range(day(2030, 3, 1), day(2030, 3, 2));
    let today = day(2030, 1, 1).julian_day();
    let mut p = sample_post(7, time, today);
    let req = ModifyReq {
        title: Some("x".to_string()),
        notes: None,
        time: Some(range(day(2030, 3, 1), day(2030, 3, 10))),
        resources: None,
        grouped: None,
    };
    let r = modify_post_at(&mut p, Id(7), req, &mut vec![], today, 300);
    assert_eq!(r.unwrap_err(), Error::PostTimeRangeOutOfBound(9 * 86400));
    assert_eq!(p.title(), "Title");
}

#[test]
fn modify_with_used_resource_fails() {
    let time = range(day(2030, 3, 1), day(2030, 3, 2));
    let today = day(2030, 1, 1).julian_day();
    let mut p = sample_post(7, time, today);
    let mut records = vec![Resource::from_record(3, Variant::Video { duration: 5 }, Id(7), true)];
    let req = ModifyReq {
        title: None,
        notes: None,
        time: None,
        resources: Some(vec![Id(1), Id(3)]),
        grouped: None,
    };
    let r = modify_post_at(&mut p, Id(7), req, &mut records, today, 300);
    assert_eq!(r.unwrap_err(), Error::ResourceUsed(3));
    assert_eq!(p.resources(), &[Id(1)]);
}

fn tags_with(perms: &[Permission]) -> Tags {
    let mut t = Tags::new();
    t.initialize_permissions();
    for p in perms {
        t.insert(Tag::Permission(*p));
    }
    t
}

#[test]
fn visibility_follows_permissions() {
    let time = range(day(2030, 3, 1), day(2030, 3, 5));
    let today = day(2030, 1, 1).julian_day();
    let mut p = sample_post(7, time, today);
    let inside = day(2030, 3, 3).julian_day();
    let none = tags_with(&[]);
    let publ = tags_with(&[Permission::GetPubPost]);
    let review = tags_with(&[Permission::ReviewPost]);
    assert_eq!(visibility(&p, Id(7), &none, inside), Visibility::Full);
    assert_eq!(visibility(&p, Id(8), &review, inside), Visibility::Full);
    assert_eq!(visibility(&p, Id(8), &publ, inside), Visibility::Hidden);
    p.review_at(Status::Approved, 9, String::new(), 150).unwrap();
    assert_eq!(visibility(&p, Id(8), &publ, inside), Visibility::Simple);
    assert_eq!(visibility(&p, Id(8), &publ, today), Visibility::Hidden);
    assert_eq!(visibility(&p, Id(8), &none, inside), Visibility::Hidden);
}

#[test]
fn filter_keeps_visible_posts_up_to_the_limit() {
    let today = day(2030, 1, 1).julian_day();
    let t1 = range(day(2030, 3, 1), day(2030, 3, 2));
    let posts = vec![sample_post(7, t1, today), sample_post(8, t1, today), sample_post(7, t1, today)];
    let f = PostFilter { from: None, creator: None, status: None, on: None, screen: None };
    let mine = filter_posts(&posts, &f, Id(7), &tags_with(&[]), today, 0);
    assert_eq!(mine, vec![posts[0].id(), posts[2].id()]);
    let limited = filter_posts(&posts, &f, Id(7), &tags_with(&[]), today, 1);
    assert_eq!(limited, vec![posts[0].id()]);
    let all = filter_posts(&posts, &f, Id(9), &tags_with(&[Permission::ReviewPost]), today, 0);
    assert_eq!(all.len(), 3);
    let by8 = PostFilter { creator: Some(Id(8)), ..f };
    let only = filter_posts(&posts, &by8, Id(9), &tags_with(&[Permission::ReviewPost]), today, 0);
    assert_eq!(only, vec![posts[1].id()]);
}

#[test]
fn removal_is_for_creator_or_remover() {
    let today = day(2030, 1, 1).julian_day();
    let t1 = range(day(2030, 3, 1), day(2030, 3, 2));
    let p = sample_post(7, t1, today);
    let m = plan_removal(&p, Id(7), &tags_with(&[])).unwrap();
    assert_eq!(m.resources, vec![Id(1)]);
    assert_eq!(m.posts, vec![p.id()]);
    assert_eq!(plan_removal(&p, Id(8), &tags_with(&[])).unwrap_err(), Error::PostNotFound(p.id()));
    assert!(plan_removal(&p, Id(8), &tags_with(&[Permission::RemovePost])).is_ok());
}

#[test]
fn bulk_removal_of_elapsed_posts_needs_maintenance() {
    let today = day(2030, 1, 1).julian_day();
    let old = sample_post(7, range(day(2030, 1, 1), day(2030, 1, 2)), today);
    let new = sample_post(7, range(day(2030, 3, 1), day(2030, 3, 2)), today);
    let posts = vec![old, new];
    let later = day(2030, 2, 1).julian_day();
    let r = plan_bulk_removal(&posts, &BulkRemoveReq::Unused, Id(1), &tags_with(&[]), later);
    assert_eq!(r.unwrap_err(), Error::PermissionDenied);
    let r = plan_bulk_removal(
        &posts,
        &BulkRemoveReq::Unused,
        Id(1),
        &tags_with(&[Permission::Maintain]),
        later,
    );
    assert_eq!(r.unwrap_err(), Error::PermissionDenied);
    let m = plan_bulk_removal(
        &posts,
        &BulkRemoveReq::Unused,
        Id(1),
        &tags_with(&[Permission::Maintain, Permission::RemovePost]),
        later,
    )
    .unwrap();
    assert_eq!(m.posts, vec![posts[0].id()]);
    assert_eq!(m.resources, vec![Id(1)]);
    let req = BulkRemoveReq::Posts { posts: vec![Id(posts[1].id())] };
    let m = plan_bulk_removal(&posts, &req, Id(7), &tags_with(&[]), later).unwrap();
    assert_eq!(m.posts, vec![posts[1].id()]);
    let m = plan_bulk_removal(&posts, &req, Id(8), &tags_with(&[]), later).unwrap();
    assert!(m.posts.is_empty());
}

#[test]
fn priority_levels_and_order() {
    assert_eq!(Priority::Block.level(), 255);
    assert_eq!(Priority::Low.level(), 1);
    assert_eq!(Priority::default(), Priority::Normal);
    assert!(Priority::Block > Priority::High && Priority::High > Priority::Normal);
}

#[test]
fn post_index_dimensions() {
    let time = range(day(2030, 3, 1), day(2030, 3, 2));
    let mut p = sample_post(7, time, day(2030, 1, 1).julian_day());
    let ord = day(2030, 3, 1).ordinal() as u64;
    assert_eq!(p.dims(), vec![p.id(), ord, 7, 0]);
    p.review_at(Status::Approved, 9, String::new(), 150).unwrap();
    assert_eq!(p.dims()[3], 1);
    let copy = Post::from_record(
        p.id(),
        p.title().to_string(),
        p.time(),
        p.resources().to_vec(),
        p.states().to_vec(),
        p.is_grouped(),
        p.priority(),
    );
    assert_eq!(copy.dims(), p.dims());
}

#[test]
fn post_ids_differ_by_nonce() {
    let time = range(day(2030, 3, 1), day(2030, 3, 2));
    let today = day(2030, 1, 1).julian_day();
    let mk = |nonce| {
        Post::new_at(
            "T".to_string(),
            String::new(),
            time,
            vec![Id(1)],
            7,
            false,
            Priority::Normal,
            today,
            100,
            nonce,
        )
        .unwrap()
    };
    assert_ne!(mk(1).id(), mk(2).id());
    assert_eq!(mk(3).id(), mk(3).id());
}
