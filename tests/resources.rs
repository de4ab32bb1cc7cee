use sms4_backend::date::Date;
use sms4_backend::notification::{filter_notifications, Notification, NotificationFilter};
use sms4_backend::resource::{Resource, UploadBuffer, UploadSessions, Variant, MAX_PAYLOAD_LEN};
use sms4_backend::{Error, Id};

#[test]
fn claiming_twice_fails_whoever_asks() {
    let mut r = Resource::from_record(5, Variant::Image { duration: 3 }, Id(1), false);
    assert_eq!(r.block(), Ok(()));
    assert!(r.is_blocked());
    assert_eq!(r.block(), Err(Error::ResourceUsed(5)));
    r.unblock();
    assert!(!r.is_blocked());
    assert_eq!(r.block(), Ok(()));
}

#[test]
fn resource_file_names() {
    let r = Resource::from_record(1234, Variant::Video { duration: 60 }, Id(1), false);
    assert_eq!(r.file_name(), "r_1234");
    assert_eq!(r.buf_name(), "buf_1234");
    assert_eq!(r.id(), 1234);
    assert_eq!(r.owner(), Id(1));
    assert_eq!(r.variant(), &Variant::Video { duration: 60 });
}

#[test]
fn new_resources_are_unclaimed_and_owned() {
    let v = Variant::Pdf { pages: 2, durations: vec![3, 4] };
    let r = Resource::new(v.clone(), Id(9));
    assert_eq!(r.owner(), Id(9));
    assert!(!r.is_blocked());
    assert_eq!(r.variant(), &v);
}

#[test]
fn sessions_accept_only_their_owner() {
    let mut s = UploadSessions::new();
    s.insert_at(Resource::from_record(7, Variant::Image { duration: 1 }, Id(1), false), 100);
    assert_eq!(s.buf_name(7), Some("buf_7".to_string()));
    assert_eq!(s.buf_name(8), None);
    assert_eq!(s.accept_at(Id(7), 99, Id(2), 101).unwrap_err(), Error::PermissionDenied);
    assert_eq!(s.accept_at(Id(8), 99, Id(1), 101).unwrap_err(), Error::ResourceUploadSessionNotFound(8));
    let r = s.accept_at(Id(7), 99, Id(1), 102).unwrap();
    assert_eq!(r.owner(), Id(1));
    assert_ne!(r.id(), 7);
    assert_eq!(s.buf_name(7), None);
    assert_eq!(s.accept_at(Id(7), 99, Id(1), 103).unwrap_err(), Error::ResourceUploadSessionNotFound(7));
}

#[test]
fn committed_ids_differ_by_time() {
    let mut s = UploadSessions::new();
    s.insert_at(Resource::from_record(1, Variant::Image { duration: 1 }, Id(1), false), 100);
    s.insert_at(Resource::from_record(2, Variant::Image { duration: 1 }, Id(1), false), 100);
    let a = s.accept_at(Id(1), 42, Id(1), 101).unwrap();
    let b = s.accept_at(Id(2), 42, Id(1), 102).unwrap();
    assert_ne!(a.id(), b.id());
}

#[test]
fn sessions_expire_after_fifteen_seconds() {
    let mut s = UploadSessions::new();
    s.insert_at(Resource::from_record(7, Variant::Image { duration: 1 }, Id(1), false), 100);
    s.cleanup(115);
    assert!(s.buf_name(7).is_some());
    s.cleanup(116);
    assert!(s.buf_name(7).is_none());
    s.insert_at(Resource::from_record(8, Variant::Image { duration: 1 }, Id(1), false), 100);
    assert_eq!(s.accept_at(Id(8), 1, Id(1), 200).unwrap_err(), Error::ResourceUploadSessionNotFound(8));
}

#[test]
fn upload_over_the_cap_is_refused() {
    let mut buf = UploadBuffer::new();
    let chunk = vec![7u8; 1024 * 1024];
    let mut failed = None;
    for _ in 0..51 {
        if let Err(e) = buf.push(&chunk) {
            failed = Some(e);
            break;
        }
    }
    assert_eq!(failed, Some(Error::PayloadTooLarge { max: MAX_PAYLOAD_LEN }));
    assert_eq!(buf.received(), 50 * 1024 * 1024);
}

#[test]
fn upload_digest_depends_on_content() {
    let mut a = UploadBuffer::new();
    a.push(b"hello").unwrap();
    let mut b = UploadBuffer::new();
    b.push(b"world").unwrap();
    let mut c = UploadBuffer::new();
    c.push(b"hello").unwrap();
    let (da, db, dc) = (a.finish(), b.finish(), c.finish());
    assert_ne!(da, db);
    assert_eq!(da, dc);
}

#[test]
fn notifications_keep_their_fields() {
    let mut n = Notification::new_at("t".to_string(), "b".to_string(), 1000, 3, 5);
    let m = Notification::new_at("t".to_string(), "b".to_string(), 1000, 3, 5);
    assert_eq!(n.id(), m.id());
    assert_eq!(n.sender(), 3);
    assert!(!n.visible_at(999, false));
    assert!(n.visible_at(999, true));
    n.set_time(10);
    assert_eq!(n.time(), 10);
    assert!(n.visible_at(999, false));
}

#[test]
fn index_dimensions_and_read_access() {
    let r = Resource::from_record(11, Variant::Image { duration: 1 }, Id(4), false);
    assert_eq!(r.dims(), vec![11, 0]);
    assert_eq!(r.check_readable(Id(4)), Ok(()));
    assert_eq!(r.check_readable(Id(5)), Err(Error::PermissionDenied));
    let used = Resource::from_record(12, Variant::Image { duration: 1 }, Id(4), true);
    assert_eq!(used.dims(), vec![12, 1]);
    assert_eq!(used.check_readable(Id(5)), Ok(()));
}

#[test]
fn notification_listing_hides_future_ones_from_viewers() {
    let ns = vec![
        Notification::from_record(1, "a".to_string(), "x".to_string(), 100, 7),
        Notification::from_record(2, "b".to_string(), "y".to_string(), 900, 7),
        Notification::from_record(3, "c".to_string(), "z".to_string(), 50, 8),
    ];
    let f = NotificationFilter { from: None, sender: None, after: None, before: None };
    assert_eq!(filter_notifications(&ns, &f, false, 500, 0), vec![1, 3]);
    assert_eq!(filter_notifications(&ns, &f, true, 500, 0), vec![1, 2, 3]);
    let from = NotificationFilter { from: Some(1), ..f };
    assert_eq!(filter_notifications(&ns, &from, true, 500, 0), vec![2, 3]);
    let by8 = NotificationFilter { sender: Some(8), ..f };
    assert_eq!(filter_notifications(&ns, &by8, true, 500, 0), vec![3]);
    assert_eq!(filter_notifications(&ns, &f, true, 500, 2), vec![1, 2]);
}

#[test]
fn notification_listing_keeps_the_date_bounds() {
    let day = 86_400;
    let ns = vec![
        Notification::from_record(1, "a".to_string(), "x".to_string(), 0, 7),
        Notification::from_record(2, "b".to_string(), "y".to_string(), day + 5, 7),
        Notification::from_record(3, "c".to_string(), "z".to_string(), 3 * day - 1, 7),
        Notification::from_record(4, "d".to_string(), "w".to_string(), 3 * day, 7),
    ];
    let after = Date::from_calendar(1970, 1, 2).unwrap();
    let before = Date::from_calendar(1970, 1, 3).unwrap();
    let f = NotificationFilter { from: None, sender: None, after: Some(after), before: Some(before) };
    assert_eq!(filter_notifications(&ns, &f, true, 0, 0), vec![2, 3]);
}
