use sms4_backend::account::{
    email_hash, info_level, register, InfoLevel, ModifyPasswordPart, RegisterDesc, Unverified,
};
use sms4_backend::auth::{parse_u64, Auth};
use sms4_backend::config::SmtpEncryption;
use sms4_backend::tags::{set_permissions, Permission, Tag, TagEntry, Tags};
use sms4_backend::verify::{Captcha, DescArgs, VerifyCx};
use sms4_backend::{Error, Id, VerifyVariant};

fn perms(ps: &[Permission]) -> Tags {
    let mut t = Tags::new();
    t.initialize_permissions();
    for p in ps {
        t.insert(Tag::Permission(*p));
    }
    t
}

fn sorted(mut v: Vec<Permission>) -> Vec<String> {
    let mut s: Vec<String> = v.drain(..).map(|p| format!("{:?}", p)).collect();
    s.sort();
    s
}

#[test]
fn delegation_beyond_the_delegators_grant_is_refused() {
    let delegator = perms(&[Permission::SetPermissions, Permission::Post, Permission::ReviewPost]);
    let mut target = perms(&[Permission::GetPubPost]);
    let requested = vec![Permission::Post, Permission::Maintain];
    assert_eq!(set_permissions(&delegator, &mut target, &requested), Err(Error::PermissionDenied));
    assert_eq!(sorted(target.permissions().unwrap()), sorted(vec![Permission::GetPubPost]));
    let mut fresh = Tags::new();
    assert_eq!(set_permissions(&delegator, &mut fresh, &vec![Permission::Post]), Ok(()));
    assert_eq!(sorted(fresh.permissions().unwrap()), sorted(vec![Permission::Post]));
}

#[test]
fn delegation_within_grant_is_exact() {
    let delegator = perms(&[Permission::SetPermissions, Permission::Post, Permission::ReviewPost]);
    let mut target = perms(&[Permission::Post]);
    let requested = vec![Permission::ReviewPost, Permission::Post];
    assert_eq!(set_permissions(&delegator, &mut target, &requested), Ok(()));
    assert_eq!(
        sorted(target.permissions().unwrap()),
        sorted(vec![Permission::Post, Permission::ReviewPost])
    );
}

#[test]
fn delegation_needs_the_set_permissions_permission() {
    let delegator = perms(&[Permission::Post]);
    let mut target = Tags::new();
    assert_eq!(
        set_permissions(&delegator, &mut target, &vec![Permission::Post]),
        Err(Error::PermissionDenied)
    );
    assert!(target.permissions().is_none());
}

#[test]
fn delegation_leaves_a_higher_target_alone() {
    let delegator = perms(&[Permission::SetPermissions, Permission::Post]);
    let mut target = perms(&[Permission::Maintain]);
    assert_eq!(set_permissions(&delegator, &mut target, &vec![Permission::Post]), Ok(()));
    assert_eq!(sorted(target.permissions().unwrap()), sorted(vec![Permission::Maintain]));
}

#[test]
fn tags_keep_sets_per_entry() {
    let mut t = Tags::new();
    assert!(t.from_entry(TagEntry::Department).is_none());
    t.insert(Tag::Department("SubIT".to_string()));
    t.insert(Tag::Department("SubIT".to_string()));
    t.insert(Tag::House("Genshin".to_string()));
    t.insert(Tag::Permission(Permission::Post));
    assert_eq!(t.from_entry(TagEntry::Department).unwrap().len(), 1);
    assert_eq!(t.from_entry(TagEntry::House).unwrap().len(), 1);
    assert!(t.contains_permission(Permission::Post));
    assert!(!t.contains_permission(Permission::Maintain));
    t.retain_user_definable();
    assert!(!t.contains_permission(Permission::Post));
    assert!(t.from_entry(TagEntry::Permission).is_none());
    t.initialize_permissions();
    assert_eq!(t.from_entry(TagEntry::Permission).unwrap().len(), 0);
    t.set_departments(vec!["A".to_string(), "B".to_string(), "A".to_string()]);
    assert_eq!(t.departments().unwrap().len(), 2);
    t.set_departments(vec![]);
    assert_eq!(t.departments().unwrap().len(), 0);
}

#[test]
fn captcha_cooldown_reports_the_time_left() {
    let mut cx = VerifyCx::from_parts(Captcha(1), 0);
    assert_eq!(cx.update_at(1_000, Captcha(42)), Ok(Captcha(42)));
    assert_eq!(cx.update_at(1_100, Captcha(43)), Err(Error::ReqTooFrequent(500)));
    assert_eq!(cx.update_at(1_599, Captcha(43)), Err(Error::ReqTooFrequent(1)));
    assert_eq!(cx.captcha(), Captcha(42));
    assert_eq!(cx.update_at(1_600, Captcha(44)), Ok(Captcha(44)));
    assert_eq!(cx.last_req(), 1_600);
}

#[test]
fn captcha_text_is_zero_padded() {
    assert_eq!(Captcha(42).to_padded_string(), "000042");
    assert_eq!(Captcha(123456).to_padded_string(), "123456");
    assert_eq!(Captcha(0).to_padded_string(), "000000");
    assert_eq!(Captcha(7).into_inner(), 7);
    assert!(Captcha::random().into_inner() < 1_000_000);
}

fn desc(email: &str, captcha: u32) -> RegisterDesc {
    let mut tags = Tags::new();
    tags.insert(Tag::Department("SubIT".to_string()));
    tags.insert(Tag::Permission(Permission::Maintain));
    RegisterDesc {
        email: email.to_string(),
        name: "Genshine Player".to_string(),
        school_id: "2525505".to_string(),
        phone: Some(12345678901),
        password: "shanlilinghuo".to_string(),
        tags,
        args: DescArgs { captcha: Captcha(captcha) },
    }
}

#[test]
fn registration_consumes_the_captcha() {
    let email = "kongdechen2025@i.pkuschool.edu.cn";
    let mut u = Unverified::new(email.to_string());
    let c = u.request_captcha_at(1_000, Captcha(123)).unwrap();
    let mut pending = Some(u);
    assert_eq!(register(&mut pending, desc(email, 999)).unwrap_err(), Error::CaptchaIncorrect);
    assert!(pending.is_some());
    let account = register(&mut pending, desc(email, c.into_inner())).unwrap();
    assert_eq!(account.id(), email_hash(email));
    assert_eq!(account.email(), email);
    assert!(account.tags().contains_permission(Permission::Maintain) == false);
    assert_eq!(
        sorted(account.tags().permissions().unwrap()),
        sorted(vec![
            Permission::GetPubPost,
            Permission::Post,
            Permission::UploadResource,
            Permission::ViewSimpleAccount,
            Permission::GetPubNotifications,
        ])
    );
    assert_eq!(account.tags().departments().unwrap(), vec!["SubIT".to_string()]);
    assert_eq!(account.name(), "Genshine Player");
    assert_eq!(account.phone(), Some(12345678901));
    assert!(account.password_matches("shanlilinghuo"));
    assert_eq!(
        register(&mut pending, desc(email, c.into_inner())).unwrap_err(),
        Error::UnverifiedAccountNotFound
    );
}

#[test]
fn email_ids_are_stable_and_distinct() {
    assert_eq!(email_hash("a@b.c"), email_hash("a@b.c"));
    assert_ne!(email_hash("a@b.c"), email_hash("a@b.d"));
    let u = Unverified::new("a@b.c".to_string());
    assert_eq!(u.email_hash(), email_hash("a@b.c"));
}

#[test]
fn login_logout_and_token_validity() {
    let email = "someone@beijing101.com";
    let mut u = Unverified::new(email.to_string());
    let c = u.request_captcha_at(1_000, Captcha(5)).unwrap();
    let mut pending = Some(u);
    let mut a = register(&mut pending, desc(email, c.into_inner())).unwrap();
    assert_eq!(a.login_at("wrong", 10, 1, 2).unwrap_err(), Error::UsernameOrPasswordIncorrect);
    let (token, exp) = a.login_at("shanlilinghuo", 10, 1, 2).unwrap();
    assert_eq!(exp, None);
    assert!(a.is_token_valid_at(&token, 1_000_000));
    assert!(!a.is_token_valid_at("wrong_token", 10));
    assert_eq!(a.logout_at("wrong_token", 10), Err(Error::InvalidToken));
    assert_eq!(a.logout_at(&token, 11), Ok(()));
    assert!(!a.is_token_valid_at(&token, 11));
    a.set_token_expire_time(3600);
    let (t2, exp2) = a.login_at("shanlilinghuo", 100, 3, 4).unwrap();
    assert_eq!(exp2, Some(3700));
    assert!(a.is_token_valid_at(&t2, 3699));
    assert!(!a.is_token_valid_at(&t2, 3700));
    assert_eq!(a.authorize_at(&t2, &vec![], 200), Ok(()));
    assert_eq!(a.authorize_at(&t2, &vec![Permission::Post], 200), Ok(()));
    assert_eq!(a.authorize_at(&t2, &vec![Permission::Maintain], 200), Err(Error::PermissionDenied));
    assert_eq!(a.authorize_at(&t2, &vec![], 5_000), Err(Error::InvalidToken));
    a.clear_tokens();
    assert!(!a.is_token_valid_at(&t2, 200));
}

#[test]
fn password_reset_and_change() {
    let email = "reset@x.y";
    let mut u = Unverified::new(email.to_string());
    let c = u.request_captcha_at(1_000, Captcha(5)).unwrap();
    let mut pending = Some(u);
    let mut a = register(&mut pending, desc(email, c.into_inner())).unwrap();
    assert_eq!(
        a.reset_password(Captcha(1), "nerd"),
        Err(Error::VerifySessionNotFound(VerifyVariant::ResetPassword))
    );
    let rc = a.req_reset_password_at(2_000, Captcha(77)).unwrap();
    assert_eq!(a.req_reset_password_at(2_010, Captcha(78)), Err(Error::ReqTooFrequent(590)));
    assert_eq!(a.reset_password(Captcha(76), "nerd"), Err(Error::CaptchaIncorrect));
    assert_eq!(a.reset_password(rc, "NERD"), Ok(()));
    assert!(a.password_matches("NERD"));
    assert!(!a.password_matches("shanlilinghuo"));
    let part = ModifyPasswordPart { old: "bad".to_string(), new: "666666".to_string() };
    assert_eq!(a.change_password(&part), Err(Error::UsernameOrPasswordIncorrect));
    let part = ModifyPasswordPart { old: "NERD".to_string(), new: "666666".to_string() };
    assert_eq!(a.change_password(&part), Ok(()));
    assert!(a.password_matches("666666"));
}

#[test]
fn account_info_levels() {
    let none = Tags::new();
    let mut full = Tags::new();
    full.insert(Tag::Permission(Permission::ViewFullAccount));
    assert_eq!(info_level(Id(1), Id(1), &none), InfoLevel::Owned);
    assert_eq!(info_level(Id(1), Id(2), &full), InfoLevel::Full);
    assert_eq!(info_level(Id(1), Id(2), &none), InfoLevel::Simple);
}

#[test]
fn auth_header_parsing() {
    let a = Auth::parse("123:abc:def").unwrap();
    assert_eq!(a.account, 123);
    assert_eq!(a.token, "abc:def");
    assert_eq!(Auth::parse("abc").unwrap_err(), Error::InvalidAuthHeader);
    assert_eq!(Auth::parse("12x:tok").unwrap_err(), Error::InvalidAuthHeader);
    assert_eq!(Auth::parse(":tok").unwrap_err(), Error::InvalidAuthHeader);
    assert_eq!(parse_u64("18446744073709551615"), Some(u64::MAX));
    assert_eq!(parse_u64("18446744073709551616"), None);
    let b = Auth::new(5, "t".to_string());
    assert_eq!(b.account, 5);
}

#[test]
fn error_status_codes() {
    assert_eq!(Error::ReqTooFrequent(3).to_status_code(), 429);
    assert_eq!(Error::ResourceUsed(1).to_status_code(), 409);
    assert_eq!(Error::PostNotFound(1).to_status_code(), 404);
    assert_eq!(Error::PermissionDenied.to_status_code(), 403);
    assert_eq!(Error::PostTimeEnded.to_status_code(), 400);
    assert_eq!(Error::InvalidToken.to_status_code(), 401);
    assert_eq!(Error::Database.to_status_code(), 500);
    assert_eq!(Error::PayloadTooLarge { max: 1 }.to_status_code(), 413);
    assert_eq!(SmtpEncryption::default(), SmtpEncryption::Tls);
}

#[test]
fn account_records_round_trip() {
    let email = "round@trip.io";
    let mut u = Unverified::new(email.to_string());
    let c = u.request_captcha_at(1_000, Captcha(5)).unwrap();
    let mut pending = Some(u);
    let mut a = register(&mut pending, desc(email, c.into_inner())).unwrap();
    let (token, _) = a.login_at("shanlilinghuo", 10, 1, 2).unwrap();
    a.req_reset_password_at(2_000, Captcha(9)).unwrap();
    let rec = a.to_record();
    assert_eq!(rec.tokens.len(), 1);
    assert_eq!(rec.reset, Some((9, 2_000)));
    let b = sms4_backend::account::Account::from_record(rec);
    assert!(b.is_token_valid_at(&token, 30));
    assert_eq!(b.id(), a.id());
    assert!(b.password_matches("shanlilinghuo"));
    let mut c2 = b;
    let mut t = Tags::new();
    t.insert(Tag::Permission(Permission::Post));
    c2.set_tags(t);
    assert!(c2.tags().contains_permission(Permission::Post));
}

#[test]
fn unverified_records_keep_their_captcha() {
    let u = Unverified::from_record("x@y.z".to_string(), Captcha(31), 77);
    assert_eq!(u.cx().captcha(), Captcha(31));
    assert_eq!(u.cx().last_req(), 77);
    assert_eq!(u.email(), "x@y.z");
}
