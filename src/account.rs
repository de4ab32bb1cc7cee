//! Accounts: registration by captcha, passwords, session tokens and the
//! authorization guard of every request.

use vstd::prelude::*;
use vstd::string::*;
use vstd::utf8::encode_utf8;

use crate::date::now_unix;
use crate::digest::{digest, digest_of, random_below};
use crate::tags::{has_permission, Permission, Tags, TagsView};
use crate::text::{decimal, prefixed_decimal};
use crate::verify::{default_grant, update_spec, Captcha, DescArgs, VerifyCx, VerifyCxView};
use crate::{Error, Id, VerifyVariant};

verus! {

/// The id of the account registered with an email: a digest of the email.
pub open spec fn email_id(email: Seq<char>) -> u64 {
    digest_of(Seq::empty(), encode_utf8(email))
}

/// The stored digest of a password.
pub open spec fn password_digest(password: Seq<char>) -> u64 {
    digest_of(seq![0u64], encode_utf8(password))
}

/// The id of the account registered with `email`.
pub fn email_hash(email: &str) -> (r: u64)
    ensures
        r == email_id(email@),
{
    let words: Vec<u64> = Vec::new();
    assert(words@ == Seq::<u64>::empty());
    digest(&words, email)
}

fn digest_password(password: &str) -> (r: u64)
    ensures
        r == password_digest(password@),
{
    let words: Vec<u64> = vec![0u64];
    assert(words@ == seq![0u64]);
    digest(&words, password)
}

/// A session token and when it expires, if ever.
pub struct TokenView {
    pub value: Seq<char>,
    pub expire_at: Option<i64>,
}

/// Whether `t` is a token of the session list that has not expired at
/// `now`.
pub open spec fn token_valid(tokens: Seq<TokenView>, t: Seq<char>, now: i64) -> bool {
    exists|i: int|
        0 <= i < tokens.len() && #[trigger] tokens[i].value == t && (tokens[i].expire_at matches Some(
            e,
        ) ==> e > now)
}

/// The session list without the tokens equal to `t`.
pub open spec fn without_token(tokens: Seq<TokenView>, t: Seq<char>) -> Seq<TokenView>
    decreases tokens.len(),
{
    if tokens.len() == 0 {
        tokens
    } else if tokens.last().value == t {
        without_token(tokens.drop_last(), t)
    } else {
        without_token(tokens.drop_last(), t).push(tokens.last())
    }
}

/// When a token issued at `now` expires, for an account whose tokens last
/// `duration` seconds (never where absent), saturating at the latest
/// representable time.
pub open spec fn expiry_of(duration: Option<u64>, now: i64) -> Option<i64> {
    match duration {
        Some(d) => if now + d > i64::MAX {
            Some(i64::MAX)
        } else {
            Some((now + d) as i64)
        },
        None => None,
    }
}

/// The token issued at `now` from the random draws `a` and `b`.
pub open spec fn token_of(now: i64, a: u32, b: u32) -> Seq<char> {
    decimal(digest_of(seq![now as u64, a as u64, b as u64], Seq::empty()) as nat)
}

/// What an account holds.
pub struct AccountView {
    pub id: u64,
    pub email: Seq<char>,
    pub name: Seq<char>,
    pub school_id: Seq<char>,
    pub phone: Option<u64>,
    pub password: u64,
    pub tokens: Seq<TokenView>,
    pub tags: TagsView,
    pub token_expire: Option<u64>,
    pub reset: Option<VerifyCxView>,
}

#[derive(Debug)]
struct Token {
    value: String,
    expire_at: Option<i64>,
}

impl View for Token {
    type V = TokenView;

    closed spec fn view(&self) -> TokenView {
        TokenView { value: self.value@, expire_at: self.expire_at }
    }
}

/// A verified account.
#[derive(Debug)]
pub struct Account {
    id: u64,
    email: String,
    name: String,
    school_id: String,
    phone: Option<u64>,
    password: u64,
    tokens: Vec<Token>,
    tags: Tags,
    token_expire: Option<u64>,
    reset: Option<VerifyCx>,
}

impl View for Account {
    type V = AccountView;

    closed spec fn view(&self) -> AccountView {
        AccountView {
            id: self.id,
            email: self.email@,
            name: self.name@,
            school_id: self.school_id@,
            phone: self.phone,
            password: self.password,
            tokens: self.tokens@.map_values(|t: Token| t@),
            tags: self.tags@,
            token_expire: self.token_expire,
            reset: match self.reset {
                Some(cx) => Some(cx@),
                None => None,
            },
        }
    }
}

/// The outcome of a login attempt with `password` at `now`, with the
/// random draws `a` and `b`: a new token is added on success.
pub open spec fn login_outcome(
    acc: AccountView,
    password: Seq<char>,
    now: i64,
    a: u32,
    b: u32,
    after: AccountView,
    r: Result<(String, Option<i64>), Error>,
) -> bool {
    if password_digest(password) != acc.password {
        r == Err::<(String, Option<i64>), Error>(Error::UsernameOrPasswordIncorrect) && after == acc
    } else {
        let t = TokenView { value: token_of(now, a, b), expire_at: expiry_of(acc.token_expire, now) };
        &&& r matches Ok(res) && res.0@ == t.value && res.1 == t.expire_at
        &&& after == AccountView { tokens: acc.tokens.push(t), ..acc }
    }
}

/// Account details supplied at registration.
#[derive(Debug)]
pub struct RegisterDesc {
    pub email: String,
    pub name: String,
    pub school_id: String,
    pub phone: Option<u64>,
    pub password: String,
    pub tags: Tags,
    pub args: DescArgs,
}

/// An account as storage holds it, field by field.
#[derive(Debug)]
pub struct AccountRecord {
    pub id: u64,
    pub email: String,
    pub name: String,
    pub school_id: String,
    pub phone: Option<u64>,
    pub password: u64,
    pub tokens: Vec<(String, Option<i64>)>,
    pub tags: Tags,
    pub token_expire: Option<u64>,
    pub reset: Option<(u32, i64)>,
}

/// The sessions that stored token pairs stand for.
pub open spec fn tokens_of(v: Seq<(String, Option<i64>)>) -> Seq<TokenView> {
    v.map_values(|t: (String, Option<i64>)| TokenView { value: t.0@, expire_at: t.1 })
}

impl Account {
    /// The account that a stored record describes.
    pub fn from_record(rec: AccountRecord) -> (r: Account)
        ensures
            r@ == (AccountView {
                id: rec.id,
                email: rec.email@,
                name: rec.name@,
                school_id: rec.school_id@,
                phone: rec.phone,
                password: rec.password,
                tokens: tokens_of(rec.tokens@),
                tags: rec.tags@,
                token_expire: rec.token_expire,
                reset: match rec.reset {
                    Some(p) => Some(VerifyCxView { captcha: p.0, last_req: p.1 }),
                    None => None,
                },
            }),
    {
        let AccountRecord {
            id,
            email,
            name,
            school_id,
            phone,
            password,
            tokens: pairs,
            tags,
            token_expire,
            reset,
        } = rec;
        let mut tokens: Vec<Token> = Vec::new();
        let mut i: usize = 0;
        while i < pairs.len()
            invariant
                i <= pairs@.len(),
                tokens@.len() == i,
                forall|k: int|
                    0 <= k < i ==> (#[trigger] tokens@[k])@ == (TokenView {
                        value: pairs@[k].0@,
                        expire_at: pairs@[k].1,
                    }),
            decreases pairs@.len() - i,
        {
            let value = pairs[i].0.clone();
            tokens.push(Token { value, expire_at: pairs[i].1 });
            i = i + 1;
        }
        assert(tokens@.map_values(|t: Token| t@) =~= tokens_of(pairs@));
        let reset = match reset {
            Some(p) => Some(VerifyCx::from_parts(Captcha(p.0), p.1)),
            None => None,
        };
        Account { id, email, name, school_id, phone, password, tokens, tags, token_expire, reset }
    }

    /// The stored record of this account.
    pub fn to_record(&self) -> (r: AccountRecord)
        ensures
            r.id == self@.id && r.email@ == self@.email && r.name@ == self@.name
                && r.school_id@ == self@.school_id && r.phone == self@.phone && r.password
                == self@.password && tokens_of(r.tokens@) == self@.tokens && r.token_expire
                == self@.token_expire && r.reset == (match self@.reset {
                Some(c) => Some((c.captcha, c.last_req)),
                None => None,
            }),
    {
        let mut tokens: Vec<(String, Option<i64>)> = Vec::new();
        let mut i: usize = 0;
        while i < self.tokens.len()
            invariant
                i <= self.tokens@.len(),
                tokens@.len() == i,
                forall|k: int|
                    0 <= k < i ==> (#[trigger] tokens@[k]).0@ == self.tokens@[k]@.value
                        && tokens@[k].1 == self.tokens@[k]@.expire_at,
            decreases self.tokens@.len() - i,
        {
            let t = &self.tokens[i];
            let v = t.value.clone();
            tokens.push((v, t.expire_at));
            i = i + 1;
        }
        assert(tokens_of(tokens@) =~= self@.tokens);
        let reset = match &self.reset {
            Some(cx) => Some((cx.captcha().0, cx.last_req())),
            None => None,
        };
        AccountRecord {
            id: self.id,
            email: self.email.clone(),
            name: self.name.clone(),
            school_id: self.school_id.clone(),
            phone: self.phone,
            password: self.password,
            tokens,
            tags: self.tags.clone(),
            token_expire: self.token_expire,
            reset,
        }
    }

    /// Id of this account.
    pub fn id(&self) -> (r: u64)
        ensures
            r == self@.id,
    {
        self.id
    }

    /// Email of this account.
    pub fn email(&self) -> (r: &str)
        ensures
            r@ == self@.email,
    {
        self.email.as_str()
    }

    /// Name of this account.
    pub fn name(&self) -> (r: &str)
        ensures
            r@ == self@.name,
    {
        self.name.as_str()
    }

    /// School id of this account.
    pub fn school_id(&self) -> (r: &str)
        ensures
            r@ == self@.school_id,
    {
        self.school_id.as_str()
    }

    /// Phone number of this account.
    pub fn phone(&self) -> (r: Option<u64>)
        ensures
            r == self@.phone,
    {
        self.phone
    }

    /// Tags of this account.
    pub fn tags(&self) -> (r: &Tags)
        ensures
            r@ == self@.tags,
    {
        &self.tags
    }

    /// Replaces the tags of this account.
    pub fn set_tags(&mut self, tags: Tags)
        ensures
            final(self)@ == (AccountView { tags: tags@, ..old(self)@ }),
    {
        self.tags = tags;
    }

    /// Seconds a session token lasts; never expires where absent.
    pub fn token_expire_time(&self) -> (r: Option<u64>)
        ensures
            r == self@.token_expire,
    {
        self.token_expire
    }

    /// Sets the name.
    pub fn set_name(&mut self, name: String)
        ensures
            final(self)@ == (AccountView { name: name@, ..old(self)@ }),
    {
        self.name = name;
    }

    /// Sets the school id.
    pub fn set_school_id(&mut self, school_id: String)
        ensures
            final(self)@ == (AccountView { school_id: school_id@, ..old(self)@ }),
    {
        self.school_id = school_id;
    }

    /// Sets the phone number.
    pub fn set_phone(&mut self, phone: Option<u64>)
        ensures
            final(self)@ == (AccountView { phone, ..old(self)@ }),
    {
        self.phone = phone;
    }

    /// Sets how long session tokens last; zero means they never expire.
    pub fn set_token_expire_time(&mut self, seconds: u64)
        ensures
            final(self)@ == (AccountView {
                token_expire: if seconds == 0 {
                    None
                } else {
                    Some(seconds)
                },
                ..old(self)@
            }),
    {
        self.token_expire = if seconds == 0 {
            None
        } else {
            Some(seconds)
        };
    }

    /// Replaces the departments of this account.
    pub fn set_departments(&mut self, names: Vec<String>)
        ensures
            final(self)@ == (AccountView {
                tags: TagsView {
                    departments: if names@.len() > 0 {
                        Some(crate::tags::names_of(names@))
                    } else {
                        match old(self)@.tags.departments {
                            Some(_) => Some(Set::empty()),
                            None => None,
                        }
                    },
                    ..old(self)@.tags
                },
                ..old(self)@
            }),
    {
        self.tags.set_departments(names);
    }

    /// Whether `password` is the password of this account.
    pub fn password_matches(&self, password: &str) -> (r: bool)
        ensures
            r == (password_digest(password@) == self@.password),
    {
        digest_password(password) == self.password
    }

    /// Replaces the password.
    pub fn set_password(&mut self, password: &str)
        ensures
            final(self)@ == (AccountView { password: password_digest(password@), ..old(self)@ }),
    {
        self.password = digest_password(password);
    }

    /// Whether `token` is a session of this account that has not expired
    /// at `now`.
    pub fn is_token_valid_at(&self, token: &str, now: i64) -> (r: bool)
        ensures
            r == token_valid(self@.tokens, token@, now),
    {
        let tok = String::from_str(token);
        let mut i: usize = 0;
        while i < self.tokens.len()
            invariant
                tok@ == token@,
                i <= self.tokens@.len(),
                forall|k: int|
                    0 <= k < i ==> !(#[trigger] self@.tokens[k].value == token@ && (
                    self@.tokens[k].expire_at matches Some(e) ==> e > now)),
            decreases self.tokens@.len() - i,
        {
            let t = &self.tokens[i];
            assert(self@.tokens[i as int] == t@);
            let live = match t.expire_at {
                Some(e) => e > now,
                None => true,
            };
            if live && t.value == tok {
                assert(self@.tokens[i as int].value == token@);
                return true;
            }
            i = i + 1;
        }
        false
    }

    /// Whether `token` is a session of this account that has not expired.
    pub fn is_token_valid(&self, token: &str) -> (r: bool)
        ensures
            exists|now: i64| r == token_valid(self@.tokens, token@, now),
    {
        self.is_token_valid_at(token, now_unix())
    }

    /// Logs in with `password` at `now`, issuing a token made from the
    /// random draws `a` and `b`. Returns the token and when it expires.
    pub fn login_at(&mut self, password: &str, now: i64, a: u32, b: u32) -> (r: Result<
        (String, Option<i64>),
        Error,
    >)
        ensures
            login_outcome(old(self)@, password@, now, a, b, final(self)@, r),
    {
        if !self.password_matches(password) {
            return Err(Error::UsernameOrPasswordIncorrect);
        }
        let words = vec![#[verifier::truncate] (now as u64), a as u64, b as u64];
        proof {
            reveal_strlit("");
        }
        let n = digest(&words, "");
        let value = prefixed_decimal("", n);
        let expire_at = match self.token_expire {
            Some(d) => {
                if now as i128 + d as i128 > i64::MAX as i128 {
                    Some(i64::MAX)
                } else {
                    Some((now as i128 + d as i128) as i64)
                }
            },
            None => None,
        };
        let ghost before = self.tokens@;
        self.tokens.push(Token { value: value.clone(), expire_at });
        assert(self.tokens@.map_values(|t: Token| t@) =~= before.map_values(|t: Token| t@).push(
            TokenView { value: value@, expire_at },
        ));
        Ok((value, expire_at))
    }

    /// Logs in with `password` now.
    pub fn login(&mut self, password: &str) -> (r: Result<(String, Option<i64>), Error>)
        ensures
            exists|now: i64, a: u32, b: u32|
                login_outcome(old(self)@, password@, now, a, b, final(self)@, r),
    {
        let now = now_unix();
        let a = random_below(u32::MAX);
        let b = random_below(u32::MAX);
        self.login_at(password, now, a, b)
    }

    /// Ends the session of `token`, which must be valid at `now`.
    pub fn logout_at(&mut self, token: &str, now: i64) -> (r: Result<(), Error>)
        ensures
            !token_valid(old(self)@.tokens, token@, now) ==> r == Err::<(), Error>(
                Error::InvalidToken,
            ) && final(self)@ == old(self)@,
            token_valid(old(self)@.tokens, token@, now) ==> r is Ok && final(self)@ == (
            AccountView { tokens: without_token(old(self)@.tokens, token@), ..old(self)@ }),
    {
        if !self.is_token_valid_at(token, now) {
            return Err(Error::InvalidToken);
        }
        let mut old_tokens: Vec<Token> = Vec::new();
        std::mem::swap(&mut old_tokens, &mut self.tokens);
        let ghost orig = old_tokens@.map_values(|t: Token| t@);
        let n = old_tokens.len();
        let tok = String::from_str(token);
        let mut rest = old_tokens;
        let mut kept: Vec<Token> = Vec::new();
        let mut i: usize = 0;
        while i < n
            invariant
                n == orig.len(),
                tok@ == token@,
                i <= n,
                rest@.len() == n - i,
                forall|k: int| 0 <= k < n - i ==> (#[trigger] rest@[k])@ == orig[i + k],
                kept@.map_values(|t: Token| t@) == without_token(orig.subrange(0, i as int), token@),
            decreases n - i,
        {
            let ghost before = rest@;
            let t = rest.remove(0);
            assert(t@ == orig[i as int]);
            assert forall|k: int| 0 <= k < n - (i + 1) implies (#[trigger] rest@[k])@ == orig[(i + 1)
                + k] by {
                assert(rest@[k] == before[k + 1]);
            }
            assert(orig.subrange(0, i + 1 as int).drop_last() == orig.subrange(0, i as int));
            if t.value != tok {
                kept.push(t);
                assert(kept@.map_values(|t: Token| t@) =~= without_token(
                    orig.subrange(0, i as int),
                    token@,
                ).push(orig[i as int]));
            }
            i = i + 1;
        }
        assert(orig.subrange(0, n as int) == orig);
        self.tokens = kept;
        Ok(())
    }

    /// Ends the session of `token`, which must be valid now.
    pub fn logout(&mut self, token: &str) -> (r: Result<(), Error>)
        ensures
            exists|now: i64|
                (!token_valid(old(self)@.tokens, token@, now) ==> r == Err::<(), Error>(
                    Error::InvalidToken,
                ) && final(self)@ == old(self)@) && (token_valid(old(self)@.tokens, token@, now)
                    ==> r is Ok && final(self)@ == (AccountView {
                    tokens: without_token(old(self)@.tokens, token@),
                    ..old(self)@
                })),
    {
        self.logout_at(token, now_unix())
    }

    /// Ends every session.
    pub fn clear_tokens(&mut self)
        ensures
            final(self)@ == (AccountView { tokens: Seq::empty(), ..old(self)@ }),
    {
        self.tokens = Vec::new();
        assert(self.tokens@.map_values(|t: Token| t@) =~= Seq::<TokenView>::empty());
    }

    /// Checks a request made with `token` at `now` that needs all of
    /// `required`: the token must be valid and the account must hold each
    /// permission.
    pub fn authorize_at(&self, token: &str, required: &Vec<Permission>, now: i64) -> (r: Result<
        (),
        Error,
    >)
        ensures
            !token_valid(self@.tokens, token@, now) ==> r == Err::<(), Error>(Error::InvalidToken),
            token_valid(self@.tokens, token@, now) && !(forall|i: int|
                0 <= i < required@.len() ==> has_permission(self@.tags, #[trigger] required@[i]))
                ==> r == Err::<(), Error>(Error::PermissionDenied),
            token_valid(self@.tokens, token@, now) && (forall|i: int|
                0 <= i < required@.len() ==> has_permission(self@.tags, #[trigger] required@[i]))
                ==> r is Ok,
    {
        if !self.is_token_valid_at(token, now) {
            return Err(Error::InvalidToken);
        }
        let mut i: usize = 0;
        while i < required.len()
            invariant
                token_valid(self@.tokens, token@, now),
                i <= required@.len(),
                forall|k: int| 0 <= k < i ==> has_permission(self@.tags, #[trigger] required@[k]),
            decreases required@.len() - i,
        {
            if !self.tags.contains_permission(required[i]) {
                return Err(Error::PermissionDenied);
            }
            i = i + 1;
        }
        Ok(())
    }

    /// Checks a request made now with `token` that needs all of `required`.
    pub fn authorize(&self, token: &str, required: &Vec<Permission>) -> (r: Result<(), Error>)
        ensures
            exists|now: i64|
                (!token_valid(self@.tokens, token@, now) ==> r == Err::<(), Error>(
                    Error::InvalidToken,
                )) && (token_valid(self@.tokens, token@, now) ==> (r is Ok <==> forall|i: int|
                    0 <= i < required@.len() ==> has_permission(
                        self@.tags,
                        #[trigger] required@[i],
                    ))),
    {
        self.authorize_at(token, required, now_unix())
    }

    /// Requests a password-reset captcha at `now` that would issue `fresh`,
    /// under the same cooldown as registration captchas.
    pub fn req_reset_password_at(&mut self, now: i64, fresh: Captcha) -> (r: Result<Captcha, Error>)
        ensures
            final(self)@.reset is Some,
            old(self)@.reset is Some ==> (final(self)@.reset->Some_0, r) == update_spec(
                old(self)@.reset->Some_0,
                now,
                fresh.0,
            ),
            old(self)@.reset is None ==> exists|c: u32|
                (final(self)@.reset->Some_0, r) == update_spec(
                    VerifyCxView { captcha: c, last_req: 0 },
                    now,
                    fresh.0,
                ),
            final(self)@ == (AccountView { reset: final(self)@.reset, ..old(self)@ }),
    {
        let mut cx = match self.reset.take() {
            Some(c) => c,
            None => VerifyCx::new(),
        };
        let ghost init = cx@;
        let r = cx.update_at(now, fresh);
        proof {
            if old(self)@.reset is None {
                assert(init == VerifyCxView { captcha: init.captcha, last_req: 0 });
            }
        }
        self.reset = Some(cx);
        r
    }

    /// Requests a password-reset captcha now, drawn at random, under the
    /// same cooldown as registration captchas.
    pub fn req_reset_password(&mut self) -> (r: Result<Captcha, Error>)
        ensures
            final(self)@.reset is Some,
            final(self)@ == (AccountView { reset: final(self)@.reset, ..old(self)@ }),
            old(self)@.reset is Some ==> exists|now: i64, fresh: u32|
                (final(self)@.reset->Some_0, r) == update_spec(old(self)@.reset->Some_0, now, fresh),
    {
        let now = now_unix();
        let fresh = Captcha::random();
        self.req_reset_password_at(now, fresh)
    }

    /// Resets the password with the captcha of a reset request; the
    /// request is consumed on success.
    pub fn reset_password(&mut self, captcha: Captcha, password: &str) -> (r: Result<(), Error>)
        ensures
            old(self)@.reset is None ==> r == Err::<(), Error>(
                Error::VerifySessionNotFound(VerifyVariant::ResetPassword),
            ) && final(self)@ == old(self)@,
            old(self)@.reset matches Some(cx) && cx.captcha != captcha.0 ==> r == Err::<(), Error>(
                Error::CaptchaIncorrect,
            ) && final(self)@ == old(self)@,
            old(self)@.reset matches Some(cx) && cx.captcha == captcha.0 ==> r is Ok && final(self)@
                == (AccountView { password: password_digest(password@), reset: None, ..old(self)@ }),
    {
        match &self.reset {
            None => Err(Error::VerifySessionNotFound(VerifyVariant::ResetPassword)),
            Some(cx) => {
                if cx.captcha().0 != captcha.0 {
                    return Err(Error::CaptchaIncorrect);
                }
                self.reset = None;
                self.set_password(password);
                Ok(())
            },
        }
    }
}

/// What an unverified registration holds.
pub struct UnverifiedView {
    pub email: Seq<char>,
    pub cx: VerifyCxView,
}

/// A registration waiting for its captcha, keyed by the digest of its
/// email.
#[derive(Debug)]
pub struct Unverified {
    email: String,
    cx: VerifyCx,
}

impl View for Unverified {
    type V = UnverifiedView;

    closed spec fn view(&self) -> UnverifiedView {
        UnverifiedView { email: self.email@, cx: self.cx@ }
    }
}

impl Unverified {
    /// A registration for `email` that has issued no captcha yet.
    pub fn new(email: String) -> (r: Unverified)
        ensures
            r@.email == email@,
            r@.cx.last_req == 0,
    {
        Unverified { email, cx: VerifyCx::new() }
    }

    /// The id the account will have.
    pub fn email_hash(&self) -> (r: u64)
        ensures
            r == email_id(self@.email),
    {
        email_hash(self.email.as_str())
    }

    /// A registration as storage holds it.
    pub fn from_record(email: String, captcha: Captcha, last_req: i64) -> (r: Unverified)
        ensures
            r@ == (UnverifiedView {
                email: email@,
                cx: VerifyCxView { captcha: captcha.0, last_req },
            }),
    {
        Unverified { email, cx: VerifyCx::from_parts(captcha, last_req) }
    }

    /// The verification context of this registration.
    pub fn cx(&self) -> (r: &VerifyCx)
        ensures
            r@ == self@.cx,
    {
        &self.cx
    }

    /// The email of this registration.
    pub fn email(&self) -> (r: &str)
        ensures
            r@ == self@.email,
    {
        self.email.as_str()
    }

    /// Issues a captcha at `now` that would be `fresh`, subject to the
    /// cooldown.
    pub fn request_captcha_at(&mut self, now: i64, fresh: Captcha) -> (r: Result<Captcha, Error>)
        ensures
            (final(self)@.cx, r) == update_spec(old(self)@.cx, now, fresh.0),
            final(self)@.email == old(self)@.email,
    {
        self.cx.update_at(now, fresh)
    }

    /// Issues a random captcha now, subject to the cooldown.
    pub fn request_captcha(&mut self) -> (r: Result<Captcha, Error>)
        ensures
            exists|now: i64, fresh: u32| (final(self)@.cx, r) == update_spec(old(self)@.cx, now, fresh),
            final(self)@.email == old(self)@.email,
    {
        let now = now_unix();
        let fresh = Captcha::random();
        let r = self.cx.update_at(now, fresh);
        assert((self@.cx, r) == update_spec(old(self)@.cx, now, fresh.0));
        r
    }

    /// Turns this registration into an account when `desc` carries the
    /// captcha issued; otherwise hands the registration back unchanged.
    pub fn verify(self, desc: RegisterDesc) -> (r: Result<Account, (Error, Unverified)>)
        ensures
            desc.args.captcha.0 != self@.cx.captcha ==> (r matches Err(e) && e.0
                == Error::CaptchaIncorrect && e.1@ == self@),
            desc.args.captcha.0 == self@.cx.captcha ==> (r matches Ok(a) && a@ == (AccountView {
                id: email_id(self@.email),
                email: self@.email,
                name: desc.name@,
                school_id: desc.school_id@,
                phone: desc.phone,
                password: password_digest(desc.password@),
                tokens: Seq::empty(),
                tags: TagsView { permissions: Some(default_grant()), ..desc.tags@ },
                token_expire: None,
                reset: None,
            })),
    {
        let RegisterDesc { email: _, name, school_id, phone, password, tags, args } = desc;
        let mut tags = tags;
        match self.cx.check(&args, &mut tags) {
            Err(e) => Err((e, self)),
            Ok(()) => {
                let id = self.email_hash();
                let pw = digest_password(password.as_str());
                let a = Account {
                    id,
                    email: self.email,
                    name,
                    school_id,
                    phone,
                    password: pw,
                    tokens: Vec::new(),
                    tags,
                    token_expire: None,
                    reset: None,
                };
                assert(a.tokens@.map_values(|t: Token| t@) =~= Seq::<TokenView>::empty());
                Ok(a)
            },
        }
    }
}

/// Registers with `desc` against the pending registration of its email,
/// if there is one. The registration is consumed on success, so the same
/// captcha cannot register twice; on a wrong captcha it stays pending.
pub fn register(pending: &mut Option<Unverified>, desc: RegisterDesc) -> (r: Result<Account, Error>)
    ensures
        old(pending)@ is None ==> r == Err::<Account, Error>(Error::UnverifiedAccountNotFound)
            && final(pending)@ is None,
        old(pending)@ is Some && desc.args.captcha.0 != old(pending)@->Some_0@.cx.captcha ==> r
            == Err::<Account, Error>(Error::CaptchaIncorrect) && final(pending)@ is Some
            && final(pending)@->Some_0@ == old(pending)@->Some_0@,
        old(pending)@ is Some && desc.args.captcha.0 == old(pending)@->Some_0@.cx.captcha ==> r is Ok
            && r->Ok_0@ == (AccountView {
                id: email_id(old(pending)@->Some_0@.email),
                email: old(pending)@->Some_0@.email,
                name: desc.name@,
                school_id: desc.school_id@,
                phone: desc.phone,
                password: password_digest(desc.password@),
                tokens: Seq::empty(),
                tags: TagsView { permissions: Some(default_grant()), ..desc.tags@ },
                token_expire: None,
                reset: None,
            }) && final(pending)@ is None,
{
    match pending.take() {
        None => Err(Error::UnverifiedAccountNotFound),
        Some(u) => match u.verify(desc) {
            Ok(a) => Ok(a),
            Err((e, u)) => {
                *pending = Some(u);
                Err(e)
            },
        },
    }
}

/// The answer to a successful login.
#[derive(Clone, Debug)]
pub struct LoginRes {
    pub id: u64,
    pub token: String,
    pub expire_at: Option<i64>,
}

/// A password change: the current password and the new one.
#[derive(Clone, Debug)]
pub struct ModifyPasswordPart {
    pub old: String,
    pub new: String,
}

impl Account {
    /// Changes the password when `part` gives the current one.
    pub fn change_password(&mut self, part: &ModifyPasswordPart) -> (r: Result<(), Error>)
        ensures
            password_digest(part.old@) != old(self)@.password ==> r == Err::<(), Error>(
                Error::UsernameOrPasswordIncorrect,
            ) && final(self)@ == old(self)@,
            password_digest(part.old@) == old(self)@.password ==> r is Ok && final(self)@ == (
            AccountView { password: password_digest(part.new@), ..old(self)@ }),
    {
        if !self.password_matches(part.old.as_str()) {
            return Err(Error::UsernameOrPasswordIncorrect);
        }
        self.set_password(part.new.as_str());
        Ok(())
    }
}

/// How much of an account a viewer sees.
#[derive(Clone, Copy, PartialEq, Eq, Structural, Debug)]
pub enum InfoLevel {
    /// The viewer owns the account.
    Owned,
    /// Everything but the session settings.
    Full,
    /// Name, email and departments.
    Simple,
}

/// How much of account `target` the account `viewer` with tags `tags` sees.
pub fn info_level(viewer: Id, target: Id, tags: &Tags) -> (r: InfoLevel)
    ensures
        viewer == target ==> r == InfoLevel::Owned,
        viewer != target && has_permission(tags@, Permission::ViewFullAccount) ==> r
            == InfoLevel::Full,
        viewer != target && !has_permission(tags@, Permission::ViewFullAccount) ==> r
            == InfoLevel::Simple,
{
    if viewer.0 == target.0 {
        InfoLevel::Owned
    } else if tags.contains_permission(Permission::ViewFullAccount) {
        InfoLevel::Full
    } else {
        InfoLevel::Simple
    }
}

} // verus!
