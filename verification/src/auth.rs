//! Registration, login and password reset, plus the subscriber and admin
//! gates. Session plumbing (cookies, headers) belongs to the web layer;
//! here a login attempt resolves to the authenticated account or to
//! nothing.

use vstd::prelude::*;
use vstd::string::*;
use crate::email::{sent_entry, EmailClient};
use crate::errors::{ApiError, Status};
use crate::store::{Store, same_except_resets, same_except_users};
use crate::user::{MutableUser, NewUser, PasswordReset, User, DAY_SECONDS};
use crate::util::{bcrypt_match, bcrypt_verify, hash_password, str_starts_with};

verus! {

/// Relies on zxcvbn::zxcvbn for the 0-through-4 strength score. The
/// estimate is not a function of the strings alone — year and date
/// tokens are scored by their distance from the machine's current year —
/// so only the score's range is stated, and `validate_scored` says what
/// is decided for each score that can come back.
#[verifier::external_body]
fn check_password_score(password: &str, email: &str) -> (r: u8)
    ensures
        r <= 4,
{
    let entropy = zxcvbn::zxcvbn(password, &[email]);
    u8::from(entropy.score())
}

/// Relies on mailchecker::is_valid: a format check plus a blocklist of
/// throwaway domains, a function of the characters alone.
#[verifier::external_body]
fn mail_is_valid(email: &str) -> (r: bool)
    ensures
        r == email_acceptable(email@),
{
    mailchecker::is_valid(email)
}

/// What mailchecker accepts as a usable address.
pub uninterp spec fn email_acceptable(s: Seq<char>) -> bool;

/// A login or registration form: an email and a password.
#[derive(Debug)]
pub struct UserLogin {
    pub email: String,
    pub password: String,
}

impl UserLogin {
    /// Applies the registration rules to a strength score the estimator
    /// returned: a password under eight characters is rejected before
    /// anything else, then a score below 3 of 4, then an unacceptable
    /// email.
    pub fn validate_scored(&self, score: u8) -> (r: Result<(), &'static str>)
        ensures
            self.password@.len() < 8 ==> (r matches Err(m) && m@ == "PW_TOO_SHORT_8_MIN"@),
            (self.password@.len() >= 8 && score < 3) ==> (r matches Err(m) && m@
                == "PW_TOO_SIMPLE"@),
            (self.password@.len() >= 8 && score >= 3 && !email_acceptable(self.email@)) ==> (
            r matches Err(m) && m@ == "INVALID_EMAIL"@),
            (self.password@.len() >= 8 && score >= 3 && email_acceptable(self.email@)) ==> r
                is Ok,
    {
        if self.password.unicode_len() < 8 {
            return Err("PW_TOO_SHORT_8_MIN");
        }
        if score < 3 {
            return Err("PW_TOO_SIMPLE");
        }
        if !mail_is_valid(self.email.as_str()) {
            return Err("INVALID_EMAIL");
        }
        Ok(())
    }

    /// Validates a registration, asking the estimator for the strength
    /// score. The score is environment-dependent, so the contract says
    /// what holds whichever score came back: a short password is always
    /// the length error, an unacceptable email can only be masked by a
    /// low score, and an acceptable one can fail only as too simple.
    pub fn validate(&self) -> (r: Result<(), &'static str>)
        ensures
            self.password@.len() < 8 ==> (r matches Err(m) && m@ == "PW_TOO_SHORT_8_MIN"@),
            (self.password@.len() >= 8 && !email_acceptable(self.email@)) ==> (r matches Err(m)
                && (m@ == "PW_TOO_SIMPLE"@ || m@ == "INVALID_EMAIL"@)),
            (self.password@.len() >= 8 && email_acceptable(self.email@)) ==> (r is Ok || (
            r matches Err(m) && m@ == "PW_TOO_SIMPLE"@)),
            r matches Err(m) ==> (m@ == "PW_TOO_SHORT_8_MIN"@ || m@ == "PW_TOO_SIMPLE"@ || m@
                == "INVALID_EMAIL"@),
    {
        if self.password.unicode_len() < 8 {
            return Err("PW_TOO_SHORT_8_MIN");
        }
        let score = check_password_score(self.password.as_str(), self.email.as_str());
        self.validate_scored(score)
    }
}

/// What registration answers: the email, and nothing that would betray
/// whether the address was already taken.
#[derive(Debug)]
pub struct UserCreateResponse {
    pub email: String,
}

/// What a registration that answered "accepted" leaves behind: a fresh
/// address with an id to spare gets exactly one new row, whose stored
/// hash verifies against the password; a taken address (or a full
/// table) leaves the table untouched — the visible answer is the same
/// either way, so addresses cannot be probed.
pub open spec fn registration_outcome(
    s0: Store,
    s1: Store,
    email: Seq<char>,
    password: Seq<char>,
) -> bool {
    let taken = exists|i: int| 0 <= i < s0.users@.len() && #[trigger] s0.users@[i].email@ == email;
    if taken || s0.next_user_id == i32::MAX {
        s1.users@ == s0.users@
    } else {
        &&& s1.users@.len() == s0.users@.len() + 1
        &&& s1.users@ == s0.users@.push(s1.users@.last())
        &&& s1.users@.last().email@ == email
        &&& s1.users@.last().id == s0.next_user_id
        &&& bcrypt_match(password, s1.users@.last().password@) == Some(true)
    }
}

/// Registers an account. Validation failures are the caller's to fix;
/// whenever validation and hashing go through, the answer is `Ok` and
/// the store changes exactly as `registration_outcome` says.
pub fn create_user(new_user: UserLogin, db: &mut Store) -> (r: Result<UserCreateResponse, ApiError>)
    requires
        old(db).wf(),
    ensures
        final(db).wf(),
        same_except_users(*old(db), *final(db)),
        r matches Err(e) ==> e.status is BadRequest && *final(db) == *old(db) && (e.message@
            == "PW_TOO_SHORT_8_MIN"@ || e.message@ == "PW_TOO_SIMPLE"@ || e.message@
            == "INVALID_EMAIL"@ || e.message@ == "PW_HASHING_FAILED"@),
        new_user.password@.len() < 8 ==> (r matches Err(e) && e.message@ == "PW_TOO_SHORT_8_MIN"@),
        (new_user.password@.len() >= 8 && !email_acceptable(new_user.email@)) ==> (r matches Err(e)
            && (e.message@ == "PW_TOO_SIMPLE"@ || e.message@ == "INVALID_EMAIL"@)),
        (new_user.password@.len() >= 8 && email_acceptable(new_user.email@)) ==> (r is Ok || (
        r matches Err(e) && (e.message@ == "PW_TOO_SIMPLE"@ || e.message@
            == "PW_HASHING_FAILED"@))),
        r matches Ok(resp) ==> resp.email@ == new_user.email@,
        r matches Ok(resp) ==> registration_outcome(
            *old(db),
            *final(db),
            new_user.email@,
            new_user.password@,
        ),
{
    let email = new_user.email.clone();
    match new_user.validate() {
        Ok(_) => {},
        Err(msg) => {
            return Err(ApiError { status: Status::BadRequest, message: msg.to_owned() });
        },
    }
    let hashed = match hash_password(new_user.password.as_str()) {
        Ok(h) => h,
        Err(msg) => {
            return Err(ApiError { status: Status::BadRequest, message: msg });
        },
    };
    // validation and hashing done; insert, and never tell the caller
    // whether the address was already registered
    let user = NewUser::new(email.clone(), hashed);
    match user.insert(db) {
        Ok(created) => Ok(UserCreateResponse { email: created.email }),
        Err(_) => Ok(UserCreateResponse { email }),
    }
}

/// A successful login: the email, and the token the client sends back,
/// under the header name it must use.
#[derive(Debug)]
pub struct UserCredentials {
    pub email: String,
    pub header: String,
    pub pt_auth: String,
}

impl UserCredentials {
    pub fn new(user: User, auth_token: String) -> (r: UserCredentials)
        ensures
            r.email == user.email,
            r.header@ == "X-Pt-Auth"@,
            r.pt_auth == auth_token,
    {
        UserCredentials { email: user.email, header: "X-Pt-Auth".to_owned(), pt_auth: auth_token }
    }
}

/// Resolves a login attempt to the account it authenticates, or to
/// nothing — for a missing account exactly as for a wrong password.
/// A throwaway hash check runs in the missing-account branch so the two
/// paths cost the same; the session the web layer mints from the account
/// is its business.
pub fn try_login_user(creds: &UserLogin, db: &Store) -> (r: Option<User>)
    requires
        db.wf(),
    ensures
        match r {
            Some(u) => db.users@.contains(u) && u.email@ == creds.email@ && bcrypt_match(
                creds.password@,
                u.password@,
            ) == Some(true),
            None => forall|i: int|
                0 <= i < db.users@.len() && #[trigger] db.users@[i].email@ == creds.email@
                    ==> bcrypt_match(creds.password@, db.users@[i].password@) != Some(true),
        },
{
    match User::by_email(db, creds.email.as_str()) {
        Some(user) => {
            let verdict = bcrypt_verify(creds.password.as_str(), user.password.as_str());
            let ok = match verdict {
                Some(true) => true,
                _ => false,
            };
            if ok {
                Some(user)
            } else {
                proof {
                    // the email picks out exactly one account
                    let w = choose|w: int|
                        0 <= w < db.users@.len() && db.users@[w] == user;
                    assert forall|i: int|
                        0 <= i < db.users@.len() && #[trigger] db.users@[i].email@
                            == creds.email@ implies bcrypt_match(
                        creds.password@,
                        db.users@[i].password@,
                    ) != Some(true) by {
                        if i != w {
                            assert(db.users@[i].email@ != db.users@[w].email@);
                        }
                    }
                }
                None
            }
        },
        None => {
            // burn a verification here too, so a missing account costs
            // the same as a wrong password
            let _ = bcrypt_verify("run verify here so attackers", "cannot time the login path");
            None
        },
    }
}

/// The reset mail body around a token.
pub open spec fn reset_message(token: Seq<char>) -> Seq<char> {
    "Your password reset token is '"@ + token + "'"@
}

/// What a successful reset start leaves behind: the token row for the
/// account under `email`, stamped with the request clock, and the reset
/// mail queued on the ledger.
pub open spec fn reset_created(
    s0: Store,
    s1: Store,
    e0: EmailClient,
    e1: EmailClient,
    email: Seq<char>,
    reset: PasswordReset,
) -> bool {
    &&& exists|i: int|
        0 <= i < s0.users@.len() && #[trigger] s0.users@[i].email@ == email && reset.user_id
            == s0.users@[i].id
    &&& reset.created_at == s0.clock
    &&& s1.password_resets@ == s0.password_resets@.push(reset)
    &&& e1.sent_messages@.len() == e0.sent_messages@.len() + 1
    &&& e1.sent_messages@ == e0.sent_messages@.push(e1.sent_messages@.last())
    &&& e1.sent_messages@.last()@ == sent_entry(email, reset_message(reset.uuid@))
    &&& e1.app_url == e0.app_url
}

/// Starts a password reset: for a registered address, mint a token and
/// queue the mail; for an unknown address, succeed with nothing, so the
/// caller cannot probe for accounts.
pub fn start_password_reset(email: &str, db: &mut Store, emailer: &mut EmailClient) -> (r: Result<
    Option<PasswordReset>,
    ApiError,
>)
    requires
        old(db).wf(),
    ensures
        final(db).wf(),
        same_except_resets(*old(db), *final(db)),
        (forall|i: int| 0 <= i < old(db).users@.len() ==> #[trigger] old(db).users@[i].email@ != email@)
            ==> r == Ok::<Option<PasswordReset>, ApiError>(None) && *final(db) == *old(db)
            && *final(emailer) == *old(emailer),
        r matches Err(e) ==> e.status is InternalServerError && *final(db) == *old(db)
            && *final(emailer) == *old(emailer) && (exists|i: int|
            0 <= i < old(db).password_resets@.len()
                && #[trigger] old(db).password_resets@[i].uuid@.len() == 32),
        match r {
            Ok(opt) => match opt {
                Some(reset) => reset_created(
                    *old(db),
                    *final(db),
                    *old(emailer),
                    *final(emailer),
                    email@,
                    reset,
                ),
                None => true,
            },
            Err(_) => true,
        },
        (exists|i: int| 0 <= i < old(db).users@.len() && #[trigger] old(db).users@[i].email@ == email@)
            ==> r != Ok::<Option<PasswordReset>, ApiError>(None),
{
    let user = match User::by_email(db, email) {
        Some(u) => u,
        None => {
            return Ok(None);
        },
    };
    let reset = match PasswordReset::create(&user, db) {
        Ok(x) => x,
        Err(e) => {
            return Err(e);
        },
    };
    let mut message = "Your password reset token is '".to_owned();
    message.append(reset.uuid.as_str());
    message.append("'");
    match emailer.send_message(&user.email.as_str(), message.as_str()) {
        Ok(_) => {},
        Err(e) => {
            proof {
                assert(false);
            }
            return Err(e);
        },
    }
    proof {
        let w = choose|w: int| 0 <= w < db.users@.len() && db.users@[w] == user;
        assert(db.users@[w].email@ == email@ && reset.user_id == db.users@[w].id);
    }
    Ok(Some(reset))
}

/// Whether the store holds, for the account under `email`, a reset row
/// with these token characters that passes the freshness guard.
pub open spec fn fresh_reset_available(s: Store, email: Seq<char>, token: Seq<char>) -> bool {
    exists|ui: int, ri: int|
        #![trigger s.users@[ui], s.password_resets@[ri]]
        0 <= ui < s.users@.len() && 0 <= ri < s.password_resets@.len() && s.users@[ui].email@
            == email && s.password_resets@[ri].uuid@ == token && s.password_resets@[ri].user_id
            == s.users@[ui].id && s.password_resets@[ri].created_at - s.clock
            < DAY_SECONDS as int
}

/// Completes a password reset: the form must validate, and the account
/// must hold a token with these characters passing the freshness guard;
/// then the token is spent and a hash of the new password stored, and
/// the answer is `true`. Every other lookup outcome is a plain `false`,
/// with no hint which condition failed; an error carries only a
/// validation or hashing token.
pub fn handle_password_reset(reset: UserLogin, uuid: &str, db: &mut Store) -> (r: Result<
    bool,
    ApiError,
>)
    requires
        old(db).wf(),
    ensures
        final(db).wf(),
        r matches Err(e) ==> e.status is BadRequest && *final(db) == *old(db) && (e.message@
            == "PW_TOO_SHORT_8_MIN"@ || e.message@ == "PW_TOO_SIMPLE"@ || e.message@
            == "INVALID_EMAIL"@ || e.message@ == "PW_HASHING_FAILED"@),
        reset.password@.len() < 8 ==> (r matches Err(e) && e.message@ == "PW_TOO_SHORT_8_MIN"@),
        (reset.password@.len() >= 8 && !email_acceptable(reset.email@)) ==> (r matches Err(e) && (
        e.message@ == "PW_TOO_SIMPLE"@ || e.message@ == "INVALID_EMAIL"@)),
        (reset.password@.len() >= 8 && email_acceptable(reset.email@)) ==> (r is Ok || (
        r matches Err(e) && (e.message@ == "PW_TOO_SIMPLE"@ || e.message@
            == "PW_HASHING_FAILED"@))),
        r == Ok::<bool, ApiError>(false) ==> same_except_resets(*old(db), *final(db))
            && !fresh_reset_available(*old(db), reset.email@, uuid@),
        r == Ok::<bool, ApiError>(true) ==> fresh_reset_available(*old(db), reset.email@, uuid@),
        r == Ok::<bool, ApiError>(true) ==> ({
            &&& exists|ui: int|
                0 <= ui < old(db).users@.len() && #[trigger] old(db).users@[ui].email@
                    == reset.email@ && final(db).users@ == old(db).users@.update(
                    ui,
                    final(db).users@[ui],
                ) && final(db).users@[ui].id == old(db).users@[ui].id
                    && final(db).users@[ui].email == old(db).users@[ui].email && bcrypt_match(
                    reset.password@,
                    final(db).users@[ui].password@,
                ) == Some(true)
            &&& exists|ri: int|
                0 <= ri < old(db).password_resets@.len()
                    && #[trigger] old(db).password_resets@[ri].uuid@ == uuid@ && old(
                    db,
                ).password_resets@[ri].created_at - old(db).clock < DAY_SECONDS as int
                    && final(db).password_resets@ == old(db).password_resets@.remove(ri)
        }),
{
    // user-caused failures first; hashing happens before any lookup so
    // that a missing account costs the same as a present one
    match reset.validate() {
        Ok(_) => {},
        Err(msg) => {
            return Err(ApiError { status: Status::BadRequest, message: msg.to_owned() });
        },
    }
    let hashed = match hash_password(reset.password.as_str()) {
        Ok(h) => h,
        Err(msg) => {
            return Err(ApiError { status: Status::BadRequest, message: msg });
        },
    };
    let locked = match User::for_update(db, reset.email.as_str()) {
        Some(m) => m,
        None => {
            proof {
                // no account under this email, so no token for it either
                if fresh_reset_available(*old(db), reset.email@, uuid@) {
                    let (ui, ri) = choose|ui: int, ri: int|
                        #![trigger old(db).users@[ui], old(db).password_resets@[ri]]
                        0 <= ui < old(db).users@.len() && 0 <= ri < old(
                            db,
                        ).password_resets@.len() && old(db).users@[ui].email@ == reset.email@
                            && old(db).password_resets@[ri].uuid@ == uuid@ && old(
                            db,
                        ).password_resets@[ri].user_id == old(db).users@[ui].id && old(
                            db,
                        ).password_resets@[ri].created_at - old(db).clock < DAY_SECONDS as int;
                    assert(old(db).users@[ui].email@ != reset.email@);
                }
            }
            return Ok(false);
        },
    };
    let ghost locked_user = locked.0;
    let reset_auth = match PasswordReset::by_uuid(db, &locked, uuid) {
        Ok(Some(x)) => x,
        Ok(None) => {
            proof {
                // the email picks out exactly one account, and the token
                // either is not on file for it or failed the guard and
                // was culled; either way nothing fresh was available
                if fresh_reset_available(*old(db), reset.email@, uuid@) {
                    let (ui, ri) = choose|ui: int, ri: int|
                        #![trigger old(db).users@[ui], old(db).password_resets@[ri]]
                        0 <= ui < old(db).users@.len() && 0 <= ri < old(
                            db,
                        ).password_resets@.len() && old(db).users@[ui].email@ == reset.email@
                            && old(db).password_resets@[ri].uuid@ == uuid@ && old(
                            db,
                        ).password_resets@[ri].user_id == old(db).users@[ui].id && old(
                            db,
                        ).password_resets@[ri].created_at - old(db).clock < DAY_SECONDS as int;
                    let w = choose|w: int|
                        0 <= w < old(db).users@.len() && old(db).users@[w] == locked_user;
                    if ui != w {
                        assert(old(db).users@[ui].email@ != old(db).users@[w].email@);
                    }
                    assert(old(db).users@[ui] == locked_user);
                    if !crate::user::has_reset(
                        old(db).password_resets@,
                        locked_user.id as int,
                        uuid@,
                    ) {
                        assert(old(db).password_resets@[ri].uuid@ == uuid@
                            && old(db).password_resets@[ri].user_id == locked_user.id);
                    } else {
                        let j = choose|j: int|
                            0 <= j < old(db).password_resets@.len()
                                && #[trigger] old(db).password_resets@[j].uuid@ == uuid@ && old(
                                db,
                            ).password_resets@[j].user_id == locked_user.id && old(
                                db,
                            ).password_resets@[j].created_at - old(db).clock
                                >= DAY_SECONDS as int && db.password_resets@ == old(
                                db,
                            ).password_resets@.remove(j);
                        if ri != j {
                            assert(old(db).password_resets@[ri].uuid@ != old(
                                db,
                            ).password_resets@[j].uuid@);
                        }
                    }
                }
            }
            return Ok(false);
        },
        Err(e) => {
            proof {
                assert(false);
            }
            return Err(e);
        },
    };
    let ghost reset_row = reset_auth;
    match reset_auth.delete(db) {
        Ok(_) => {},
        Err(e) => {
            proof {
                assert(false);
            }
            return Err(e);
        },
    }
    proof {
        // the locked row still sits in the table under its id and email
        let w = choose|w: int|
            0 <= w < old(db).users@.len() && old(db).users@[w] == locked_user;
        assert(db.users@ == old(db).users@);
        assert(forall|i: int|
            0 <= i < db.users@.len() && #[trigger] db.users@[i].id == locked_user.id
                ==> db.users@[i].email@ == locked_user.email@) by {
            assert forall|i: int|
                0 <= i < db.users@.len() && #[trigger] db.users@[i].id == locked_user.id
                implies db.users@[i].email@ == locked_user.email@ by {
                if i != w {
                    assert(crate::store::user_ids(db.users@)[i] == db.users@[i].id as int);
                    assert(crate::store::user_ids(db.users@)[w] == db.users@[w].id as int);
                }
            }
        }
    }
    match locked.change_password(db, hashed) {
        Ok(_) => {},
        Err(e) => {
            proof {
                // the locked account is still in the table, so the
                // update cannot have missed it
                let w = choose|w: int|
                    0 <= w < db.users@.len() && db.users@[w] == locked_user;
                assert(db.users@[w].id == locked_user.id);
                assert(false);
            }
            return Err(ApiError {
                status: Status::BadRequest,
                message: "unexpected server error".to_owned(),
            });
        },
    }
    proof {
        // the account and its token were on file and fresh
        let w = choose|w: int|
            0 <= w < old(db).users@.len() && old(db).users@[w] == locked_user;
        let rx = choose|rx: int|
            0 <= rx < old(db).password_resets@.len() && old(db).password_resets@[rx]
                == reset_row;
        assert(fresh_reset_available(*old(db), reset.email@, uuid@)) by {
            assert(0 <= w < old(db).users@.len() && 0 <= rx < old(db).password_resets@.len()
                && old(db).users@[w].email@ == reset.email@ && old(
                db,
            ).password_resets@[rx].uuid@ == uuid@ && old(db).password_resets@[rx].user_id == old(
                db,
            ).users@[w].id && old(db).password_resets@[rx].created_at - old(db).clock
                < DAY_SECONDS as int);
        }
    }
    Ok(true)
}

/// A subscriber: an account whose subscription expiry, as a day number,
/// is today or later.
pub struct Subscriber(pub User);

impl Subscriber {
    /// Gates an account on its subscription; `today` is the caller's
    /// current day number.
    pub fn from_user(user: User, today: i32) -> (r: Result<Subscriber, ApiError>)
        ensures
            match user.subscription_expires {
                Some(expiration) => if expiration >= today {
                    r matches Ok(s) && s.0 == user
                } else {
                    r matches Err(e) && e.status is Forbidden
                },
                None => r matches Err(e) && e.status is Forbidden,
            },
    {
        match user.subscription_expires {
            Some(expiration) if expiration >= today => Ok(Subscriber(user)),
            _ => Err(ApiError {
                status: Status::Forbidden,
                message: "subscription required".to_owned(),
            }),
        }
    }
}

/// An admin: recognized by the prefix of the account's identity token.
/// A failed admin gate answers not-found, so admin URLs do not reveal
/// themselves.
pub struct Admin(pub User);

impl Admin {
    pub fn from_user(user: User) -> (r: Result<Admin, ApiError>)
        ensures
            (user.uuid@.len() >= "ADMINx"@.len() && user.uuid@.subrange(
                0,
                "ADMINx"@.len() as int,
            ) == "ADMINx"@) ==> (r matches Ok(a) && a.0 == user),
            !(user.uuid@.len() >= "ADMINx"@.len() && user.uuid@.subrange(
                0,
                "ADMINx"@.len() as int,
            ) == "ADMINx"@) ==> (r matches Err(e) && e.status is NotFound),
    {
        if str_starts_with(user.uuid.as_str(), "ADMINx") {
            return Ok(Admin(user));
        }
        Err(ApiError { status: Status::NotFound, message: "not found".to_owned() })
    }
}

} // verus!
