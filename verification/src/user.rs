//! Accounts and password-reset tokens.

use vstd::prelude::*;
use crate::errors::{ApiError, Status};
use crate::store::{Store, same_except_resets, same_except_users, user_ids};
use crate::util::{str_eq, uuid, HashedPassword};

verus! {

/// A day has this many seconds; reset tokens age out after one day.
pub const DAY_SECONDS: i64 = 86400;

/// A registered account row.
#[derive(Debug, PartialEq)]
pub struct User {
    pub id: i32,
    pub email: String,
    pub uuid: String,
    pub password: String,
    pub name: Option<String>,
    /// Day number of the subscription expiry, when subscribed.
    pub subscription_expires: Option<i32>,
    pub updated_at: i64,
    pub joined: i64,
}

fn clone_opt_string(o: &Option<String>) -> (r: Option<String>)
    ensures
        r == *o,
{
    match o {
        Some(s) => Some(s.clone()),
        None => None,
    }
}

impl User {
    pub fn duplicate(&self) -> (r: Self)
        ensures
            r == *self,
    {
        User {
            id: self.id,
            email: self.email.clone(),
            uuid: self.uuid.clone(),
            password: self.password.clone(),
            name: clone_opt_string(&self.name),
            subscription_expires: self.subscription_expires,
            updated_at: self.updated_at,
            joined: self.joined,
        }
    }
}

impl User {
    /// The account registered under this email, if any.
    pub fn by_email(db: &Store, user_email: &str) -> (r: Option<User>)
        ensures
            match r {
                Some(u) => db.users@.contains(u) && u.email@ == user_email@,
                None => forall|i: int|
                    0 <= i < db.users@.len() ==> #[trigger] db.users@[i].email@ != user_email@,
            },
    {
        let mut i: usize = 0;
        while i < db.users.len()
            invariant
                0 <= i <= db.users@.len(),
                forall|j: int| 0 <= j < i ==> #[trigger] db.users@[j].email@ != user_email@,
            decreases db.users@.len() - i,
        {
            if str_eq(db.users[i].email.as_str(), user_email) {
                return Some(db.users[i].duplicate());
            }
            i += 1;
        }
        None
    }

    /// The account with this id, if any.
    pub fn by_id(db: &Store, user_id: i32) -> (r: Option<User>)
        ensures
            match r {
                Some(u) => db.users@.contains(u) && u.id == user_id,
                None => forall|i: int|
                    0 <= i < db.users@.len() ==> #[trigger] db.users@[i].id != user_id,
            },
    {
        let mut i: usize = 0;
        while i < db.users.len()
            invariant
                0 <= i <= db.users@.len(),
                forall|j: int| 0 <= j < i ==> #[trigger] db.users@[j].id != user_id,
            decreases db.users@.len() - i,
        {
            if db.users[i].id == user_id {
                return Some(db.users[i].duplicate());
            }
            i += 1;
        }
        None
    }

    /// Selects an account for update.
    pub fn for_update(db: &Store, user_email: &str) -> (r: Option<MutableUser>)
        ensures
            match r {
                Some(m) => db.users@.contains(m.0) && m.0.email@ == user_email@,
                None => forall|i: int|
                    0 <= i < db.users@.len() ==> #[trigger] db.users@[i].email@ != user_email@,
            },
    {
        match User::by_email(db, user_email) {
            Some(user) => Some(MutableUser(user)),
            None => None,
        }
    }
}

/// A user row selected for update; mutation goes through this wrapper.
pub struct MutableUser(pub User);

/// Replaces the user row carrying `row.id` with `row`; the update keeps
/// the table's order because the id is unchanged.
fn replace_user_row(db: &mut Store, row: User) -> (r: Result<User, ApiError>)
    requires
        old(db).wf(),
        // the replacement carries the id and email of the row it replaces
        forall|i: int|
            0 <= i < old(db).users@.len() && #[trigger] old(db).users@[i].id == row.id
                ==> old(db).users@[i].email@ == row.email@,
    ensures
        final(db).wf(),
        same_except_users(*old(db), *final(db)),
        final(db).next_user_id == old(db).next_user_id,
        match r {
            Ok(u) => u == row && exists|i: int|
                0 <= i < old(db).users@.len() && #[trigger] old(db).users@[i].id == row.id
                    && final(db).users@ == old(db).users@.update(i, row),
            Err(e) => e.status is InternalServerError && *final(db) == *old(db) && forall|i: int|
                0 <= i < old(db).users@.len() ==> #[trigger] old(db).users@[i].id != row.id,
        },
{
    let mut i: usize = 0;
    while i < db.users.len()
        invariant
            0 <= i <= db.users@.len(),
            *db == *old(db),
            old(db).wf(),
            forall|j: int|
                0 <= j < old(db).users@.len() && #[trigger] old(db).users@[j].id == row.id
                    ==> old(db).users@[j].email@ == row.email@,
            forall|j: int| 0 <= j < i ==> #[trigger] db.users@[j].id != row.id,
        decreases db.users@.len() - i,
    {
        if db.users[i].id == row.id {
            let copy = row.duplicate();
            let ghost before = db.users@;
            db.users.remove(i);
            db.users.insert(i, row);
            proof {
                assert(db.users@ =~= before.update(i as int, copy));
                assert(user_ids(db.users@) =~= user_ids(before));
                assert(before[i as int].email@ == copy.email@);
                assert forall|a: int, b: int|
                    0 <= a < b < db.users@.len() implies #[trigger] db.users@[a].email@
                    != #[trigger] db.users@[b].email@ by {
                    assert(before[a].email@ != before[b].email@);
                    assert(db.users@[a].email@ == before[a].email@);
                    assert(db.users@[b].email@ == before[b].email@);
                }
            }
            return Ok(copy);
        }
        i += 1;
    }
    Err(ApiError {
        status: Status::InternalServerError,
        message: "unexpected server error".to_owned(),
    })
}

impl MutableUser {
    /// Sets or clears the subscription expiry day of this account.
    pub fn edit_subscription(self, db: &mut Store, expiration_date: Option<i32>) -> (r: Result<
        User,
        ApiError,
    >)
        requires
            old(db).wf(),
            // the row was selected from this store
            forall|i: int|
                0 <= i < old(db).users@.len() && #[trigger] old(db).users@[i].id == self.0.id
                    ==> old(db).users@[i].email@ == self.0.email@,
        ensures
            final(db).wf(),
            same_except_users(*old(db), *final(db)),
            match r {
                Ok(u) => u == (User { subscription_expires: expiration_date, ..self.0 })
                    && exists|i: int|
                    0 <= i < old(db).users@.len() && #[trigger] old(db).users@[i].id == self.0.id
                        && final(db).users@ == old(db).users@.update(i, u),
                Err(e) => e.status is InternalServerError && *final(db) == *old(db) && forall|
                    i: int,
                |
                    0 <= i < old(db).users@.len() ==> #[trigger] old(db).users@[i].id
                        != self.0.id,
            },
    {
        let row = User { subscription_expires: expiration_date, ..self.0 };
        replace_user_row(db, row)
    }

    /// Stores a new password hash for this account.
    pub fn change_password(self, db: &mut Store, pw: HashedPassword) -> (r: Result<
        User,
        ApiError,
    >)
        requires
            old(db).wf(),
            forall|i: int|
                0 <= i < old(db).users@.len() && #[trigger] old(db).users@[i].id == self.0.id
                    ==> old(db).users@[i].email@ == self.0.email@,
        ensures
            final(db).wf(),
            same_except_users(*old(db), *final(db)),
            match r {
                Ok(u) => u.password == pw.0 && u.id == self.0.id && u.email == self.0.email
                    && exists|i: int|
                    0 <= i < old(db).users@.len() && #[trigger] old(db).users@[i].id == self.0.id
                        && final(db).users@ == old(db).users@.update(i, u),
                Err(e) => e.status is InternalServerError && *final(db) == *old(db) && forall|
                    i: int,
                |
                    0 <= i < old(db).users@.len() ==> #[trigger] old(db).users@[i].id
                        != self.0.id,
            },
    {
        let row = User { password: pw.0, ..self.0 };
        replace_user_row(db, row)
    }
}

/// An account about to be registered.
pub struct NewUser {
    pub email: String,
    pub uuid: String,
    pub password: String,
    pub name: Option<String>,
    pub subscription_expires: Option<i32>,
}

impl NewUser {
    /// Collects a fresh account: the given email, the hashed password,
    /// a fresh identity token, no display name, no subscription.
    pub fn new(email: String, pw: HashedPassword) -> (r: NewUser)
        ensures
            r.email == email,
            r.password == pw.0,
            r.uuid@.len() == 32,
            r.name is None,
            r.subscription_expires is None,
    {
        NewUser {
            email,
            uuid: uuid().0,
            password: pw.0,
            name: None,
            subscription_expires: None,
        }
    }

    /// Inserts the account. Fails, changing nothing, when the email is
    /// already registered (the unique key the schema enforced) or the
    /// table has no id left.
    pub fn insert(self, db: &mut Store) -> (r: Result<User, ApiError>)
        requires
            old(db).wf(),
        ensures
            final(db).wf(),
            same_except_users(*old(db), *final(db)),
            r is Ok <==> (old(db).next_user_id < i32::MAX && forall|i: int|
                0 <= i < old(db).users@.len() ==> #[trigger] old(db).users@[i].email@
                    != self.email@),
            r matches Err(e) ==> e.status is InternalServerError && *final(db) == *old(db),
            r matches Ok(u) ==> {
                &&& u.id == old(db).next_user_id
                &&& u.email == self.email
                &&& u.uuid == self.uuid
                &&& u.password == self.password
                &&& u.name == self.name
                &&& u.subscription_expires == self.subscription_expires
                &&& u.joined == old(db).clock
                &&& final(db).users@ == old(db).users@.push(u)
                &&& final(db).next_user_id == old(db).next_user_id + 1
            },
    {
        if db.next_user_id == i32::MAX {
            return Err(ApiError {
                status: Status::InternalServerError,
                message: "unexpected server error".to_owned(),
            });
        }
        let mut i: usize = 0;
        while i < db.users.len()
            invariant
                0 <= i <= db.users@.len(),
                *db == *old(db),
                old(db).wf(),
                forall|j: int| 0 <= j < i ==> #[trigger] db.users@[j].email@ != self.email@,
            decreases db.users@.len() - i,
        {
            if str_eq(db.users[i].email.as_str(), self.email.as_str()) {
                return Err(ApiError {
                    status: Status::InternalServerError,
                    message: "unexpected server error".to_owned(),
                });
            }
            i += 1;
        }
        let row = User {
            id: db.next_user_id,
            email: self.email,
            uuid: self.uuid,
            password: self.password,
            name: self.name,
            subscription_expires: self.subscription_expires,
            updated_at: db.clock,
            joined: db.clock,
        };
        let copy = row.duplicate();
        db.users.push(row);
        db.next_user_id = db.next_user_id + 1;
        proof {
            assert(user_ids(db.users@) =~= user_ids(old(db).users@).push(copy.id as int));
        }
        Ok(copy)
    }
}

/// Whether a reset token for this user with these characters is on file.
pub open spec fn has_reset(rs: Seq<PasswordReset>, uid: int, token: Seq<char>) -> bool {
    exists|i: int|
        0 <= i < rs.len() && #[trigger] rs[i].uuid@ == token && rs[i].user_id == uid
}

/// An outstanding password-reset token for one user.
#[derive(Debug, PartialEq)]
pub struct PasswordReset {
    pub uuid: String,
    pub user_id: i32,
    pub created_at: i64,
}

impl PasswordReset {
    pub fn duplicate(&self) -> (r: Self)
        ensures
            r == *self,
    {
        PasswordReset {
            uuid: self.uuid.clone(),
            user_id: self.user_id,
            created_at: self.created_at,
        }
    }

    /// Mints and stores a reset token for `user`. The token is random;
    /// the insert fails only if the token collides with one on file, so
    /// on a store holding no 32-character token it must succeed.
    pub fn create(user: &User, db: &mut Store) -> (r: Result<PasswordReset, ApiError>)
        requires
            old(db).wf(),
        ensures
            final(db).wf(),
            same_except_resets(*old(db), *final(db)),
            r matches Err(e) ==> e.status is InternalServerError && *final(db) == *old(db)
                && (exists|i: int|
                0 <= i < old(db).password_resets@.len()
                    && #[trigger] old(db).password_resets@[i].uuid@.len() == 32),
            r matches Ok(pr) ==> {
                &&& pr.user_id == user.id
                &&& pr.created_at == old(db).clock
                &&& pr.uuid@.len() == 32
                &&& final(db).password_resets@ == old(db).password_resets@.push(pr)
            },
    {
        let token = uuid().0;
        let mut i: usize = 0;
        while i < db.password_resets.len()
            invariant
                0 <= i <= db.password_resets@.len(),
                *db == *old(db),
                old(db).wf(),
                token@.len() == 32,
                forall|j: int|
                    0 <= j < i ==> #[trigger] db.password_resets@[j].uuid@ != token@,
            decreases db.password_resets@.len() - i,
        {
            if str_eq(db.password_resets[i].uuid.as_str(), token.as_str()) {
                proof {
                    assert(db.password_resets@[i as int].uuid@.len() == 32);
                }
                return Err(ApiError {
                    status: Status::InternalServerError,
                    message: "unexpected server error".to_owned(),
                });
            }
            i += 1;
        }
        let row = PasswordReset { uuid: token, user_id: user.id, created_at: db.clock };
        let copy = row.duplicate();
        db.password_resets.push(row);
        Ok(copy)
    }

    /// The reset token on file for this user with these characters,
    /// provided it passes the freshness guard: its timestamp must lie
    /// less than a day past the clock, which every past timestamp does —
    /// only a token dated a day or more ahead fails, and such a token is
    /// deleted on sight and reported as absent.
    pub fn by_uuid(db: &mut Store, user: &MutableUser, given_uuid: &str) -> (r: Result<
        Option<PasswordReset>,
        ApiError,
    >)
        requires
            old(db).wf(),
        ensures
            final(db).wf(),
            same_except_resets(*old(db), *final(db)),
            r is Ok,
            match r {
                Ok(opt) => match opt {
                    Some(x) => old(db).password_resets@.contains(x) && x.uuid@ == given_uuid@
                        && x.user_id == user.0.id && x.created_at - old(db).clock
                        < DAY_SECONDS as int && *final(db) == *old(db),
                    None => (*final(db) == *old(db) && !has_reset(
                        old(db).password_resets@,
                        user.0.id as int,
                        given_uuid@,
                    )) || (exists|i: int|
                        0 <= i < old(db).password_resets@.len()
                            && #[trigger] old(db).password_resets@[i].uuid@ == given_uuid@
                            && old(db).password_resets@[i].user_id == user.0.id
                            && old(db).password_resets@[i].created_at - old(db).clock
                            >= DAY_SECONDS as int && final(db).password_resets@ == old(
                            db,
                        ).password_resets@.remove(i)),
                },
                Err(_) => false,
            },
    {
        let mut i: usize = 0;
        while i < db.password_resets.len()
            invariant
                0 <= i <= db.password_resets@.len(),
                *db == *old(db),
                old(db).wf(),
                forall|j: int|
                    0 <= j < i ==> !(#[trigger] db.password_resets@[j].uuid@ == given_uuid@
                        && db.password_resets@[j].user_id == user.0.id),
            decreases db.password_resets@.len() - i,
        {
            let row = &db.password_resets[i];
            if row.user_id == user.0.id && str_eq(row.uuid.as_str(), given_uuid) {
                let fresh = (db.password_resets[i].created_at as i128) - (db.clock as i128)
                    < DAY_SECONDS as i128;
                if fresh {
                    return Ok(Some(db.password_resets[i].duplicate()));
                }
                let ghost before = db.password_resets@;
                db.password_resets.remove(i);
                proof {
                    assert forall|a: int, b: int|
                        0 <= a < b < db.password_resets@.len() implies #[trigger] db.password_resets@[a].uuid@
                        != #[trigger] db.password_resets@[b].uuid@ by {
                        let a0 = if a < i as int {
                            a
                        } else {
                            a + 1
                        };
                        let b0 = if b < i as int {
                            b
                        } else {
                            b + 1
                        };
                        assert(before[a0].uuid@ != before[b0].uuid@);
                    }
                }
                return Ok(None);
            }
            i += 1;
        }
        Ok(None)
    }

    /// Deletes this token; reports how many rows went (one or none).
    pub fn delete(self, db: &mut Store) -> (r: Result<usize, ApiError>)
        requires
            old(db).wf(),
        ensures
            final(db).wf(),
            same_except_resets(*old(db), *final(db)),
            match r {
                Ok(n) => (n == 1 && exists|i: int|
                    0 <= i < old(db).password_resets@.len()
                        && #[trigger] old(db).password_resets@[i].uuid@ == self.uuid@
                        && final(db).password_resets@ == old(db).password_resets@.remove(i)) || (
                n == 0 && *final(db) == *old(db) && forall|i: int|
                    0 <= i < old(db).password_resets@.len()
                        ==> #[trigger] old(db).password_resets@[i].uuid@ != self.uuid@),
                Err(_) => false,
            },
    {
        let mut i: usize = 0;
        while i < db.password_resets.len()
            invariant
                0 <= i <= db.password_resets@.len(),
                *db == *old(db),
                old(db).wf(),
                forall|j: int| 0 <= j < i ==> #[trigger] db.password_resets@[j].uuid@ != self.uuid@,
            decreases db.password_resets@.len() - i,
        {
            if str_eq(db.password_resets[i].uuid.as_str(), self.uuid.as_str()) {
                let ghost before = db.password_resets@;
                db.password_resets.remove(i);
                proof {
                    assert forall|a: int, b: int|
                        0 <= a < b < db.password_resets@.len() implies #[trigger] db.password_resets@[a].uuid@
                        != #[trigger] db.password_resets@[b].uuid@ by {
                        let a0 = if a < i as int {
                            a
                        } else {
                            a + 1
                        };
                        let b0 = if b < i as int {
                            b
                        } else {
                            b + 1
                        };
                        assert(before[a0].uuid@ != before[b0].uuid@);
                    }
                }
                return Ok(1);
            }
            i += 1;
        }
        Ok(0)
    }
}

} // verus!
