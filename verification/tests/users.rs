use chrono::Datelike;
use photothing::store::Store;
use photothing::user::{NewUser, PasswordReset, User};
use photothing::util::HashedPassword;

fn test_db() -> Store {
    let mut db = Store::new();
    db.set_clock(chrono::Utc::now().timestamp());
    db
}

fn make_user(db: &mut Store, email: &str) -> User {
    NewUser::new(String::from(email), HashedPassword(String::from("foobar")))
        .insert(db)
        .expect("couldn't make user")
}

fn day_number(y: i32, m: u32, d: u32) -> i32 {
    chrono::NaiveDate::from_ymd_opt(y, m, d).expect("valid date").num_days_from_ce()
}

#[test]
fn user_crud() {
    let mut db = test_db();
    let user = make_user(&mut db, "foo");
    assert!(user.subscription_expires.is_none(), "new user has subscription by default");
    assert_eq!(user.email, "foo");

    let date = day_number(2015, 3, 14);
    let mutable = User::for_update(&db, &user.email).expect("found user");
    let updated = mutable.edit_subscription(&mut db, Some(date)).expect("update error'd");
    assert_eq!(Some(date), updated.subscription_expires, "date update failed");

    let mutable = User::for_update(&db, &user.email).expect("found user");
    let back_to_null = mutable.edit_subscription(&mut db, None).expect("back to None failed");
    assert!(back_to_null.subscription_expires.is_none(), "date update failed");

    let mutable = User::for_update(&db, &user.email).expect("found user");
    let new_pw = mutable
        .change_password(&mut db, HashedPassword(String::from("foo")))
        .expect("change pw failed");
    assert_eq!(new_pw.password, "foo");
}

#[test]
fn password_reset_crud() {
    let mut db = test_db();
    let user = make_user(&mut db, "pw_crud");
    let user2 = make_user(&mut db, "pw_crud2");

    let m_user = User::for_update(&db, &user.email).expect("found user");
    let m_user2 = User::for_update(&db, &user2.email).expect("found user");

    let reset = PasswordReset::create(&user, &mut db).expect("create failed");
    assert_eq!(reset.user_id, user.id);

    let from_db = PasswordReset::by_uuid(&mut db, &m_user, &reset.uuid);
    assert_eq!(from_db, Ok(Some(reset.duplicate())));

    // make sure the query checks the user id
    let wrong_user = PasswordReset::by_uuid(&mut db, &m_user2, &reset.uuid);
    assert_eq!(wrong_user, Ok(None));

    let deleted = from_db.unwrap().unwrap().delete(&mut db);
    assert_eq!(deleted, Ok(1));

    // can't fetch once it's deleted
    let m_user = User::for_update(&db, &user.email).expect("found user");
    let from_db = PasswordReset::by_uuid(&mut db, &m_user, &reset.uuid);
    assert_eq!(from_db, Ok(None));
}

#[test]
fn reset_token_for_wrong_uuid_is_absent() {
    let mut db = test_db();
    let user = make_user(&mut db, "wrong_token@gmail.com");
    PasswordReset::create(&user, &mut db).expect("create failed");
    let m_user = User::for_update(&db, &user.email).expect("found user");
    assert_eq!(PasswordReset::by_uuid(&mut db, &m_user, "not-the-token"), Ok(None));
    assert_eq!(db.password_resets.len(), 1);
}
