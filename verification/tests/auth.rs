use chrono::Datelike;
use photothing::auth::{
    create_user, handle_password_reset, start_password_reset, try_login_user, Admin, Subscriber,
    UserLogin,
};
use photothing::email::EmailClient;
use photothing::store::Store;
use photothing::user::{NewUser, User};
use photothing::util::HashedPassword;

fn test_db() -> Store {
    let mut db = Store::new();
    db.set_clock(chrono::Utc::now().timestamp());
    db
}

fn make_user(db: &mut Store, email: &str) -> User {
    NewUser::new(String::from(email), HashedPassword(String::from("foobar")))
        .insert(db)
        .expect("couldn't make user")
}

fn fake_user() -> User {
    let now = chrono::Utc::now().timestamp();
    User {
        id: 1,
        email: String::from("foo"),
        uuid: photothing::util::uuid().0,
        password: String::from("nope"),
        name: None,
        subscription_expires: None,
        updated_at: now,
        joined: now,
    }
}

fn day_number(y: i32, m: u32, d: u32) -> i32 {
    chrono::NaiveDate::from_ymd_opt(y, m, d).expect("valid date").num_days_from_ce()
}

fn login(email: &str, password: &str) -> UserLogin {
    UserLogin { email: String::from(email), password: String::from(password) }
}

#[test]
fn auth_user_form_validation() {
    let short_pw = login("a@g.com", "hi");
    assert_eq!(short_pw.validate(), Err("PW_TOO_SHORT_8_MIN"));

    let simple_pw = login("a@g.com", "12345678");
    assert_eq!(simple_pw.validate(), Err("PW_TOO_SIMPLE"));

    let bad_email = login("not an email", "minimum eight chars");
    assert_eq!(bad_email.validate(), Err("INVALID_EMAIL"));

    let ascii_pw = login("foo@gmail.com", "h\u{e0}\u{b5}yK\u{b5}3\u{f8}\u{e3}^^\u{b3}\u{bd}\u{e4}}A5\u{f6}\u{fd}9\u{d7}\u{bf}a\u{fb}i\u{eb}P}\u{b7}");
    assert!(ascii_pw.validate().is_ok());
}

#[test]
fn mod_user_form_validation() {
    let short_pw = login("a@g.com", "hi");
    assert_eq!(short_pw.validate(), Err("PW_TOO_SHORT_8_MIN"));

    let simple_pw = login("a@g.com", "12345678");
    assert_eq!(simple_pw.validate(), Err("PW_TOO_SIMPLE"));

    let bad_email = login("not an email", "minimum eight chars");
    assert_eq!(bad_email.validate(), Err("INVALID_EMAIL"));

    let ascii_pw = login("foo@gmail.com", "h\u{e0}\u{b5}yK\u{b5}3\u{f8}\u{e3}^^\u{b3}\u{bd}\u{e4}}A5\u{f6}\u{fd}9\u{d7}\u{bf}a\u{fb}i\u{eb}P}\u{b7}");
    assert!(ascii_pw.validate().is_ok());
}

#[test]
fn auth_subscription_check() {
    let today = chrono::Utc::now().num_days_from_ce();
    let mut user = fake_user();

    let null_column = Subscriber::from_user(user.duplicate(), today);
    assert!(null_column.is_err());

    user.subscription_expires = Some(day_number(2015, 3, 14));
    let expired = Subscriber::from_user(user.duplicate(), today);
    assert!(expired.is_err());

    user.subscription_expires = Some(day_number(2200, 3, 14));
    let unexpired = Subscriber::from_user(user.duplicate(), today);
    assert!(unexpired.is_ok());
}

#[test]
fn guards_subscription_check() {
    let today = chrono::Utc::now().num_days_from_ce();
    let mut user = fake_user();

    assert!(Subscriber::from_user(user.duplicate(), today).is_err());
    user.subscription_expires = Some(day_number(2015, 3, 14));
    assert!(Subscriber::from_user(user.duplicate(), today).is_err());
    user.subscription_expires = Some(day_number(2200, 3, 14));
    assert!(Subscriber::from_user(user.duplicate(), today).is_ok());
}

#[test]
fn auth_admin_check() {
    let mut user = fake_user();

    let not_admin = Admin::from_user(user.duplicate());
    assert!(not_admin.is_err());

    let admin_uuid = format!("{}{}", "ADMINx", user.uuid);
    user.uuid = admin_uuid[..32].to_string();

    let admin = Admin::from_user(user.duplicate());
    assert!(admin.is_ok());
}

#[test]
fn guards_admin_check() {
    let mut user = fake_user();
    assert!(Admin::from_user(user.duplicate()).is_err());
    let admin_uuid = format!("{}{}", "ADMINx", user.uuid);
    user.uuid = admin_uuid[..32].to_string();
    assert!(Admin::from_user(user.duplicate()).is_ok());
}

#[test]
fn mod_password_reset_no_user() {
    let mut db = test_db();
    let mut emailer = EmailClient::new();
    let no_user = start_password_reset("foo@bizbang", &mut db, &mut emailer);
    assert_eq!(no_user, Ok(None));
    assert_eq!(emailer.messages().len(), 0);
}

#[test]
fn mod_password_reset() {
    let mut db = test_db();
    let mut emailer = EmailClient::new();
    let user = make_user(&mut db, "pw_reset_flow@gmail.com");

    // kick off the password reset flow
    assert_eq!(emailer.messages().len(), 0);
    let reset = start_password_reset(&user.email, &mut db, &mut emailer)
        .expect("db error creating reset")
        .expect("didn't get reset back");
    assert_eq!(reset.user_id, user.id);
    assert!(reset.created_at <= chrono::Utc::now().timestamp());
    assert!(chrono::Utc::now().timestamp() - reset.created_at < 3);
    let message = emailer.messages().get(0).expect("missing message");
    let expected =
        format!("<pw_reset_flow@gmail.com>::[Your password reset token is '{}']", &reset.uuid);
    assert_eq!(message, &expected);

    // can't reset without having the right magic token
    let reset_rejected = handle_password_reset(
        login(&user.email, "Gwc5C5KuavgeP5kBfhx7"),
        "bad-reset-uuid",
        &mut db,
    );
    assert_eq!(reset_rejected, Ok(false));

    // reset the user's password
    let reset_succeeded =
        handle_password_reset(login(&user.email, "Gwc5C5KuavgeP5kBfhx7"), &reset.uuid, &mut db);
    assert_eq!(reset_succeeded, Ok(true));

    // verify that the store was updated with the new password
    let user = User::by_email(&db, "pw_reset_flow@gmail.com").expect("found");
    assert!(bcrypt::verify("Gwc5C5KuavgeP5kBfhx7", &user.password).expect("bcrypt"));

    // and that we can't reset the PW again
    let reset_already_used =
        handle_password_reset(login(&user.email, "Gwc5C5KuavgeP5kBfhx7"), &reset.uuid, &mut db);
    assert_eq!(reset_already_used, Ok(false));
}

#[test]
fn auth_password_reset_no_user() {
    let mut db = test_db();
    let mut emailer = EmailClient::new();
    let no_user = start_password_reset("foo@bizbang", &mut db, &mut emailer);
    assert_eq!(no_user, Ok(None));
    assert_eq!(emailer.messages().len(), 0);
}

#[test]
fn auth_password_reset() {
    let mut db = test_db();
    let mut emailer = EmailClient::new();
    let user = make_user(&mut db, "pw_reset_flow2@gmail.com");

    assert_eq!(emailer.messages().len(), 0);
    let reset = start_password_reset(&user.email, &mut db, &mut emailer)
        .expect("db error creating reset")
        .expect("didn't get reset back");
    assert_eq!(reset.user_id, user.id);
    assert!(reset.created_at <= chrono::Utc::now().timestamp());
    assert!(chrono::Utc::now().timestamp() - reset.created_at < 3);
    let message = emailer.messages().get(0).expect("missing message");
    let expected =
        format!("<pw_reset_flow2@gmail.com>::[Your password reset token is '{}']", &reset.uuid);
    assert_eq!(message, &expected);

    let reset_rejected = handle_password_reset(
        login(&user.email, "Gwc5C5KuavgeP5kBfhx7"),
        "bad-reset-uuid",
        &mut db,
    );
    assert_eq!(reset_rejected, Ok(false));

    let reset_succeeded =
        handle_password_reset(login(&user.email, "Gwc5C5KuavgeP5kBfhx7"), &reset.uuid, &mut db);
    assert_eq!(reset_succeeded, Ok(true));

    let user = User::by_email(&db, "pw_reset_flow2@gmail.com").expect("found");
    assert!(bcrypt::verify("Gwc5C5KuavgeP5kBfhx7", &user.password).expect("bcrypt"));

    let reset_already_used =
        handle_password_reset(login(&user.email, "Gwc5C5KuavgeP5kBfhx7"), &reset.uuid, &mut db);
    assert_eq!(reset_already_used, Ok(false));
}

#[test]
fn login_resolves_only_with_right_password() {
    let mut db = test_db();
    let hashed = photothing::util::hash_password("s0me pa55word!").expect("hash ok");
    let user = NewUser::new(String::from("login@gmail.com"), hashed)
        .insert(&mut db)
        .expect("couldn't make user");

    let good = try_login_user(&login("login@gmail.com", "s0me pa55word!"), &db);
    assert_eq!(good.expect("login works").id, user.id);

    assert!(try_login_user(&login("login@gmail.com", "wrong password"), &db).is_none());
    assert!(try_login_user(&login("nobody@gmail.com", "s0me pa55word!"), &db).is_none());
}

#[test]
fn scored_validation_rules() {
    // the decision for each score the estimator can hand back
    let form = login("a@g.com", "long enough pw");
    assert_eq!(form.validate_scored(0), Err("PW_TOO_SIMPLE"));
    assert_eq!(form.validate_scored(2), Err("PW_TOO_SIMPLE"));
    assert_eq!(form.validate_scored(3), Ok(()));
    let short = login("a@g.com", "hi");
    assert_eq!(short.validate_scored(4), Err("PW_TOO_SHORT_8_MIN"));
    let bad_mail = login("not an email", "long enough pw");
    assert_eq!(bad_mail.validate_scored(4), Err("INVALID_EMAIL"));
}

#[test]
fn register_then_login_round_trip() {
    // the stored hash verifies against the registered password
    let mut db = test_db();
    create_user(login("roundtrip@gmail.com", "Gwc5C5KuavgeP5kBfhx7"), &mut db)
        .expect("registration accepted");
    let user = try_login_user(&login("roundtrip@gmail.com", "Gwc5C5KuavgeP5kBfhx7"), &db)
        .expect("login works");
    assert_eq!(user.email, "roundtrip@gmail.com");
}

#[test]
fn registration_hides_taken_addresses() {
    let mut db = test_db();
    let first = create_user(login("probe@gmail.com", "Gwc5C5KuavgeP5kBfhx7"), &mut db)
        .expect("registration accepted");
    assert_eq!(first.email, "probe@gmail.com");
    // the same address again: same visible answer, nothing inserted twice
    let second = create_user(login("probe@gmail.com", "Gwc5C5KuavgeP5kBfhx7"), &mut db)
        .expect("registration still accepted");
    assert_eq!(second.email, "probe@gmail.com");
    assert_eq!(db.users.len(), 1);
}
