use photothing::admin::fetch_dashboard;
use photothing::email::EmailClient;
use photothing::errors::{ApiError, Status};
use photothing::hsts::{sts_header, sts_header_opts, StsOptions};
use photothing::https::{https_redirector, redirect_handler};
use photothing::photo::NewPhoto;
use photothing::s3::{get_destination, upload_response, S3Access, UploadRequest};
use photothing::store::Store;
use photothing::user::{NewUser, User};
use photothing::util::HashedPassword;

fn test_db() -> Store {
    let mut db = Store::new();
    db.set_clock(chrono::Utc::now().timestamp());
    db
}

fn make_user(db: &mut Store, email: &str) -> User {
    NewUser::new(String::from(email), HashedPassword(String::from("foobar")))
        .insert(db)
        .expect("couldn't make user")
}

#[test]
fn dummy_emailer() {
    let mut emailer = EmailClient::new();
    let sent = emailer.send_message("f@b.com", "hi");
    assert!(sent.is_ok());
    assert_eq!(emailer.messages().get(0).unwrap(), "<f@b.com>::[hi]");
}

#[test]
fn sts_header_values() {
    assert_eq!(sts_header(), "max-age=2678400");
    let opts = StsOptions { expire_time: 60, include_subdomains: true };
    assert_eq!(sts_header_opts(opts), "max-age=60; includeSubDomains");
    let defaults = StsOptions::default();
    assert_eq!(defaults.expire_time, 2678400);
    assert!(!defaults.include_subdomains);
}

#[test]
fn https_redirects() {
    assert_eq!(
        redirect_handler(String::from("app.example"), String::from("/photos?key=3")),
        "https://app.example/photos?key=3"
    );
    let host = String::from("app.example");
    let uri = String::from("/albums");
    let https = String::from("https");
    let http = String::from("http");
    assert_eq!(https_redirector(&host, Some(&https), &uri), None);
    assert_eq!(
        https_redirector(&host, Some(&http), &uri),
        Some(String::from("https://app.example/albums"))
    );
    assert_eq!(
        https_redirector(&host, None, &uri),
        Some(String::from("https://app.example/albums"))
    );
}

#[test]
fn storage_paths() {
    let bare = S3Access::new("bucket".into(), "cdn.example".into(), None);
    assert_eq!(get_destination(&bare, "userx", "photoy"), "userx/photoy");
    assert_eq!(bare.cdn_url_of_entity("userx", "photoy"), "https://cdn.example/userx/photoy");

    let dev = S3Access::new("bucket".into(), "cdn.example".into(), Some("dev".into()));
    assert_eq!(get_destination(&dev, "userx", "photoy"), "dev/userx/photoy");
    assert_eq!(dev.cdn_url_of_entity("userx", "photoy"), "https://cdn.example/dev/userx/photoy");

    let req = UploadRequest::fake();
    let resp = upload_response(&dev, "userx", &req, "photoy", String::from("https://signed.example/put"));
    assert_eq!(resp.url, "https://signed.example/put");
    assert_eq!(resp.directory, "userx");
    assert_eq!(resp.filename, "f");
    assert_eq!(resp.get_url, "https://cdn.example/dev/userx/photoy");
}

#[test]
fn dashboard_counts() {
    let mut db = test_db();
    let s3 = S3Access::new("bucket".into(), "cdn.example".into(), Some("dev".into()));
    let user = make_user(&mut db, "admin_counts@gmail.com");
    let subscribed = make_user(&mut db, "subscribed@gmail.com");
    let m = User::for_update(&db, &subscribed.email).expect("found");
    m.edit_subscription(&mut db, Some(1000)).expect("subscribe");
    NewPhoto::new(&user).insert(&mut db).expect("photo");
    NewPhoto::new(&user).insert(&mut db).expect("photo");

    let ctx = fetch_dashboard(&s3, &db).expect("dashboard");
    assert_eq!(ctx.users.total, 2);
    assert_eq!(ctx.users.subscribed, 1);
    assert_eq!(ctx.photos.created, 2);
    assert_eq!(ctx.photos.uploaded, 0, "no photo confirmed present yet");
    assert_eq!(ctx.s3.bucket, "bucket");
    assert_eq!(ctx.s3.cdn, "cdn.example");
    assert_eq!(ctx.s3.cdn_prefix, Some(String::from("dev")));
}

#[test]
fn error_helpers() {
    let server: Result<i32, ApiError> = ApiError::server_error::<i32, &str>(Err("boom"));
    let e = server.expect_err("wrapped");
    assert!(!e.is_user_error());
    assert_eq!(e.status, Status::InternalServerError);

    let passthrough: Result<i32, ApiError> = ApiError::server_error::<i32, &str>(Ok(7));
    assert_eq!(passthrough.expect("ok"), 7);

    let bad: Result<(), ApiError> = ApiError::bad_request(Err("NOPE"));
    let e = bad.expect_err("wrapped");
    assert!(e.is_user_error());
    assert_eq!(e.message, "NOPE");

    let missing: Result<i32, ApiError> = ApiError::not_found(None, String::from("gone"));
    let e = missing.expect_err("wrapped");
    assert_eq!(e.status, Status::NotFound);
    assert_eq!(e.message, "gone");

    let found = ApiError::not_found(Some(3), String::from("gone"));
    assert_eq!(found.expect("ok"), 3);

    let auth = ApiError::unauthorized();
    assert_eq!(auth.status, Status::Unauthorized);
    assert_eq!(auth.message, "Username or password is invalid");
}
