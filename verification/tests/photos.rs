use photothing::pagination::Pagination;
use photothing::photo::{AttributeKeyValue, NewPhotoAttr};
use photothing::photos::{create_photo, user_photos};
use photothing::s3::{S3Access, UploadRequest};
use photothing::store::Store;
use photothing::user::{NewUser, User};
use photothing::util::HashedPassword;

fn setup() -> (User, S3Access, Store) {
    let s3 = S3Access::new("fake_bucket".into(), "foo.com".into(), None);
    let mut db = Store::new();
    db.set_clock(chrono::Utc::now().timestamp());
    let user = NewUser::new(String::from("e"), HashedPassword(String::from("foobar")))
        .insert(&mut db)
        .expect("couldn't make user");
    (user, s3, db)
}

#[test]
fn photo_create_get() {
    let (user, s3, mut db) = setup();
    let upload = UploadRequest::fake();

    let photo = create_photo(&user, &mut db, &s3, &upload).expect("photo create failed");
    assert!(!photo.present);

    let photos = user_photos(&user, &db, &s3, Pagination::first()).expect("photo listing");
    assert_eq!(photos.items, vec![photo]);
    assert_eq!(photos.remaining, 0);
    assert_eq!(photos.key, None);
    match photos.next_key {
        Some(id) if id > 0 => {},
        _ => assert!(false, "didn't get next key: {:?}", photos.next_key),
    }

    let key = photos.next_key.unwrap();
    let second_page =
        user_photos(&user, &db, &s3, Pagination::page(key)).expect("second page listing");
    assert!(second_page.items.is_empty());
    assert_eq!(second_page.remaining, 0);
    assert_eq!(second_page.key, Some(key), "user-supplied key");
    assert_eq!(second_page.next_key, None, "next key");

    for _ in 0..50 {
        let upload = UploadRequest::fake();
        create_photo(&user, &mut db, &s3, &upload).expect("bulk photo create failed");
    }
    let photos = user_photos(&user, &db, &s3, Pagination::first()).expect("photo listing");
    assert_eq!(photos.items.len() as i64, Pagination::first().per_page);
    assert_eq!(photos.remaining, 21); // 51 uploaded, got first 30

    let mut small_pg = Pagination::first();
    small_pg.per_page = 5;
    let fewer = user_photos(&user, &db, &s3, small_pg).expect("small page listing");
    assert_eq!(fewer.items.len() as i64, small_pg.per_page);
    assert_eq!(fewer.remaining, 46); // 51 uploaded, asked for 5
}

fn sample_photo() -> photothing::photo::Photo {
    let now = chrono::Utc::now().timestamp();
    photothing::photo::Photo {
        id: 1,
        uuid: "fake".into(),
        owner: 2,
        present: Some(false),
        created_at: now,
        updated_at: now,
    }
}

#[test]
fn new_photo_attr() {
    let photo = sample_photo();
    match AttributeKeyValue::new("FOO", "BAR") {
        Ok(attr) => {
            assert_eq!(attr.key, "foo");
            assert_eq!(attr.value, "BAR");
            let new = NewPhotoAttr::new(&photo, attr);
            assert_eq!(new.photo_id, photo.id);
        },
        Err(e) => assert!(false, "got error making attr: {}", e),
    }
}

#[test]
fn attr_db_constraints() {
    assert_eq!(AttributeKeyValue::new("", "foo"), Err("TAG_EMPTY"));
    assert_eq!(
        AttributeKeyValue::new("asdflkjghasdfljasflkjaslfdjaslfdjalsdfj", "foo"),
        Err("TAG_TOO_LONG_MAX_30")
    );
    assert_eq!(AttributeKeyValue::new("f", ""), Err("VALUE_EMPTY"));
    assert_eq!(
        AttributeKeyValue::new(
            "f",
            "fooagwiuerpqoiweu\u{a8}zoiueraux,n,mnwqueihaohsdkjaklsdfjaklsjfklasjfklasjdflkajsfkljaslfdjasldfjalsjdflajsdfl;ajsdfl;ajdsf;lajsdfkla"
        ),
        Err("VALUE_TOO_LONG_MAX_100")
    );
}

#[test]
fn photo_page_carries_filename_attribute() {
    // the attribute written at upload time must come back on the listing
    let (user, s3, mut db) = setup();
    let upload = UploadRequest::fake();
    create_photo(&user, &mut db, &s3, &upload).expect("create");
    let photos = user_photos(&user, &db, &s3, Pagination::first()).expect("list");
    let listed = photos.items.get(0).expect("one photo");
    assert_eq!(listed.attributes.len(), 1);
    assert_eq!(listed.attributes[0].0, "filename");
    assert_eq!(listed.attributes[0].1, "f");
    // the public URL points at the CDN path for this owner and photo
    assert_eq!(listed.url, format!("https://foo.com/{}/{}", user.uuid, listed.uuid));
}

#[test]
fn attribute_rows_keep_their_table_constraints() {
    let (user, _s3, mut db) = setup();
    let photo = photothing::photo::NewPhoto::new(&user).insert(&mut db).expect("photo");

    let tag = AttributeKeyValue::new("tag", "a").expect("valid attr");
    NewPhotoAttr::new(&photo, tag).insert(&mut db).expect("first insert");

    // the same key again on the same photo violates the unique key
    let dup = AttributeKeyValue::new("TAG", "b").expect("valid attr");
    let err = NewPhotoAttr::new(&photo, dup).insert(&mut db).expect_err("duplicate key");
    assert!(!err.is_user_error());

    // a photo id nobody handed out violates the foreign key
    let orphan = AttributeKeyValue::new("tag", "c").expect("valid attr");
    let ghost_photo = sample_photo();
    let mut row = NewPhotoAttr::new(&ghost_photo, orphan);
    row.photo_id = 424242;
    assert!(row.insert(&mut db).is_err());
}

#[test]
fn empty_filename_is_rejected() {
    let (user, _s3, mut db) = setup();
    let s3 = S3Access::new("fake_bucket".into(), "foo.com".into(), None);
    let upload = UploadRequest { filename: String::new(), file_type: String::from("t") };
    let err = create_photo(&user, &mut db, &s3, &upload).expect_err("empty filename");
    assert!(err.is_user_error());
    assert_eq!(err.message, "VALUE_EMPTY");
}
