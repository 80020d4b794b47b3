use photothing::albums::{
    add_photos_to_album, create_album, delete_published_album, fetch_album, get_published_photos,
    publish_album, remove_photos_from_album, toggle_published_album, user_albums,
    user_published_albums, NewAlbum, ToggleActive, UrlFriendlyAlbum,
};
use photothing::codec::Codec;
use photothing::pagination::Pagination;
use photothing::photo::NewPhoto;
use photothing::publishing::PublishedAlbum;
use photothing::s3::S3Access;
use photothing::store::Store;
use photothing::user::{NewUser, User};
use photothing::util::HashedPassword;

fn test_db() -> Store {
    let mut db = Store::new();
    db.set_clock(chrono::Utc::now().timestamp());
    db
}

fn make_user(db: &mut Store, email: &str) -> User {
    NewUser::new(String::from(email), HashedPassword(String::from("foobar")))
        .insert(db)
        .expect("couldn't make user")
}

#[test]
fn url_friendliness() {
    let harsh = Codec::new("foo");

    let published =
        PublishedAlbum { id: 22, user_id: 3, album_id: 390, active: true, created_at: 0 };
    let friendly = UrlFriendlyAlbum::new(&harsh, published);
    assert_eq!("n82", friendly.hash);

    let decoded = UrlFriendlyAlbum::decode_id(&harsh, &friendly.hash).expect("decoded ok");
    assert_eq!(22, decoded);

    match UrlFriendlyAlbum::decode_id(&harsh, "nonsense") {
        Ok(_) => assert!(false, "got something back decoding nonsense"),
        Err(e) => assert!(e.is_user_error(), "got non user-error back"),
    }
}

#[test]
fn publish_hash_round_trip() {
    // encode then decode recovers the id, across the i32 range
    let codec = Codec::new("round trip salt");
    for id in [0, 1, 22, 390, 12345, 2147483647] {
        let published =
            PublishedAlbum { id, user_id: 1, album_id: 1, active: true, created_at: 0 };
        let friendly = UrlFriendlyAlbum::new(&codec, published);
        assert_eq!(UrlFriendlyAlbum::decode_id(&codec, &friendly.hash), Ok(id));
    }
    // a different salt decodes none of them
    let other = Codec::new("another salt");
    let published = PublishedAlbum { id: 22, user_id: 1, album_id: 1, active: true, created_at: 0 };
    let friendly = UrlFriendlyAlbum::new(&codec, published);
    assert!(UrlFriendlyAlbum::decode_id(&other, &friendly.hash).is_err());
}

#[test]
fn decode_of_adversarial_input_fails_quietly() {
    // the codec must answer garbage with a decode failure, never a crash
    let harsh = Codec::new("foo");
    assert!(UrlFriendlyAlbum::decode_id(&harsh, "nonsense!!#$!)(&#(*)").is_err());
    assert!(UrlFriendlyAlbum::decode_id(&harsh, "").is_err());
    assert!(UrlFriendlyAlbum::decode_id(&harsh, "\u{1F4F7}\u{1F4F7}").is_err());
}

#[test]
fn album_crud() {
    let mut db = test_db();
    let user = make_user(&mut db, "album_crud@gmail.com");
    let s3 = S3Access::new("fake_bucket".into(), "foo.com".into(), None);

    let name = Some("baby's first album".to_owned());
    let album = create_album(&mut db, &user, NewAlbum { name: name.clone() })
        .expect("couldn't create album");
    assert_eq!(album.photos.remaining, 0);
    assert_eq!(album.photos.items.len(), 0);
    assert_eq!(&album.name, &name);

    let by_user =
        user_albums(&db, &user, Pagination::first()).expect("couldn't find user's albums");
    assert_eq!(by_user.items.len(), 1);
    assert_eq!(&album, by_user.items.get(0).unwrap());

    let by_id = fetch_album(&db, &user, &s3, album.id, Pagination::first())
        .expect("couldn't fetch album by id");
    assert_eq!(&album, &by_id);

    fetch_album(&db, &user, &s3, 392390, Pagination::first())
        .expect_err("got album back for nonsense id");

    add_photos_to_album(&mut db, &user, &s3, album.id, vec![32018])
        .expect_err("can't add nonsense photo id to album");

    let photo = NewPhoto::new(&user);
    let photo = photo.insert(&mut db).expect("failed to insert photo");
    let album = add_photos_to_album(&mut db, &user, &s3, album.id, vec![photo.id])
        .expect("couldn't add photo to album");
    assert_eq!(album.photos.items.len(), 1, "didn't add photo");

    let album = add_photos_to_album(&mut db, &user, &s3, album.id, vec![photo.id])
        .expect("adding same photo again doesn't error out");
    assert_eq!(album.photos.items.len(), 1);

    let noop_remove = remove_photos_from_album(&mut db, &user, &s3, album.id, vec![3002101])
        .expect("got err when removing non-existent photos from album");
    assert_eq!(&album, &noop_remove);

    let album = remove_photos_from_album(&mut db, &user, &s3, album.id, vec![photo.id])
        .expect("couldn't remove photo from album");
    assert_eq!(album.photos.items.len(), 0, "didn't remove photo");
}

#[test]
fn album_publish_workflow() {
    let mut db = test_db();
    let user = make_user(&mut db, "album_publish@gmail.com");
    let mut u2 = user.duplicate();
    u2.id = 999;
    let s3 = S3Access::new("fake_bucket".into(), "foo.com".into(), None);
    let harsh = Codec::new("foo");

    let name = Some("published album".to_owned());
    let album = create_album(&mut db, &user, NewAlbum { name: name.clone() })
        .expect("couldn't create album");
    let photo = NewPhoto::new(&user);
    let photo = photo.insert(&mut db).expect("failed to insert photo");
    add_photos_to_album(&mut db, &user, &s3, album.id, vec![photo.id])
        .expect("couldn't add photo to album");

    publish_album(&mut db, &user, &harsh, 29098).expect_err("can't publish rando id");
    publish_album(&mut db, &u2, &harsh, album.id)
        .expect_err("can't publish somebody else's album");

    let published = publish_album(&mut db, &user, &harsh, album.id).expect("publish worked");
    assert!(published.active);

    let user_published = user_published_albums(&db, &user, &harsh).expect("album fetch ok");
    assert_eq!(user_published.get(0).unwrap(), &published);

    let fetched = get_published_photos(&db, &s3, &harsh, published.hash.clone(), Pagination::first())
        .expect("get published");
    let published_photo = &fetched.photos.items.get(0).unwrap().photo;
    assert_eq!(published_photo.id, photo.id, "right photo in published album");

    let other_user_pub = user_published_albums(&db, &u2, &harsh).expect("album fetch ok");
    assert!(other_user_pub.is_empty());

    let disabled = ToggleActive { active: false };
    toggle_published_album(&mut db, &user, &harsh, published.hash.clone(), disabled)
        .expect("toggled off");
    get_published_photos(&db, &s3, &harsh, published.hash.clone(), Pagination::first())
        .expect_err("album not published anymore");

    let enabled = ToggleActive { active: true };
    toggle_published_album(&mut db, &user, &harsh, published.hash.clone(), enabled)
        .expect("toggled back on");
    let fetched = get_published_photos(&db, &s3, &harsh, published.hash.clone(), Pagination::first())
        .expect("album re-published");
    assert_eq!(fetched.photos.items.len(), 1);

    delete_published_album(&mut db, &u2, &harsh, published.hash.clone())
        .expect_err("can't delete other users albums");
    delete_published_album(&mut db, &user, &harsh, published.hash.clone()).expect("delete ok");
    get_published_photos(&db, &s3, &harsh, published.hash.clone(), Pagination::first())
        .expect_err("album not published anymore");
}

#[test]
fn album_grows_and_shrinks_with_membership() {
    let mut db = test_db();
    let user = make_user(&mut db, "three_photos@gmail.com");
    let s3 = S3Access::new("fake_bucket".into(), "foo.com".into(), None);

    // a fresh album serves an empty page
    let album = create_album(&mut db, &user, NewAlbum { name: Some("A".into()) })
        .expect("couldn't create album");
    assert_eq!(album.photos.remaining, 0);
    assert_eq!(album.photos.items.len(), 0);

    // three photos in: the page holds all three
    let mut ids = Vec::new();
    for _ in 0..3 {
        ids.push(NewPhoto::new(&user).insert(&mut db).expect("photo").id);
    }
    let album = add_photos_to_album(&mut db, &user, &s3, album.id, ids.clone())
        .expect("couldn't add photos");
    assert_eq!(album.photos.items.len(), 3);

    // one photo out: two remain
    let album = remove_photos_from_album(&mut db, &user, &s3, album.id, vec![ids[0]])
        .expect("couldn't remove photo");
    assert_eq!(album.photos.items.len(), 2);

    // the user's album list still holds exactly this one album
    let listing = user_albums(&db, &user, Pagination::first()).expect("listing");
    assert_eq!(listing.items.len(), 1);
    assert_eq!(listing.items.get(0).unwrap().id, album.id);
}

#[test]
fn inactive_and_missing_hash_answer_alike() {
    // the wire-visible collapse: a toggled-off publish answers with the
    // very same error an unassigned hash gets
    let mut db = test_db();
    let user = make_user(&mut db, "collapse@gmail.com");
    let s3 = S3Access::new("fake_bucket".into(), "foo.com".into(), None);
    let harsh = Codec::new("foo");

    let album = create_album(&mut db, &user, NewAlbum { name: None }).expect("create");
    let published = publish_album(&mut db, &user, &harsh, album.id).expect("publish");
    toggle_published_album(
        &mut db,
        &user,
        &harsh,
        published.hash.clone(),
        ToggleActive { active: false },
    )
    .expect("toggle off");

    let inactive_err =
        get_published_photos(&db, &s3, &harsh, published.hash.clone(), Pagination::first())
            .expect_err("inactive");
    // a decodable hash that no publish row carries
    let missing = UrlFriendlyAlbum::new(
        &harsh,
        PublishedAlbum { id: 7777, user_id: 1, album_id: 1, active: true, created_at: 0 },
    );
    let missing_err = get_published_photos(&db, &s3, &harsh, missing.hash.clone(), Pagination::first())
        .expect_err("missing");
    assert_eq!(inactive_err.status, missing_err.status);
    // all messages, the undecodable hash included, name only the hash
    // that was asked for
    assert_eq!(
        inactive_err.message,
        format!("no published album with id={}", published.hash)
    );
    assert_eq!(missing_err.message, format!("no published album with id={}", missing.hash));
    let undecodable_err =
        get_published_photos(&db, &s3, &harsh, String::from("nonsense"), Pagination::first())
            .expect_err("undecodable");
    assert_eq!(undecodable_err.status, missing_err.status);
    assert_eq!(undecodable_err.message, "no published album with id=nonsense");
}

#[test]
fn fetch_album_hides_ownership() {
    // a nonexistent id and another user's id give byte-identical errors
    let mut db = test_db();
    let owner = make_user(&mut db, "owner@gmail.com");
    let stranger = make_user(&mut db, "stranger@gmail.com");
    let s3 = S3Access::new("fake_bucket".into(), "foo.com".into(), None);

    let album = create_album(&mut db, &owner, NewAlbum { name: None }).expect("create");
    let foreign = fetch_album(&db, &stranger, &s3, album.id, Pagination::first())
        .expect_err("stranger sees nothing");
    let absent = fetch_album(&db, &stranger, &s3, album.id + 1000, Pagination::first())
        .expect_err("absent id");
    assert_eq!(foreign.status, absent.status);
    assert_eq!(foreign.message, format!("could not find album with id={}", album.id));
    assert_eq!(absent.message, format!("could not find album with id={}", album.id + 1000));
}
