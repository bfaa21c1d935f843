use stargram::feed::{
    create, create_feed_upload, get_feed_image, image_allowed, UploadError, UploadPart,
};
use stargram::user::{create as create_user_account, CreateUserBody};
use stargram::Store;

fn store_and_user() -> (Store, i64) {
    let mut store = Store::new();
    let body = CreateUserBody { username: "ada".to_string(), password: "pw".to_string() };
    let user = create_user_account(&mut store, &body).unwrap();
    (store, user.id)
}

fn png_bytes(tail: &[u8]) -> Vec<u8> {
    let mut b = vec![0x89u8, 0x50, 0x4E, 0x47, 0x0D, 0x0A, 0x1A, 0x0A];
    b.extend_from_slice(tail);
    b
}

fn jpeg_bytes(tail: &[u8]) -> Vec<u8> {
    let mut b = vec![0xFFu8, 0xD8, 0xFF];
    b.extend_from_slice(tail);
    b
}

fn caption(text: &str) -> UploadPart {
    UploadPart::Caption(text.to_string())
}

#[test]
fn upload_with_caption_and_two_pngs_succeeds_in_order() {
    let (mut store, user_id) = store_and_user();
    let first = png_bytes(&[1, 2, 3]);
    let second = png_bytes(&[9, 8, 7, 6]);
    let parts = vec![
        caption("two cats"),
        UploadPart::Image(first.clone()),
        UploadPart::Image(second.clone()),
    ];

    let feed = create_feed_upload(&mut store, user_id, 1000, parts).unwrap();
    assert_eq!(feed.image_count, 2);
    assert_eq!(feed.caption, "two cats");
    assert_eq!(feed.user_id, user_id);
    assert_eq!(feed.created_at, 1000);

    let at0 = get_feed_image(&store, &feed.id, 0).unwrap();
    let at1 = get_feed_image(&store, &feed.id, 1).unwrap();
    assert_eq!(at0, first);
    assert_eq!(at1, second);
}

#[test]
fn upload_without_images_is_rejected() {
    let (mut store, user_id) = store_and_user();
    let parts = vec![caption("no pictures")];
    let r = create_feed_upload(&mut store, user_id, 1000, parts);
    assert!(matches!(r, Err(UploadError::BadRequest)));
}

#[test]
fn upload_with_empty_caption_is_rejected() {
    let (mut store, user_id) = store_and_user();
    let parts = vec![caption(""), UploadPart::Image(png_bytes(&[1]))];
    let r = create_feed_upload(&mut store, user_id, 1000, parts);
    assert!(matches!(r, Err(UploadError::BadRequest)));
}

#[test]
fn upload_without_caption_is_rejected() {
    let (mut store, user_id) = store_and_user();
    let parts = vec![UploadPart::Image(png_bytes(&[1]))];
    let r = create_feed_upload(&mut store, user_id, 1000, parts);
    assert!(matches!(r, Err(UploadError::BadRequest)));
}

#[test]
fn caption_arriving_after_images_still_succeeds() {
    let (mut store, user_id) = store_and_user();
    let parts = vec![
        UploadPart::Image(png_bytes(&[1])),
        UploadPart::Image(jpeg_bytes(&[2])),
        caption("late caption"),
    ];
    let feed = create_feed_upload(&mut store, user_id, 5, parts).unwrap();
    assert_eq!(feed.caption, "late caption");
    assert_eq!(feed.image_count, 2);
}

#[test]
fn later_caption_overwrites_earlier_one() {
    let (mut store, user_id) = store_and_user();
    let parts = vec![caption("first"), UploadPart::Image(png_bytes(&[1])), caption("second")];
    let feed = create_feed_upload(&mut store, user_id, 5, parts).unwrap();
    assert_eq!(feed.caption, "second");
}

#[test]
fn text_bytes_in_an_image_field_are_rejected() {
    let (mut store, user_id) = store_and_user();
    let renamed_text = b"this is not a picture at all".to_vec();
    let parts = vec![caption("sneaky"), UploadPart::Image(renamed_text)];
    let r = create_feed_upload(&mut store, user_id, 1000, parts);
    assert!(matches!(r, Err(UploadError::BadRequest)));
}

#[test]
fn jpeg_content_is_accepted() {
    let (mut store, user_id) = store_and_user();
    let parts = vec![caption("one dog"), UploadPart::Image(jpeg_bytes(&[0xE0, 5]))];
    let feed = create_feed_upload(&mut store, user_id, 1000, parts).unwrap();
    assert_eq!(feed.image_count, 1);
}

#[test]
fn sniffing_reads_content_not_names() {
    assert!(image_allowed(&png_bytes(&[])));
    assert!(image_allowed(&jpeg_bytes(&[])));
    assert!(!image_allowed(&b"GIF89a trailing".to_vec()));
    assert!(!image_allowed(&Vec::new()));
}

#[test]
fn malformed_stream_is_rejected() {
    let (mut store, user_id) = store_and_user();
    let parts = vec![caption("x"), UploadPart::Image(png_bytes(&[1])), UploadPart::Malformed];
    let r = create_feed_upload(&mut store, user_id, 1000, parts);
    assert!(matches!(r, Err(UploadError::BadRequest)));
}

#[test]
fn unreadable_parts_are_rejected() {
    let (mut store, user_id) = store_and_user();
    let r1 = create_feed_upload(&mut store, user_id, 1, vec![UploadPart::CaptionUnreadable]);
    assert!(matches!(r1, Err(UploadError::BadRequest)));
    let r2 = create_feed_upload(&mut store, user_id, 1, vec![UploadPart::ImageUnreadable]);
    assert!(matches!(r2, Err(UploadError::BadRequest)));
}

#[test]
fn fetch_past_image_count_or_unknown_feed_is_not_found() {
    let (mut store, user_id) = store_and_user();
    let parts = vec![caption("one"), UploadPart::Image(png_bytes(&[1]))];
    let feed = create_feed_upload(&mut store, user_id, 1000, parts).unwrap();

    assert!(get_feed_image(&store, &feed.id, 1).is_err());
    assert!(get_feed_image(&store, &feed.id, 255).is_err());
    assert!(get_feed_image(&store, &"no-such-feed".to_string(), 0).is_err());
}

#[test]
fn fetched_bytes_match_submission_exactly() {
    let (mut store, user_id) = store_and_user();
    let payload = jpeg_bytes(&[10, 20, 30, 40, 50]);
    let parts = vec![caption("exact"), UploadPart::Image(payload.clone())];
    let feed = create_feed_upload(&mut store, user_id, 1000, parts).unwrap();
    let fetched = get_feed_image(&store, &feed.id, 0).unwrap();
    assert_eq!(fetched, payload);
}

#[test]
fn rejected_upload_leaves_orphan_images_but_no_feed() {
    let (mut store, user_id) = store_and_user();
    let payload = png_bytes(&[42]);
    let feed_id = "attempt-1".to_string();
    let parts = vec![UploadPart::Image(payload.clone()), UploadPart::Malformed];
    let r = create(&mut store, user_id, feed_id.clone(), 1000, parts);
    assert!(matches!(r, Err(UploadError::BadRequest)));

    // The image accepted before the failure was already persisted and stays.
    let orphan = get_feed_image(&store, &feed_id, 0).unwrap();
    assert_eq!(orphan, payload);
    // No feed record was written, so the listing stays empty.
    assert!(store.get_feeds().is_empty());
}

#[test]
fn listing_shows_feeds_newest_first_with_author() {
    let (mut store, user_id) = store_and_user();
    let first = create_feed_upload(
        &mut store,
        user_id,
        100,
        vec![caption("older"), UploadPart::Image(png_bytes(&[1]))],
    )
    .unwrap();
    let second = create_feed_upload(
        &mut store,
        user_id,
        200,
        vec![caption("newer"), UploadPart::Image(png_bytes(&[2]))],
    )
    .unwrap();

    let listing = store.get_feeds();
    assert_eq!(listing.len(), 2);
    assert_eq!(listing[0].id, second.id);
    assert_eq!(listing[0].caption, "newer");
    assert_eq!(listing[0].created_at, 200);
    assert_eq!(listing[0].username, "ada");
    assert_eq!(listing[1].id, first.id);
    assert_eq!(listing[1].caption, "older");
}
