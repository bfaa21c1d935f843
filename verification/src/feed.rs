//! Feeds: content sniffing, the multipart upload pipeline, and image
//! retrieval.

use vstd::prelude::*;

use crate::user::User;
use crate::{Store, StoreError};

verus! {

/// A feed record, written once when an upload succeeds. The creation time is
/// kept as milliseconds since the epoch.
pub struct Feed {
    pub id: String,
    pub user_id: i64,
    pub caption: String,
    pub image_count: u8,
    pub created_at: i64,
}

impl Clone for Feed {
    fn clone(&self) -> (r: Self)
        ensures
            r == *self,
    {
        Feed {
            id: self.id.clone(),
            user_id: self.user_id,
            caption: self.caption.clone(),
            image_count: self.image_count,
            created_at: self.created_at,
        }
    }
}

/// One feed row joined with the author's username, as the feed listing
/// returns it.
pub struct FeedWithUser {
    pub id: String,
    pub username: String,
    pub caption: String,
    pub image_count: u8,
    pub created_at: i64,
}

/// One stored image: raw bytes keyed by feed identifier and position.
pub struct ImageRecord {
    pub feed_id: String,
    pub position: u8,
    pub data: Vec<u8>,
}

/// The eight-byte PNG signature.
pub open spec fn png_magic() -> Seq<u8> {
    seq![0x89u8, 0x50u8, 0x4eu8, 0x47u8, 0x0du8, 0x0au8, 0x1au8, 0x0au8]
}

/// The three-byte JPEG signature.
pub open spec fn jpeg_magic() -> Seq<u8> {
    seq![0xffu8, 0xd8u8, 0xffu8]
}

/// The bytes begin with the PNG signature.
pub open spec fn is_png(b: Seq<u8>) -> bool {
    b.len() >= 8 && b.subrange(0, 8) == png_magic()
}

/// The bytes begin with the JPEG signature.
pub open spec fn is_jpeg(b: Seq<u8>) -> bool {
    b.len() >= 3 && b.subrange(0, 3) == jpeg_magic()
}

/// The content sniffs to one of the allowed formats. The decision reads the
/// bytes alone, never a field name or declared content type.
pub open spec fn is_allowed_image(b: Seq<u8>) -> bool {
    is_png(b) || is_jpeg(b)
}

/// The verdict of content sniffing, collapsed to what the pipeline needs:
/// the two allowed formats, and everything else.
pub enum SniffedFormat {
    Png,
    Jpeg,
    Other,
}

/// Relies on `image::guess_format`: it detects a format from the leading
/// magic bytes, matching PNG by its eight-byte signature first and JPEG by
/// `FF D8 FF` second; no other entry in its table begins with either
/// signature, so each verdict holds exactly when the signature is present.
#[verifier::external_body]
fn sniff_format(data: &Vec<u8>) -> (r: SniffedFormat)
    ensures
        r == SniffedFormat::Png <==> is_png(data@),
        r == SniffedFormat::Jpeg <==> is_jpeg(data@),
{
    match image::guess_format(data) {
        Ok(image::ImageFormat::Png) => SniffedFormat::Png,
        Ok(image::ImageFormat::Jpeg) => SniffedFormat::Jpeg,
        Ok(_) => SniffedFormat::Other,
        Err(_) => SniffedFormat::Other,
    }
}

/// Whether the pipeline accepts these bytes as an image: true exactly when
/// they sniff to PNG or JPEG.
pub fn image_allowed(data: &Vec<u8>) -> (r: bool)
    ensures
        r == is_allowed_image(data@),
{
    match sniff_format(data) {
        SniffedFormat::Png => true,
        SniffedFormat::Jpeg => true,
        SniffedFormat::Other => false,
    }
}

/// Copies a byte vector element by element.
fn copy_bytes(src: &Vec<u8>) -> (r: Vec<u8>)
    ensures
        r@ == src@,
{
    let mut out: Vec<u8> = Vec::new();
    let mut i: usize = 0;
    while i < src.len()
        invariant
            i <= src@.len(),
            out@ == src@.take(i as int),
        decreases src@.len() - i,
    {
        out.push(src[i]);
        proof {
            assert(out@ =~= src@.take(i + 1));
        }
        i += 1;
    }
    proof {
        assert(out@ =~= src@);
    }
    out
}

impl Store {
    /// Inserts one image row under a feed identifier that no feed record
    /// holds yet: the pipeline persists each accepted image before the feed
    /// record exists.
    pub fn create_image(&mut self, feed_id: &String, index: u8, data: Vec<u8>)
        requires
            old(self).wf(),
            !old(self).has_feed(feed_id@),
            !old(self).has_image(feed_id@, index),
        ensures
            final(self).wf(),
            final(self).users == old(self).users,
            final(self).sessions == old(self).sessions,
            final(self).feeds == old(self).feeds,
            final(self).next_user_id == old(self).next_user_id,
            forall|f: Seq<char>, p: u8| #[trigger]
                final(self).has_image(f, p) <==> old(self).has_image(f, p) || (f == feed_id@ && p
                    == index),
            final(self).image_at(feed_id@, index) == data@,
            forall|f: Seq<char>, p: u8| #[trigger]
                old(self).has_image(f, p) ==> final(self).image_at(f, p) == old(self).image_at(
                    f,
                    p,
                ),
    {
        let ghost pre = *self;
        let ghost d = data@;
        let record = ImageRecord { feed_id: feed_id.clone(), position: index, data };
        self.images.push(record);
        proof {
            crate::lemma_add_image(
                pre,
                *self,
                ImageRecord { feed_id: *feed_id, position: index, data: self.images@.last().data },
            );
            assert(self.images@.last().data@ == d);
        }
    }

    /// Writes the feed record itself: the last step of a successful upload,
    /// once exactly `image_count` image rows stand under the identifier.
    /// The record must carry a non-empty caption and be no older than every
    /// stored feed, keeping the listing in creation order.
    pub fn create_feed(
        &mut self,
        feed_id: String,
        user_id: i64,
        caption: String,
        image_count: u8,
        created_at: i64,
    ) -> (feed: Feed)
        requires
            old(self).wf(),
            old(self).has_user_id(user_id),
            !old(self).has_feed(feed_id@),
            image_count >= 1,
            caption@.len() > 0,
            forall|i: int| 0 <= i < old(self).feeds@.len() ==> #[trigger]
                old(self).feeds@[i].created_at <= created_at,
            forall|p: u8| #[trigger]
                old(self).has_image(feed_id@, p) <==> (p as int) < image_count as int,
        ensures
            final(self).wf(),
            final(self).users == old(self).users,
            final(self).sessions == old(self).sessions,
            final(self).images == old(self).images,
            final(self).next_user_id == old(self).next_user_id,
            feed == (Feed { id: feed_id, user_id, caption, image_count, created_at }),
            final(self).feeds@ == old(self).feeds@.push(feed),
            final(self).has_feed(feed_id@),
            final(self).feed_with_id(feed_id@) == feed,
            forall|f: Seq<char>, p: u8| #[trigger]
                final(self).has_image(f, p) <==> old(self).has_image(f, p),
            forall|f: Seq<char>, p: u8| #[trigger]
                old(self).has_image(f, p) ==> final(self).image_at(f, p) == old(self).image_at(
                    f,
                    p,
                ),
    {
        let ghost pre = *self;
        let feed = Feed { id: feed_id, user_id, caption, image_count, created_at };
        let stored = feed.clone();
        self.feeds.push(stored);
        proof {
            crate::lemma_add_feed(pre, *self, feed);
            crate::lemma_images_agree(pre, *self);
        }
        feed
    }

    /// The feed listing: every stored feed joined with its author's
    /// username, sorted by creation time, newest first. Feeds are appended
    /// in creation order — an invariant of the store — so the reverse of
    /// that order is the sort.
    pub fn get_feeds(&self) -> (r: Vec<FeedWithUser>)
        requires
            self.wf(),
        ensures
            r@.len() == self.feeds@.len(),
            forall|i: int|
                0 <= i < r@.len() ==> presents_feed(
                    *self,
                    #[trigger] r@[i],
                    self.feeds@.len() - 1 - i,
                ),
            forall|i: int, j: int|
                #![trigger r@[i], r@[j]]
                0 <= i <= j < r@.len() ==> r@[i].created_at >= r@[j].created_at,
    {
        let n = self.feeds.len();
        let mut out: Vec<FeedWithUser> = Vec::new();
        let mut j: usize = 0;
        while j < n
            invariant
                self.wf(),
                n == self.feeds@.len(),
                j <= n,
                out@.len() == j,
                forall|i: int| 0 <= i < j ==> presents_feed(*self, #[trigger] out@[i], n - 1 - i),
            decreases n - j,
        {
            let idx = n - 1 - j;
            let author = match self.user_by_id(self.feeds[idx].user_id) {
                Some(u) => u,
                None => {
                    proof {
                        assert(self.has_user_id(self.feeds@[idx as int].user_id));
                        assert(false);
                    }
                    User { id: 0, username: String::new(), password: String::new() }
                },
            };
            let entry = FeedWithUser {
                id: self.feeds[idx].id.clone(),
                username: author.username,
                caption: self.feeds[idx].caption.clone(),
                image_count: self.feeds[idx].image_count,
                created_at: self.feeds[idx].created_at,
            };
            out.push(entry);
            j += 1;
        }
        proof {
            assert forall|a: int, b: int|
                #![trigger out@[a], out@[b]]
                0 <= a <= b < out@.len() implies out@[a].created_at >= out@[b].created_at by {
                assert(presents_feed(*self, out@[a], n - 1 - a));
                assert(presents_feed(*self, out@[b], n - 1 - b));
                assert(self.feeds@[n - 1 - b].created_at <= self.feeds@[n - 1 - a].created_at);
            }
        }
        out
    }

    /// The bytes at `(feed_id, index)`, or `NotFound` when no such row
    /// exists — whether because the identifier matches no image rows at all
    /// or because the position is past the last one.
    pub fn get_image(&self, feed_id: &String, index: u8) -> (r: Result<Vec<u8>, StoreError>)
        requires
            self.wf(),
        ensures
            match r {
                Ok(d) => self.has_image(feed_id@, index) && d@ == self.image_at(feed_id@, index),
                Err(e) => e == StoreError::NotFound && !self.has_image(feed_id@, index),
            },
    {
        let mut i: usize = 0;
        while i < self.images.len()
            invariant
                self.wf(),
                i <= self.images@.len(),
                forall|j: int|
                    0 <= j < i ==> !(#[trigger] self.images@[j].feed_id@ == feed_id@
                        && self.images@[j].position == index),
            decreases self.images@.len() - i,
        {
            if self.images[i].position == index && self.images[i].feed_id == *feed_id {
                proof {
                    self.lemma_image_row_at(i as int);
                }
                return Ok(copy_bytes(&self.images[i].data));
            }
            i += 1;
        }
        proof {
            assert(!self.has_image(feed_id@, index)) by {
                if self.has_image(feed_id@, index) {
                    let k = choose|k: int|
                        0 <= k < self.images@.len() && self.images@[k].feed_id@ == feed_id@
                            && self.images@[k].position == index;
                }
            }
        }
        Err(StoreError::NotFound)
    }
}

/// The image-fetch endpoint core: the raw bytes at `(feed_id, index)`, or
/// `NotFound`. The bytes come back exactly as they were stored.
pub fn get_feed_image(store: &Store, feed_id: &String, index: u8) -> (r: Result<
    Vec<u8>,
    StoreError,
>)
    requires
        store.wf(),
    ensures
        match r {
            Ok(d) => store.has_image(feed_id@, index) && d@ == store.image_at(feed_id@, index),
            Err(e) => e == StoreError::NotFound && !store.has_image(feed_id@, index),
        },
{
    store.get_image(feed_id, index)
}

/// The listing entry `e` presents the stored feed at index `k`, joined with
/// its author's username.
pub open spec fn presents_feed(s: Store, e: FeedWithUser, k: int) -> bool {
    let f = s.feeds@[k];
    &&& e.id@ == f.id@
    &&& e.caption@ == f.caption@
    &&& e.image_count == f.image_count
    &&& e.created_at == f.created_at
    &&& e.username@ == s.user_with_id(f.user_id).username@
}

/// One event read from the multipart stream, as the server hands it over,
/// in arrival order.
pub enum UploadPart {
    /// A field named `caption`, decoded as text.
    Caption(String),
    /// A field named `caption` whose text could not be decoded.
    CaptionUnreadable,
    /// A field under any other name, read to its raw bytes.
    Image(Vec<u8>),
    /// A field under any other name whose bytes could not be read.
    ImageUnreadable,
    /// The stream itself broke: malformed multipart framing.
    Malformed,
}

/// The upload pipeline's failures: `BadRequest` for anything wrong with the
/// submission itself, `Internal` when the store could not take it.
#[derive(Debug)]
pub enum UploadError {
    BadRequest,
    Internal,
}

/// A part the pipeline accepts and reads past: a caption, or an image whose
/// bytes sniff to an allowed format. Everything else rejects the upload on
/// the spot.
pub open spec fn part_ok(p: UploadPart) -> bool {
    match p {
        UploadPart::Caption(_) => true,
        UploadPart::Image(d) => is_allowed_image(d@),
        _ => false,
    }
}

/// The image payloads among the parts, in arrival order.
pub open spec fn image_payloads(parts: Seq<UploadPart>) -> Seq<Seq<u8>>
    decreases parts.len(),
{
    if parts.len() == 0 {
        Seq::empty()
    } else {
        let init = image_payloads(parts.drop_last());
        match parts.last() {
            UploadPart::Image(d) => init.push(d@),
            _ => init,
        }
    }
}

/// The caption the submission ends up with: the last caption part wins.
pub open spec fn last_caption(parts: Seq<UploadPart>) -> Option<Seq<char>>
    decreases parts.len(),
{
    if parts.len() == 0 {
        None
    } else {
        match parts.last() {
            UploadPart::Caption(c) => Some(c@),
            _ => last_caption(parts.drop_last()),
        }
    }
}

/// Where the pipeline stops reading: the index of the first part it
/// rejects, or the number of parts when it rejects none. Images before this
/// index are already persisted when a later part rejects the upload.
pub open spec fn first_bad(parts: Seq<UploadPart>) -> int
    decreases parts.len(),
{
    if parts.len() == 0 {
        0
    } else if !part_ok(parts.first()) {
        0
    } else {
        1 + first_bad(parts.drop_first())
    }
}

/// `first_bad` points at the first rejected part: everything before it is
/// acceptable, and it is the length exactly when every part is.
pub proof fn lemma_first_bad(parts: Seq<UploadPart>)
    ensures
        0 <= first_bad(parts) <= parts.len(),
        forall|j: int| 0 <= j < first_bad(parts) ==> part_ok(#[trigger] parts[j]),
        first_bad(parts) < parts.len() ==> !part_ok(parts[first_bad(parts)]),
    decreases parts.len(),
{
    if parts.len() > 0 && part_ok(parts.first()) {
        let rest = parts.drop_first();
        lemma_first_bad(rest);
        assert forall|j: int| 0 <= j < first_bad(parts) implies part_ok(#[trigger] parts[j]) by {
            if j > 0 {
                assert(parts[j] == rest[j - 1]);
            }
        }
        if first_bad(parts) < parts.len() {
            assert(parts[first_bad(parts)] == rest[first_bad(rest)]);
        }
    }
}

/// The whole submission is well-formed: every part acceptable, at least one
/// image, and a non-empty caption present once all parts are drained (so a
/// caption arriving after the images still counts). A feed never exists
/// without at least one image and a non-empty caption.
pub open spec fn upload_accepts(parts: Seq<UploadPart>) -> bool {
    &&& first_bad(parts) == parts.len()
    &&& image_payloads(parts).len() > 0
    &&& (last_caption(parts) matches Some(c) && c.len() > 0)
}

/// A submission with no image parts carries no image payloads.
proof fn lemma_payloads_empty_without_images(parts: Seq<UploadPart>)
    requires
        forall|j: int| 0 <= j < parts.len() ==> !(#[trigger] parts[j] is Image),
    ensures
        image_payloads(parts).len() == 0,
    decreases parts.len(),
{
    if parts.len() > 0 {
        assert(forall|j: int|
            0 <= j < parts.drop_last().len() ==> #[trigger] parts.drop_last()[j] == parts[j]);
        lemma_payloads_empty_without_images(parts.drop_last());
    }
}

/// A submission with only image parts carries one payload per part.
proof fn lemma_payloads_of_images(parts: Seq<UploadPart>)
    requires
        forall|j: int| 0 <= j < parts.len() ==> #[trigger] parts[j] is Image,
    ensures
        image_payloads(parts).len() == parts.len(),
    decreases parts.len(),
{
    if parts.len() > 0 {
        assert(forall|j: int|
            0 <= j < parts.drop_last().len() ==> #[trigger] parts.drop_last()[j] == parts[j]);
        lemma_payloads_of_images(parts.drop_last());
    }
}

/// A submission with no caption parts ends up with no caption.
proof fn lemma_no_caption_without_caption_parts(parts: Seq<UploadPart>)
    requires
        forall|j: int| 0 <= j < parts.len() ==> !(#[trigger] parts[j] is Caption),
    ensures
        last_caption(parts) is None,
    decreases parts.len(),
{
    if parts.len() > 0 {
        assert(forall|j: int|
            0 <= j < parts.drop_last().len() ==> #[trigger] parts.drop_last()[j] == parts[j]);
        lemma_no_caption_without_caption_parts(parts.drop_last());
    }
}

/// A submission with no image parts is never accepted, a caption
/// notwithstanding: a feed must hold at least one image.
pub proof fn lemma_no_images_rejected(parts: Seq<UploadPart>)
    requires
        forall|j: int| 0 <= j < parts.len() ==> !(#[trigger] parts[j] is Image),
    ensures
        !upload_accepts(parts),
{
    lemma_payloads_empty_without_images(parts);
}

/// A submission with no caption part is never accepted, images
/// notwithstanding: a feed must carry a caption.
pub proof fn lemma_no_caption_rejected(parts: Seq<UploadPart>)
    requires
        forall|j: int| 0 <= j < parts.len() ==> !(#[trigger] parts[j] is Caption),
    ensures
        !upload_accepts(parts),
{
    lemma_no_caption_without_caption_parts(parts);
}

/// A caption may arrive after every image: a submission of acceptable
/// images followed by one non-empty caption is accepted, since the caption
/// check runs only once all parts are drained.
pub proof fn lemma_caption_after_images_accepted(parts: Seq<UploadPart>)
    requires
        parts.len() >= 2,
        forall|j: int|
            0 <= j < parts.len() - 1 ==> (#[trigger] parts[j] matches UploadPart::Image(d)
                && is_allowed_image(d@)),
        (parts[parts.len() - 1] matches UploadPart::Caption(c) && c@.len() > 0),
    ensures
        upload_accepts(parts),
{
    lemma_first_bad(parts);
    if first_bad(parts) < parts.len() {
        assert(!part_ok(parts[first_bad(parts)]));
    }
    let body = parts.drop_last();
    assert(forall|j: int| 0 <= j < body.len() ==> #[trigger] body[j] == parts[j]);
    lemma_payloads_of_images(body);
    assert(image_payloads(parts) == image_payloads(body));
}

/// An empty caption is no caption: a submission whose last caption part
/// carries the empty string is never accepted, because a feed never exists
/// without a non-empty caption.
pub proof fn lemma_empty_caption_rejected(parts: Seq<UploadPart>)
    requires
        (last_caption(parts) matches Some(c) && c.len() == 0),
    ensures
        !upload_accepts(parts),
{
}

/// An image part whose bytes do not sniff to an allowed format rejects the
/// whole submission, whatever the field was called or declared to be: the
/// decision reads the bytes alone.
pub proof fn lemma_disallowed_image_rejected(parts: Seq<UploadPart>, j: int)
    requires
        0 <= j < parts.len(),
        (parts[j] matches UploadPart::Image(d) && !is_allowed_image(d@)),
    ensures
        !upload_accepts(parts),
{
    lemma_first_bad(parts);
    if first_bad(parts) == parts.len() {
        assert(part_ok(parts[j]));
    }
}

/// Extending the read prefix by one part extends its payloads and caption
/// in the way the part dictates.
proof fn lemma_prefix_step(parts: Seq<UploadPart>, i: int)
    requires
        0 <= i < parts.len(),
    ensures
        image_payloads(parts.take(i + 1)) == (match parts[i] {
            UploadPart::Image(d) => image_payloads(parts.take(i)).push(d@),
            _ => image_payloads(parts.take(i)),
        }),
        last_caption(parts.take(i + 1)) == (match parts[i] {
            UploadPart::Caption(c) => Some(c@),
            _ => last_caption(parts.take(i)),
        }),
{
    let s = parts.take(i + 1);
    assert(s.last() == parts[i]);
    assert(s.drop_last() =~= parts.take(i));
}

/// A prefix of the parts carries no more image payloads than the whole.
proof fn lemma_payloads_prefix_len(parts: Seq<UploadPart>, i: int)
    requires
        0 <= i <= parts.len(),
    ensures
        image_payloads(parts.take(i)).len() <= image_payloads(parts).len(),
    decreases parts.len() - i,
{
    if i == parts.len() {
        assert(parts.take(i) =~= parts);
    } else {
        lemma_prefix_step(parts, i);
        lemma_payloads_prefix_len(parts, i + 1);
    }
}

/// The upload pipeline: reads the parts in order under a fresh feed
/// identifier, persisting each acceptable image as it arrives, and writes
/// the feed record only if the whole submission is well-formed. A rejection
/// after images were persisted leaves those rows behind with no owning
/// feed — exactly the stored prefix up to the first rejected part.
pub fn create(
    store: &mut Store,
    user_id: i64,
    feed_id: String,
    created_at: i64,
    parts: Vec<UploadPart>,
) -> (r: Result<Feed, UploadError>)
    requires
        old(store).wf(),
        old(store).has_user_id(user_id),
        !old(store).has_feed(feed_id@),
        forall|p: u8| !old(store).has_image(feed_id@, p),
        image_payloads(parts@).len() <= 255,
        forall|i: int| 0 <= i < old(store).feeds@.len() ==> #[trigger]
            old(store).feeds@[i].created_at <= created_at,
    ensures
        final(store).wf(),
        final(store).users == old(store).users,
        final(store).sessions == old(store).sessions,
        final(store).next_user_id == old(store).next_user_id,
        r is Ok <==> upload_accepts(parts@),
        match r {
            Ok(feed) => {
                &&& feed.id@ == feed_id@
                &&& feed.user_id == user_id
                &&& Some(feed.caption@) == last_caption(parts@)
                &&& feed.image_count as int == image_payloads(parts@).len()
                &&& feed.created_at == created_at
                &&& final(store).feeds@ == old(store).feeds@.push(feed)
                &&& final(store).has_feed(feed_id@)
                &&& final(store).feed_with_id(feed_id@) == feed
            },
            Err(e) => e == UploadError::BadRequest && final(store).feeds == old(store).feeds,
        },
        forall|q: u8| #[trigger]
            final(store).has_image(feed_id@, q) <==> (q as int) < image_payloads(
                parts@.take(first_bad(parts@)),
            ).len(),
        forall|q: u8|
            (q as int) < image_payloads(parts@.take(first_bad(parts@))).len()
                ==> final(store).image_at(feed_id@, q) == image_payloads(
                parts@.take(first_bad(parts@)),
            )[q as int],
        forall|f: Seq<char>, q: u8|
            f != feed_id@ ==> (#[trigger] final(store).has_image(f, q) <==> old(store).has_image(
                f,
                q,
            )),
        forall|f: Seq<char>, q: u8|
            f != feed_id@ && #[trigger] old(store).has_image(f, q) ==> final(store).image_at(f, q)
                == old(store).image_at(f, q),
{
    let ghost pre = *old(store);
    let mut caption: Option<String> = None;
    let mut count: u8 = 0;
    let mut i: usize = 0;
    let n = parts.len();
    while i < n
        invariant
            pre == *old(store),
            pre.wf(),
            pre.has_user_id(user_id),
            !pre.has_feed(feed_id@),
            forall|p: u8| !pre.has_image(feed_id@, p),
            n == parts@.len(),
            image_payloads(parts@).len() <= 255,
            forall|k: int| 0 <= k < pre.feeds@.len() ==> #[trigger] pre.feeds@[k].created_at
                <= created_at,
            i <= n,
            store.wf(),
            store.users == pre.users,
            store.sessions == pre.sessions,
            store.feeds == pre.feeds,
            store.next_user_id == pre.next_user_id,
            !store.has_feed(feed_id@),
            forall|j: int| 0 <= j < i ==> part_ok(#[trigger] parts@[j]),
            caption matches Some(c) ==> last_caption(parts@.take(i as int)) == Some(c@),
            caption is None ==> last_caption(parts@.take(i as int)) is None,
            count as int == image_payloads(parts@.take(i as int)).len(),
            count as int <= i,
            forall|q: u8| #[trigger] store.has_image(feed_id@, q) <==> (q as int) < count as int,
            forall|q: u8|
                (q as int) < count as int ==> store.image_at(feed_id@, q) == image_payloads(
                    parts@.take(i as int),
                )[q as int],
            forall|f: Seq<char>, q: u8|
                f != feed_id@ ==> (#[trigger] store.has_image(f, q) <==> pre.has_image(f, q)),
            forall|f: Seq<char>, q: u8|
                f != feed_id@ && #[trigger] pre.has_image(f, q) ==> store.image_at(f, q)
                    == pre.image_at(f, q),
        decreases n - i,
    {
        proof {
            lemma_prefix_step(parts@, i as int);
        }
        match &parts[i] {
            UploadPart::Caption(text) => {
                caption = Some(text.clone());
            },
            UploadPart::Image(data) => {
                if !image_allowed(data) {
                    proof {
                        lemma_bad_at(parts@, i as int);
                    }
                    return Err(UploadError::BadRequest);
                }
                let bytes = copy_bytes(data);
                let ghost before = *store;
                store.create_image(&feed_id, count, bytes);
                proof {
                    lemma_payloads_prefix_len(parts@, i as int + 1);
                    assert forall|q: u8|
                        (q as int) < count as int + 1 implies store.image_at(feed_id@, q)
                        == image_payloads(parts@.take(i as int + 1))[q as int] by {
                        if (q as int) < count as int {
                            assert(before.has_image(feed_id@, q));
                            assert(store.image_at(feed_id@, q) == before.image_at(feed_id@, q));
                        } else {
                            assert(q == count);
                            assert(store.image_at(feed_id@, q) == data@);
                        }
                    }
                    assert forall|f: Seq<char>, q: u8|
                        f != feed_id@ && #[trigger] pre.has_image(f, q) implies store.image_at(
                        f,
                        q,
                    ) == pre.image_at(f, q) by {
                        assert(before.has_image(f, q));
                        assert(store.image_at(f, q) == before.image_at(f, q));
                        assert(before.image_at(f, q) == pre.image_at(f, q));
                    }
                }
                count = count + 1;
            },
            UploadPart::CaptionUnreadable => {
                proof {
                    lemma_bad_at(parts@, i as int);
                }
                return Err(UploadError::BadRequest);
            },
            UploadPart::ImageUnreadable => {
                proof {
                    lemma_bad_at(parts@, i as int);
                }
                return Err(UploadError::BadRequest);
            },
            UploadPart::Malformed => {
                proof {
                    lemma_bad_at(parts@, i as int);
                }
                return Err(UploadError::BadRequest);
            },
        }
        i += 1;
    }
    proof {
        lemma_first_bad(parts@);
        assert(first_bad(parts@) == n) by {
            if first_bad(parts@) < n {
                assert(part_ok(parts@[first_bad(parts@)]));
            }
        }
        assert(parts@.take(n as int) =~= parts@);
    }
    if count == 0 {
        return Err(UploadError::BadRequest);
    }
    let cap = match caption {
        Some(c) => c,
        None => {
            return Err(UploadError::BadRequest);
        },
    };
    if cap.as_str().is_empty() {
        return Err(UploadError::BadRequest);
    }
    proof {
        crate::lemma_users_agree(pre, *store);
    }
    let ghost done = *store;
    let feed = store.create_feed(feed_id, user_id, cap, count, created_at);
    proof {
        assert forall|q: u8|
            (q as int) < image_payloads(parts@.take(first_bad(parts@))).len()
                implies store.image_at(feed_id@, q) == image_payloads(
            parts@.take(first_bad(parts@)),
        )[q as int] by {
            assert(done.has_image(feed_id@, q));
            assert(store.image_at(feed_id@, q) == done.image_at(feed_id@, q));
        }
        assert forall|f: Seq<char>, q: u8|
            f != feed_id@ && #[trigger] pre.has_image(f, q) implies store.image_at(f, q)
            == pre.image_at(f, q) by {
            assert(done.has_image(f, q));
            assert(store.image_at(f, q) == done.image_at(f, q));
            assert(done.image_at(f, q) == pre.image_at(f, q));
        }
    }
    Ok(feed)
}

impl Store {
    /// Whether a feed identifier is already in use, by a feed record or by
    /// any image row (an orphan of an earlier failed upload counts).
    fn feed_id_taken(&self, id: &String) -> (r: bool)
        requires
            self.wf(),
        ensures
            r <==> (self.has_feed(id@) || exists|p: u8| self.has_image(id@, p)),
            !r ==> forall|p: u8| !self.has_image(id@, p),
    {
        let mut i: usize = 0;
        while i < self.feeds.len()
            invariant
                self.wf(),
                i <= self.feeds@.len(),
                forall|j: int| 0 <= j < i ==> self.feeds@[j].id@ != id@,
            decreases self.feeds@.len() - i,
        {
            if self.feeds[i].id == *id {
                proof {
                    assert(self.has_feed(id@));
                }
                return true;
            }
            i += 1;
        }
        let mut k: usize = 0;
        while k < self.images.len()
            invariant
                self.wf(),
                k <= self.images@.len(),
                forall|j: int| 0 <= j < k ==> self.images@[j].feed_id@ != id@,
            decreases self.images@.len() - k,
        {
            if self.images[k].feed_id == *id {
                proof {
                    self.lemma_image_row_at(k as int);
                    assert(self.has_image(id@, self.images@[k as int].position));
                }
                return true;
            }
            k += 1;
        }
        proof {
            assert(!self.has_feed(id@)) by {
                if self.has_feed(id@) {
                    let j = choose|j: int| 0 <= j < self.feeds@.len() && self.feeds@[j].id@ == id@;
                }
            }
            assert forall|p: u8| !self.has_image(id@, p) by {
                if self.has_image(id@, p) {
                    let j = choose|j: int|
                        0 <= j < self.images@.len() && self.images@[j].feed_id@ == id@
                            && self.images@[j].position == p;
                }
            }
        }
        false
    }
}

/// The upload endpoint core: draws the fresh feed identifier and runs the
/// pipeline under it. Fails with `Internal`, changing nothing, only when the
/// freshly drawn identifier is already in use.
pub fn create_feed_upload(
    store: &mut Store,
    user_id: i64,
    created_at: i64,
    parts: Vec<UploadPart>,
) -> (r: Result<Feed, UploadError>)
    requires
        old(store).wf(),
        old(store).has_user_id(user_id),
        image_payloads(parts@).len() <= 255,
        forall|i: int| 0 <= i < old(store).feeds@.len() ==> #[trigger]
            old(store).feeds@[i].created_at <= created_at,
    ensures
        final(store).wf(),
        final(store).users == old(store).users,
        final(store).sessions == old(store).sessions,
        final(store).next_user_id == old(store).next_user_id,
        old(store).feeds@.len() == 0 && old(store).images@.len() == 0 ==> !(r matches Err(
            UploadError::Internal,
        )),
        match r {
            Ok(feed) => {
                &&& upload_accepts(parts@)
                &&& feed.user_id == user_id
                &&& Some(feed.caption@) == last_caption(parts@)
                &&& feed.image_count as int == image_payloads(parts@).len()
                &&& feed.created_at == created_at
                &&& !old(store).has_feed(feed.id@)
                &&& final(store).feeds@ == old(store).feeds@.push(feed)
                &&& final(store).has_feed(feed.id@)
                &&& final(store).feed_with_id(feed.id@) == feed
                &&& forall|q: u8|
                    (q as int) < image_payloads(parts@).len() ==> final(store).image_at(
                        feed.id@,
                        q,
                    ) == image_payloads(parts@)[q as int]
            },
            Err(UploadError::BadRequest) => !upload_accepts(parts@) && final(store).feeds == old(
                store,
            ).feeds,
            Err(UploadError::Internal) => *final(store) == *old(store),
        },
        forall|f: Seq<char>, q: u8| #[trigger]
            old(store).has_image(f, q) ==> final(store).has_image(f, q) && final(store).image_at(
                f,
                q,
            ) == old(store).image_at(f, q),
{
    let ghost pre = *old(store);
    let id = crate::random_id();
    if store.feed_id_taken(&id) {
        proof {
            if pre.feeds@.len() == 0 && pre.images@.len() == 0 {
                if pre.has_feed(id@) {
                    let k = choose|k: int| 0 <= k < pre.feeds@.len() && pre.feeds@[k].id@ == id@;
                }
                if exists|p: u8| pre.has_image(id@, p) {
                    let p = choose|p: u8| pre.has_image(id@, p);
                    let k = choose|k: int|
                        0 <= k < pre.images@.len() && pre.images@[k].feed_id@ == id@
                            && pre.images@[k].position == p;
                }
                assert(false);
            }
        }
        return Err(UploadError::Internal);
    }
    let ghost idv = id@;
    let r = create(store, user_id, id, created_at, parts);
    proof {
        lemma_first_bad(parts@);
        if r is Ok {
            assert(parts@.take(first_bad(parts@)) =~= parts@);
        }
        assert forall|f: Seq<char>, q: u8| #[trigger]
            pre.has_image(f, q) implies store.has_image(f, q) && store.image_at(f, q)
            == pre.image_at(f, q) by {
            if f == idv {
                assert(!pre.has_image(idv, q));
            }
        }
    }
    r
}

/// At an index whose part is unacceptable while everything before it is
/// acceptable, the pipeline's stopping point is exactly that index.
proof fn lemma_bad_at(parts: Seq<UploadPart>, i: int)
    requires
        0 <= i < parts.len(),
        !part_ok(parts[i]),
        forall|j: int| 0 <= j < i ==> part_ok(#[trigger] parts[j]),
    ensures
        first_bad(parts) == i,
{
    lemma_first_bad(parts);
    if first_bad(parts) < i {
        assert(part_ok(parts[first_bad(parts)]));
    }
    if first_bad(parts) > i {
        assert(part_ok(parts[i]));
    }
}

/// Positions at or past a feed's `image_count` hold no image row, so
/// fetching there is `NotFound` by `get_image`'s contract.
pub proof fn lemma_position_out_of_range(s: Store, feed_id: Seq<char>, index: u8)
    requires
        s.wf(),
        s.has_feed(feed_id),
        (index as int) >= s.feed_with_id(feed_id).image_count as int,
    ensures
        !s.has_image(feed_id, index),
{
    let k = choose|k: int| 0 <= k < s.feeds@.len() && s.feeds@[k].id@ == feed_id;
    s.lemma_feed_at(k);
    assert(s.has_image(s.feeds@[k].id@, index) <==> (index as int)
        < s.feeds@[k].image_count as int);
}

} // verus!
