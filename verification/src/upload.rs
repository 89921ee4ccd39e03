//! Uploads of images and flow sources.

use std::collections::HashSet;

use vstd::hash_map::StringHashMap;
use vstd::prelude::*;
use vstd::string::*;

use crate::flow;
use crate::frames;
use crate::image;
use crate::image::{ImageSourceView, SourceImage, UiImageSource};
use crate::json;
use crate::request;
use crate::request::{ParamsView, RequestParams, TransportRequest, TransportView};
use crate::session::Neon3Session;
use crate::text;

verus! {

broadcast use {vstd::string::group_string_axioms, vstd::std_specs::hash::group_hash_axioms};

/// An image of the host that a flow may show. The host knows which of its
/// assets this is.
#[derive(Clone, Debug)]
pub struct Neon3ExternalImage {
    pub image_id: String,
    /// The part of the image to show, in its own texels: x, y, width, height.
    pub source_region: Option<[u32; 4]>,
    /// The fingerprint of what the renderer holds.
    pub uploaded_fingerprint: Option<u64>,
    /// The fingerprint of what is on its way.
    pub pending_fingerprint: Option<u64>,
    pub upload_in_flight: bool,
}

impl Neon3ExternalImage {
    /// A whole image that was not uploaded yet.
    pub fn new(image_id: String) -> (r: Self)
        ensures
            r == (Neon3ExternalImage {
                image_id,
                source_region: None,
                uploaded_fingerprint: None,
                pending_fingerprint: None,
                upload_in_flight: false,
            }),
    {
        Neon3ExternalImage {
            image_id,
            source_region: None,
            uploaded_fingerprint: None,
            pending_fingerprint: None,
            upload_in_flight: false,
        }
    }

    /// The same image with only a part of it shown.
    pub fn with_region(self, region: [u32; 4]) -> (r: Self)
        ensures
            r == (Neon3ExternalImage { source_region: Some(region), ..self }),
    {
        let mut image = self;
        image.source_region = Some(region);
        image
    }

    /// Notes how the upload on its way was answered. Only an accepted one is
    /// resident afterwards.
    pub fn upload_answered(&mut self, accepted: bool)
        ensures
            *final(self) == (Neon3ExternalImage {
                uploaded_fingerprint: if accepted {
                    old(self).pending_fingerprint
                } else {
                    old(self).uploaded_fingerprint
                },
                pending_fingerprint: None,
                upload_in_flight: false,
                ..*old(self)
            }),
            *final(self) == upload_ended(*old(self), accepted),
    {
        if accepted {
            self.uploaded_fingerprint = self.pending_fingerprint;
        }
        self.pending_fingerprint = None;
        self.upload_in_flight = false;
    }
}

/// The uploads of the host.
pub struct Neon3ImageUploadState {
    pub next_sequence: u64,
    /// Which entity the request of that identity belongs to.
    pub pending: StringHashMap<u64>,
}

impl Default for Neon3ImageUploadState {
    fn default() -> (r: Self)
        ensures
            r.next_sequence == 0,
            r.pending@ == Map::<Seq<char>, u64>::empty(),
    {
        Neon3ImageUploadState { next_sequence: 0, pending: StringHashMap::new() }
    }
}

impl Neon3ImageUploadState {
    /// Hands out the entity that a request belongs to and forgets the request.
    pub fn take_pending(&mut self, request_id: &str) -> (r: Option<u64>)
        ensures
            final(self).next_sequence == old(self).next_sequence,
            final(self).pending@ == old(self).pending@.remove(request_id@),
            r == if old(self).pending@.contains_key(request_id@) {
                Some(old(self).pending@[request_id@])
            } else {
                None
            },
    {
        let entity = match self.pending.get(request_id) {
            Some(entity) => Some(*entity),
            None => None,
        };
        self.pending.remove(request_id);
        entity
    }
}

/// The JSON form of an upload.
pub open spec fn upload_json(source: ImageSourceView) -> json::JsonView {
    json::JsonView::Members(
        map![
            "source"@ => json::JsonView::Members(
                map![
                    "image_id"@ => json::JsonView::Text(source.image_id),
                    "media_type"@ => json::JsonView::Text(source.media_type),
                    "width"@ => json::json_number(source.width as u64),
                    "height"@ => json::json_number(source.height as u64),
                    "bytes"@ => json::JsonView::Items(
                        source.bytes.map_values(|b: u8| json::json_number(b as u64)),
                    ),
                ],
            ),
        ],
    )
}

/// Calls `serde_json::to_value` on a `neon_protocol::UiImageUploadRequest`. The
/// type holds texts, integers and a list of those alone, so the call succeeds
/// and writes every field under its name.
#[verifier::external_body]
fn encode_image_upload(source: UiImageSource) -> (r: serde_json::Value)
    ensures
        json::json_view(r) == upload_json(source@),
{
    let source = neon_protocol::UiImageSource {
        image_id: source.image_id,
        media_type: source.media_type,
        width: source.width,
        height: source.height,
        bytes: source.bytes,
    };
    serde_json::to_value(neon_protocol::UiImageUploadRequest { source }).unwrap_or_default()
}

/// What has to be uploaded for an image, if anything. A resident image is left
/// alone until its asset changes, and so is one whose upload is on its way.
pub open spec fn upload_due(
    external: Neon3ExternalImage,
    asset_changed: bool,
    asset: Option<SourceImage>,
) -> Option<ImageSourceView> {
    if external.upload_in_flight || (external.uploaded_fingerprint is Some && !asset_changed) {
        None
    } else {
        match asset {
            Some(source) => image::image_source(
                external.image_id@,
                source,
                external.source_region,
            ),
            None => None,
        }
    }
}

/// The fingerprint of image bytes.
pub open spec fn fingerprint_of(bytes: Seq<u8>) -> u64 {
    frames::hash_words(frames::HASH_BASIS, frames::byte_words(bytes))
}

/// The request identity of the `n`-th upload.
pub open spec fn upload_id(n: u64) -> Seq<char> {
    "bevy-image-upload-"@ + text::decimal(n as nat)
}

/// An upload that is ready to leave, with what is worth reporting about it.
pub struct ImageUpload {
    pub request: TransportRequest,
    pub request_id: String,
    pub fingerprint: u64,
    pub width: u32,
    pub height: u32,
    pub byte_count: usize,
    pub visible_texels: usize,
    pub greatest_alpha: u8,
}

/// Builds the upload that is due for an image, if one is. The caller reports by
/// `upload_sent` that it left.
pub fn plan_image_upload(
    external: &mut Neon3ExternalImage,
    asset_changed: bool,
    asset: Option<SourceImage>,
    session: &Neon3Session,
    state: &mut Neon3ImageUploadState,
    pid: u32,
) -> (r: Option<ImageUpload>)
    ensures
        *final(external) == (Neon3ExternalImage {
            uploaded_fingerprint: if asset_changed {
                None
            } else {
                old(external).uploaded_fingerprint
            },
            ..*old(external)
        }),
        *final(external) == change_noted(*old(external), asset_changed),
        final(state).pending == old(state).pending,
        r is Some <==> upload_due(*old(external), asset_changed, asset) is Some,
        r is None ==> final(state).next_sequence == old(state).next_sequence,
        r matches Some(upload) ==> ({
            let source = upload_due(*old(external), asset_changed, asset)->0;
            let id = upload_id(final(state).next_sequence);
            &&& final(state).next_sequence == flow::next_sequence(old(state).next_sequence)
            &&& upload.request_id@ == id
            &&& upload.request@ == request::ui_request(
                *session,
                pid,
                id,
                "ui.image.upload"@,
                ParamsView::Json(upload_json(source)),
            )
            &&& upload.fingerprint == fingerprint_of(source.bytes)
            &&& upload.width == source.width
            &&& upload.height == source.height
            &&& upload.byte_count == source.bytes.len()
            &&& upload.visible_texels == image::count_nonzero(image::alphas(source.bytes))
            &&& upload.greatest_alpha == image::greatest(image::alphas(source.bytes))
        }),
{
    if asset_changed {
        external.uploaded_fingerprint = None;
    }
    if external.upload_in_flight {
        return None;
    }
    if external.uploaded_fingerprint.is_some() {
        return None;
    }
    let asset = match asset {
        Some(asset) => asset,
        None => {
            return None;
        },
    };
    let source = match image::neon3_image_source_with_region(
        external.image_id.clone(),
        &asset,
        external.source_region,
    ) {
        Some(source) => source,
        None => {
            return None;
        },
    };
    let fingerprint: u64 = frames::hash_bytes(frames::HASH_BASIS, source.bytes.as_slice());
    let (visible_texels, greatest_alpha) = image::alpha_summary(source.bytes.as_slice());
    state.next_sequence = state.next_sequence.saturating_add(1);
    let request_id = "bevy-image-upload-".to_owned().concat(
        text::decimal_text(state.next_sequence).as_str(),
    );
    let (width, height) = (source.width, source.height);
    let byte_count: usize = source.bytes.len();
    let request = request::request_to_ui(
        request_id.clone(),
        "ui.image.upload",
        session,
        pid,
        RequestParams::Json(encode_image_upload(source)),
    );
    Some(
        ImageUpload {
            request,
            request_id,
            fingerprint,
            width,
            height,
            byte_count,
            visible_texels,
            greatest_alpha,
        },
    )
}

/// Notes that an upload left.
pub fn upload_sent(
    external: &mut Neon3ExternalImage,
    state: &mut Neon3ImageUploadState,
    request_id: String,
    fingerprint: u64,
    entity: u64,
)
    ensures
        *final(external) == (Neon3ExternalImage {
            pending_fingerprint: Some(fingerprint),
            upload_in_flight: true,
            ..*old(external)
        }),
        *final(external) == upload_begun(*old(external), fingerprint),
        final(state).next_sequence == old(state).next_sequence,
        final(state).pending@ == old(state).pending@.insert(request_id@, entity),
{
    external.pending_fingerprint = Some(fingerprint);
    external.upload_in_flight = true;
    state.pending.insert(request_id, entity);
}

/// An image once it was looked at in an update: where its asset changed, what is
/// resident no longer counts.
pub open spec fn change_noted(
    external: Neon3ExternalImage,
    asset_changed: bool,
) -> Neon3ExternalImage {
    Neon3ExternalImage {
        uploaded_fingerprint: if asset_changed {
            None
        } else {
            external.uploaded_fingerprint
        },
        ..external
    }
}

/// An image once its upload left.
pub open spec fn upload_begun(
    external: Neon3ExternalImage,
    fingerprint: u64,
) -> Neon3ExternalImage {
    Neon3ExternalImage {
        pending_fingerprint: Some(fingerprint),
        upload_in_flight: true,
        ..external
    }
}

/// An image once its upload was answered.
pub open spec fn upload_ended(external: Neon3ExternalImage, accepted: bool) -> Neon3ExternalImage {
    Neon3ExternalImage {
        uploaded_fingerprint: if accepted {
            external.pending_fingerprint
        } else {
            external.uploaded_fingerprint
        },
        pending_fingerprint: None,
        upload_in_flight: false,
        ..external
    }
}

/// An accepted upload is not repeated until the asset changes.
pub proof fn law_resident_image_is_left_alone(
    external: Neon3ExternalImage,
    asset: Option<SourceImage>,
)
    requires
        external.uploaded_fingerprint is Some,
    ensures
        upload_due(external, false, asset) is None,
{
}

// ---------------------------------------------------------------------------
// Flow sources
// ---------------------------------------------------------------------------

/// Which of the configured flow sources were submitted.
pub struct Neon3FlowSubmissionState {
    pub submitted: HashSet<usize>,
}

impl Default for Neon3FlowSubmissionState {
    fn default() -> (r: Self)
        ensures
            r.submitted@ == Set::<usize>::empty(),
    {
        Neon3FlowSubmissionState { submitted: HashSet::new() }
    }
}

impl Neon3FlowSubmissionState {
    /// Notes that the source at that place was submitted.
    pub fn source_sent(&mut self, index: usize)
        ensures
            final(self).submitted@ == old(self).submitted@.insert(index),
    {
        self.submitted.insert(index);
    }
}

/// Whether the renderer holds all images.
pub open spec fn all_resident(images: Seq<&Neon3ExternalImage>) -> bool {
    forall|i: int|
        0 <= i < images.len() ==> (#[trigger] images[i]).uploaded_fingerprint is Some
}

/// Whether the renderer holds all images.
pub fn images_are_resident(images: &[&Neon3ExternalImage]) -> (r: bool)
    ensures
        r == all_resident(images@),
{
    let mut i: usize = 0;
    while i < images.len()
        invariant
            i <= images.len(),
            forall|k: int|
                0 <= k < i ==> (#[trigger] images@[k]).uploaded_fingerprint is Some,
        decreases images.len() - i,
    {
        if images[i].uploaded_fingerprint.is_none() {
            assert(images@[i as int].uploaded_fingerprint is None);
            return false;
        }
        i += 1;
    }
    true
}

/// Whether a source is to be submitted now. One that names a resource waits
/// until all images are resident.
pub open spec fn source_due(
    source: Seq<char>,
    index: int,
    submitted: Set<usize>,
    images_ready: bool,
) -> bool {
    &&& !submitted.contains(index as usize)
    &&& text::has_part(source, "resource "@) ==> images_ready
}

/// The request for a source.
pub open spec fn source_call(
    session: Neon3Session,
    pid: u32,
    source: Seq<char>,
    index: int,
) -> TransportView {
    request::ui_request(
        session,
        pid,
        "bevy-flow-source-"@ + text::decimal(index as nat),
        "ui.flow.submit"@,
        ParamsView::Json(
            json::JsonView::Members(map!["source"@ => json::JsonView::Text(source)]),
        ),
    )
}

/// The requests for the first `count` sources, with their places.
pub open spec fn source_calls(
    session: Neon3Session,
    pid: u32,
    submitted: Set<usize>,
    images_ready: bool,
    count: int,
) -> Seq<(usize, TransportView)>
    decreases count,
{
    if count <= 0 {
        Seq::empty()
    } else {
        let earlier = source_calls(session, pid, submitted, images_ready, count - 1);
        let source = session.config.ui_sources@[count - 1]@;
        if source_due(source, count - 1, submitted, images_ready) {
            earlier.push(((count - 1) as usize, source_call(session, pid, source, count - 1)))
        } else {
            earlier
        }
    }
}

/// A flow source that is ready to leave.
pub struct FlowSubmission {
    pub index: usize,
    pub request: TransportRequest,
}

/// A list of submissions by what they hold.
pub open spec fn submissions_view(submissions: Seq<FlowSubmission>) -> Seq<(usize, TransportView)> {
    submissions.map_values(|s: FlowSubmission| (s.index, s.request@))
}

/// Builds the requests for the flow sources that are due. The caller reports by
/// `source_sent` which of them left.
pub fn submit_flow_source(
    session: &Neon3Session,
    images: &[&Neon3ExternalImage],
    state: &Neon3FlowSubmissionState,
    pid: u32,
) -> (r: Vec<FlowSubmission>)
    ensures
        submissions_view(r@) == source_calls(
            *session,
            pid,
            state.submitted@,
            all_resident(images@),
            session.config.ui_sources@.len() as int,
        ),
{
    let images_ready = images_are_resident(images);
    let mut r: Vec<FlowSubmission> = Vec::new();
    let mut index: usize = 0;
    assert(submissions_view(r@) =~= Seq::<(usize, TransportView)>::empty());
    while index < session.config.ui_sources.len()
        invariant
            index <= session.config.ui_sources.len(),
            images_ready == all_resident(images@),
            submissions_view(r@) == source_calls(
                *session,
                pid,
                state.submitted@,
                images_ready,
                index as int,
            ),
        decreases session.config.ui_sources.len() - index,
    {
        let source = &session.config.ui_sources[index];
        let waits = text::contains_text(source.as_str(), "resource ") && !images_ready;
        if !state.submitted.contains(&index) && !waits {
            let ghost before = r@;
            let mut params = json::json_object();
            json::json_set(&mut params, "source", json::json_text(source.clone()));
            let request = request::request_to_ui(
                "bevy-flow-source-".to_owned().concat(
                    text::decimal_text(index as u64).as_str(),
                ),
                "ui.flow.submit",
                session,
                pid,
                RequestParams::Json(params),
            );
            r.push(FlowSubmission { index, request });
            assert(submissions_view(r@) =~= submissions_view(before).push((index, request@)));
        }
        index += 1;
    }
    r
}

/// A source that was submitted is not submitted again.
pub proof fn law_source_is_submitted_once(
    session: Neon3Session,
    pid: u32,
    submitted: Set<usize>,
    images_ready: bool,
    count: int,
    place: int,
)
    requires
        0 <= count <= session.config.ui_sources@.len(),
        0 <= place < source_calls(session, pid, submitted, images_ready, count).len(),
    ensures
        !submitted.contains(
            source_calls(session, pid, submitted, images_ready, count)[place].0,
        ),
    decreases count,
{
    if count > 0 {
        let earlier = source_calls(session, pid, submitted, images_ready, count - 1);
        if place < earlier.len() {
            law_source_is_submitted_once(
                session,
                pid,
                submitted,
                images_ready,
                count - 1,
                place,
            );
        }
    }
}

/// An image is uploaded exactly where no upload of it is on its way, it is not
/// resident or its asset changed, and the asset is there and can be handed over;
/// and then as what is handed over of the asset under the name of the image and in
/// its region.
pub proof fn law_image_is_uploaded_when_it_is_due(
    external: Neon3ExternalImage,
    asset_changed: bool,
    asset: Option<SourceImage>,
)
    ensures
        ({
            let due = upload_due(external, asset_changed, asset);
            let source = image::image_source(external.image_id@, asset->0, external.source_region);
            &&& due is Some <==> {
                &&& !external.upload_in_flight
                &&& external.uploaded_fingerprint is None || asset_changed
                &&& asset is Some
                &&& source is Some
            }
            &&& due is Some ==> due == source
        }),
{
}

/// While an upload is on its way, no other is made. Accepted, it is resident under
/// its fingerprint and left alone until the asset changes; refused, it leaves what
/// was resident, and where nothing was it is due again.
pub proof fn law_upload_ends_resident_or_due(
    external: Neon3ExternalImage,
    fingerprint: u64,
    asset_changed: bool,
    asset: Option<SourceImage>,
)
    requires
        !external.upload_in_flight,
    ensures
        ({
            let sent = upload_begun(external, fingerprint);
            let accepted = upload_ended(sent, true);
            let refused = upload_ended(sent, false);
            &&& upload_due(sent, asset_changed, asset) is None
            &&& accepted.uploaded_fingerprint == Some(fingerprint)
            &&& upload_due(accepted, false, asset) is None
            &&& refused.uploaded_fingerprint == external.uploaded_fingerprint
            &&& upload_due(refused, asset_changed, asset) == upload_due(
                external,
                asset_changed,
                asset,
            )
            &&& !accepted.upload_in_flight && !refused.upload_in_flight
            &&& accepted.pending_fingerprint is None && refused.pending_fingerprint is None
            &&& sent.image_id == external.image_id && sent.source_region == external.source_region
            &&& accepted.image_id == external.image_id && accepted.source_region
                == external.source_region
            &&& refused.image_id == external.image_id && refused.source_region
                == external.source_region
        }),
{
}

/// An upload carries the image whole: its name, its kind, its size and its bytes in
/// their order.
pub proof fn law_upload_carries_the_image(source: ImageSourceView, i: int)
    requires
        0 <= i < source.bytes.len(),
    ensures
        ({
            let sent = upload_json(source).member("source"@);
            let bytes = sent->0.member("bytes"@);
            &&& sent is Some
            &&& sent->0.text_member("image_id"@) == Some(source.image_id)
            &&& sent->0.text_member("media_type"@) == Some(source.media_type)
            &&& sent->0.natural_member("width"@) == Some(source.width as u64)
            &&& sent->0.natural_member("height"@) == Some(source.height as u64)
            &&& bytes is Some && bytes->0 is Items
            &&& bytes->0->Items_0.len() == source.bytes.len()
            &&& bytes->0->Items_0[i].natural() == Some(source.bytes[i] as u64)
        }),
{
    reveal_strlit("image_id");
    reveal_strlit("media_type");
    reveal_strlit("width");
    reveal_strlit("height");
    reveal_strlit("bytes");
    assert("image_id"@.len() == 8 && "media_type"@.len() == 10 && "height"@.len() == 6);
    assert("width"@.len() == 5 && "width"@[0] == 'w' && "bytes"@[0] == 'b');
}

/// The fingerprint takes every byte in, in order: one more byte is mixed in by
/// exclusive or and multiplied in, modulo the range of the fingerprint.
pub proof fn law_fingerprint_takes_every_byte(bytes: Seq<u8>, byte: u8)
    ensures
        fingerprint_of(Seq::empty()) == 0xcbf2_9ce4_8422_2325,
        fingerprint_of(bytes.push(byte)) == ((fingerprint_of(bytes) ^ (byte as u64)) as int
            * 0x100000001b3) % 0x1_0000_0000_0000_0000,
{
    assert(frames::byte_words(Seq::<u8>::empty()) =~= Seq::empty());
    assert(frames::byte_words(bytes.push(byte)) =~= frames::byte_words(bytes).push(byte as u64));
    frames::law_hash_mixes_every_word(
        frames::HASH_BASIS,
        frames::byte_words(bytes),
        byte as u64,
    );
}

/// Uploads of different numbers have different names.
pub proof fn law_uploads_have_names_of_their_own(m: u64, n: u64)
    requires
        upload_id(m) == upload_id(n),
    ensures
        m == n,
{
    let front = "bevy-image-upload-"@;
    let (x, y) = (text::decimal(m as nat), text::decimal(n as nat));
    assert((front + x).skip(front.len() as int) =~= x);
    assert((front + y).skip(front.len() as int) =~= y);
    text::law_decimals_differ(m as nat, n as nat);
}

/// A source goes out exactly where it was not submitted yet and, where it names a
/// resource, all images are resident; under its place, whole, and earlier sources
/// first.
pub proof fn law_due_sources_go_out(
    session: Neon3Session,
    pid: u32,
    submitted: Set<usize>,
    images_ready: bool,
    count: int,
    i: int,
)
    requires
        0 <= i < count <= session.config.ui_sources@.len(),
        session.config.ui_sources@.len() <= usize::MAX,
    ensures
        ({
            let calls = source_calls(session, pid, submitted, images_ready, count);
            let source = session.config.ui_sources@[i]@;
            let due = !submitted.contains(i as usize) && (images_ready || !text::has_part(
                source,
                "resource "@,
            ));
            &&& due <==> exists|k: int| 0 <= k < calls.len() && (#[trigger] calls[k]).0 == i
            &&& forall|k: int|
                0 <= k < calls.len() && (#[trigger] calls[k]).0 == i ==> {
                    let request = calls[k].1.request;
                    &&& request.request_id == "bevy-flow-source-"@ + text::decimal(i as nat)
                    &&& request.method == "ui.flow.submit"@
                    &&& request.params is Json
                    &&& request.params->Json_0.text_member("source"@) == Some(source)
                }
            &&& forall|k: int, l: int|
                0 <= k < l < calls.len() ==> (#[trigger] calls[k]).0 < (#[trigger] calls[l]).0
            &&& forall|k: int| 0 <= k < calls.len() ==> (#[trigger] calls[k]).0 < count
        }),
    decreases count,
{
    let calls = source_calls(session, pid, submitted, images_ready, count);
    let earlier = source_calls(session, pid, submitted, images_ready, count - 1);
    let at = count - 1;
    if at > 0 {
        let j = if i < at {
            i
        } else {
            0
        };
        law_due_sources_go_out(session, pid, submitted, images_ready, at, j);
    }
    assert forall|k: int| 0 <= k < earlier.len() implies calls[k] == earlier[k] by {}
    if i < at {
        if exists|k: int| 0 <= k < earlier.len() && (#[trigger] earlier[k]).0 == i {
            let k = choose|k: int| 0 <= k < earlier.len() && (#[trigger] earlier[k]).0 == i;
            assert(calls[k].0 == i);
        }
        if exists|k: int| 0 <= k < calls.len() && (#[trigger] calls[k]).0 == i {
            let k = choose|k: int| 0 <= k < calls.len() && (#[trigger] calls[k]).0 == i;
            assert(k < earlier.len());
            assert(earlier[k].0 == i);
        }
        assert forall|k: int| 0 <= k < calls.len() && (#[trigger] calls[k]).0 == i implies k
            < earlier.len() && calls[k] == earlier[k] by {
            if k >= earlier.len() {
                assert(calls[k].0 == at);
            }
        }
    } else {
        assert forall|k: int| 0 <= k < earlier.len() implies (#[trigger] earlier[k]).0
            < at by {}
        if calls.len() > earlier.len() {
            assert(calls[earlier.len() as int].0 == at);
        }
    }
}

/// A change that comes while nothing can be handed over is not forgotten: the image
/// is due in the next update in which it can be, changed again or not. Without a
/// change an update leaves the image as it is.
pub proof fn law_change_is_remembered(
    external: Neon3ExternalImage,
    asset_changed: bool,
    asset: Option<SourceImage>,
)
    ensures
        upload_due(change_noted(external, true), false, asset) == upload_due(external, true, asset),
        upload_due(change_noted(external, true), true, asset) == upload_due(external, true, asset),
        change_noted(external, false) == external,
        change_noted(external, asset_changed).image_id == external.image_id,
        change_noted(external, asset_changed).source_region == external.source_region,
        change_noted(external, asset_changed).upload_in_flight == external.upload_in_flight,
        change_noted(external, asset_changed).pending_fingerprint == external.pending_fingerprint,
{
}

/// One more image keeps the images resident exactly where it is resident itself.
pub proof fn law_every_image_must_be_resident(
    images: Seq<&Neon3ExternalImage>,
    one: &Neon3ExternalImage,
)
    ensures
        all_resident(Seq::empty()),
        all_resident(images.push(one)) <==> all_resident(images) && one.uploaded_fingerprint
            is Some,
{
    let more = images.push(one);
    if all_resident(more) {
        assert forall|i: int| 0 <= i < images.len() implies (
        #[trigger] images[i]).uploaded_fingerprint is Some by {
            assert(more[i] == images[i]);
        }
        assert(more[images.len() as int].uploaded_fingerprint is Some);
    }
}

} // verus!
