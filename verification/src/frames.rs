//! Camera frames and anchor batches: the world data that the host publishes.

use vstd::prelude::*;
use vstd::string::*;
use vstd::utf8::encode_utf8;

use crate::order;
use crate::order::{KeyText, TextKeyed};
use crate::scalar::{Scalar32, Scalar64};
use crate::text;

verus! {

broadcast use vstd::string::group_string_axioms;

/// A coordinate in double precision, together with the bits of its value
/// rounded to single precision.
#[derive(Clone, Copy, Debug, PartialEq)]
pub struct WorldCoordinate {
    pub wide: Scalar64,
    pub narrow_bits: u32,
}

/// Where a camera stands and how it projects.
#[derive(Clone, Copy, Debug, PartialEq)]
pub enum CameraFramePayload {
    TwoDimensional { center: [Scalar64; 2], rotation_radians: Scalar32, zoom: Scalar32 },
    ThreeDimensional {
        position: [WorldCoordinate; 3],
        orientation: [Scalar32; 4],
        vertical_fov_radians: Scalar32,
        near: Scalar32,
        far: Scalar32,
    },
}

/// One camera sample.
#[derive(Debug, PartialEq)]
pub struct CameraFrame {
    pub camera_id: String,
    pub world_space_id: String,
    pub producer_epoch: u64,
    pub sequence: u64,
    pub timestamp_monotonic_ns: u64,
    pub payload: CameraFramePayload,
}

/// One world anchor with its placement on the screen.
#[derive(Debug, PartialEq)]
pub struct WorldUiAnchorSample {
    pub anchor_id: String,
    pub position: [Scalar64; 3],
    pub billboard: bool,
    pub occlusion: String,
    pub screen_x: Scalar32,
    pub screen_y: Scalar32,
    pub view_distance: Scalar32,
}

/// All world anchors of one host frame.
#[derive(Debug, PartialEq)]
pub struct WorldUiAnchorBatch {
    pub world_space_id: String,
    pub producer_epoch: u64,
    pub sequence: u64,
    pub timestamp_monotonic_ns: u64,
    pub anchors: Vec<WorldUiAnchorSample>,
}

/// What a camera frame holds.
pub struct CameraFrameView {
    pub camera_id: Seq<char>,
    pub world_space_id: Seq<char>,
    pub producer_epoch: u64,
    pub sequence: u64,
    pub timestamp_monotonic_ns: u64,
    pub payload: CameraFramePayload,
}

/// What an anchor sample holds.
pub struct AnchorView {
    pub anchor_id: Seq<char>,
    pub position: Seq<Scalar64>,
    pub billboard: bool,
    pub occlusion: Seq<char>,
    pub screen_x: Scalar32,
    pub screen_y: Scalar32,
    pub view_distance: Scalar32,
}

/// What an anchor batch holds.
pub struct AnchorBatchView {
    pub world_space_id: Seq<char>,
    pub producer_epoch: u64,
    pub sequence: u64,
    pub timestamp_monotonic_ns: u64,
    pub anchors: Seq<AnchorView>,
}

impl View for CameraFrame {
    type V = CameraFrameView;

    open spec fn view(&self) -> CameraFrameView {
        CameraFrameView {
            camera_id: self.camera_id@,
            world_space_id: self.world_space_id@,
            producer_epoch: self.producer_epoch,
            sequence: self.sequence,
            timestamp_monotonic_ns: self.timestamp_monotonic_ns,
            payload: self.payload,
        }
    }
}

impl View for WorldUiAnchorSample {
    type V = AnchorView;

    open spec fn view(&self) -> AnchorView {
        AnchorView {
            anchor_id: self.anchor_id@,
            position: self.position@,
            billboard: self.billboard,
            occlusion: self.occlusion@,
            screen_x: self.screen_x,
            screen_y: self.screen_y,
            view_distance: self.view_distance,
        }
    }
}

/// A list of anchor samples by what they hold.
pub open spec fn anchors_view(anchors: Seq<WorldUiAnchorSample>) -> Seq<AnchorView> {
    anchors.map_values(|a: WorldUiAnchorSample| a@)
}

impl View for WorldUiAnchorBatch {
    type V = AnchorBatchView;

    open spec fn view(&self) -> AnchorBatchView {
        AnchorBatchView {
            world_space_id: self.world_space_id@,
            producer_epoch: self.producer_epoch,
            sequence: self.sequence,
            timestamp_monotonic_ns: self.timestamp_monotonic_ns,
            anchors: anchors_view(self.anchors@),
        }
    }
}

impl Clone for CameraFrame {
    fn clone(&self) -> (r: Self)
        ensures
            r == *self,
    {
        CameraFrame {
            camera_id: self.camera_id.clone(),
            world_space_id: self.world_space_id.clone(),
            producer_epoch: self.producer_epoch,
            sequence: self.sequence,
            timestamp_monotonic_ns: self.timestamp_monotonic_ns,
            payload: self.payload,
        }
    }
}

impl Clone for WorldUiAnchorSample {
    fn clone(&self) -> (r: Self)
        ensures
            r == *self,
    {
        WorldUiAnchorSample {
            anchor_id: self.anchor_id.clone(),
            position: self.position,
            billboard: self.billboard,
            occlusion: self.occlusion.clone(),
            screen_x: self.screen_x,
            screen_y: self.screen_y,
            view_distance: self.view_distance,
        }
    }
}

impl Clone for WorldUiAnchorBatch {
    fn clone(&self) -> (r: Self)
        ensures
            r@ == self@,
            r.anchors@ == self.anchors@,
    {
        let anchors = self.anchors.clone();
        assert(anchors@ =~= self.anchors@);
        WorldUiAnchorBatch {
            world_space_id: self.world_space_id.clone(),
            producer_epoch: self.producer_epoch,
            sequence: self.sequence,
            timestamp_monotonic_ns: self.timestamp_monotonic_ns,
            anchors,
        }
    }
}

// ---------------------------------------------------------------------------
// Comparison
// ---------------------------------------------------------------------------

/// Numeric equality of two payloads of the same kind.
pub open spec fn same_payload(a: CameraFramePayload, b: CameraFramePayload) -> bool {
    match (a, b) {
        (
            CameraFramePayload::TwoDimensional { center: c, rotation_radians: r, zoom: z },
            CameraFramePayload::TwoDimensional { center: d, rotation_radians: s, zoom: y },
        ) => {
            &&& c[0].same_number(d[0])
            &&& c[1].same_number(d[1])
            &&& r.same_number(s)
            &&& z.same_number(y)
        },
        (
            CameraFramePayload::ThreeDimensional {
                position: p,
                orientation: o,
                vertical_fov_radians: v,
                near: n,
                far: f,
            },
            CameraFramePayload::ThreeDimensional {
                position: q,
                orientation: u,
                vertical_fov_radians: w,
                near: m,
                far: g,
            },
        ) => {
            &&& p[0].wide.same_number(q[0].wide)
            &&& p[1].wide.same_number(q[1].wide)
            &&& p[2].wide.same_number(q[2].wide)
            &&& o[0].same_number(u[0])
            &&& o[1].same_number(u[1])
            &&& o[2].same_number(u[2])
            &&& o[3].same_number(u[3])
            &&& v.same_number(w)
            &&& n.same_number(m)
            &&& f.same_number(g)
        },
        _ => false,
    }
}

/// Whether two frames show the same camera state. When and in which order they
/// were taken does not matter.
pub open spec fn same_camera(a: CameraFrameView, b: CameraFrameView) -> bool {
    &&& a.camera_id == b.camera_id
    &&& a.world_space_id == b.world_space_id
    &&& a.producer_epoch == b.producer_epoch
    &&& same_payload(a.payload, b.payload)
}

/// Equality of two anchor samples, with floating point content compared as
/// numbers.
pub open spec fn same_anchor(a: AnchorView, b: AnchorView) -> bool {
    &&& a.anchor_id == b.anchor_id
    &&& a.position[0].same_number(b.position[0])
    &&& a.position[1].same_number(b.position[1])
    &&& a.position[2].same_number(b.position[2])
    &&& a.billboard == b.billboard
    &&& a.occlusion == b.occlusion
    &&& a.screen_x.same_number(b.screen_x)
    &&& a.screen_y.same_number(b.screen_y)
    &&& a.view_distance.same_number(b.view_distance)
}

/// Whether two batches show the same anchors in the same order. When and in
/// which order they were taken does not matter.
pub open spec fn same_anchors(a: AnchorBatchView, b: AnchorBatchView) -> bool {
    &&& a.world_space_id == b.world_space_id
    &&& a.producer_epoch == b.producer_epoch
    &&& a.anchors.len() == b.anchors.len()
    &&& forall|i: int|
        0 <= i < a.anchors.len() ==> same_anchor(#[trigger] a.anchors[i], b.anchors[i])
}

fn payload_equals(a: &CameraFramePayload, b: &CameraFramePayload) -> (r: bool)
    ensures
        r == same_payload(*a, *b),
{
    match (a, b) {
        (
            CameraFramePayload::TwoDimensional { center: c, rotation_radians: r, zoom: z },
            CameraFramePayload::TwoDimensional { center: d, rotation_radians: s, zoom: y },
        ) => c[0].equals(d[0]) && c[1].equals(d[1]) && r.equals(*s) && z.equals(*y),
        (
            CameraFramePayload::ThreeDimensional {
                position: p,
                orientation: o,
                vertical_fov_radians: v,
                near: n,
                far: f,
            },
            CameraFramePayload::ThreeDimensional {
                position: q,
                orientation: u,
                vertical_fov_radians: w,
                near: m,
                far: g,
            },
        ) => p[0].wide.equals(q[0].wide) && p[1].wide.equals(q[1].wide) && p[2].wide.equals(
            q[2].wide,
        ) && o[0].equals(u[0]) && o[1].equals(u[1]) && o[2].equals(u[2]) && o[3].equals(u[3])
            && v.equals(*w) && n.equals(*m) && f.equals(*g),
        _ => false,
    }
}

/// Whether two frames show the same camera state.
pub fn same_camera_frame(left: &CameraFrame, right: &CameraFrame) -> (r: bool)
    ensures
        r == same_camera(left@, right@),
{
    text::same_text(left.camera_id.as_str(), right.camera_id.as_str()) && text::same_text(
        left.world_space_id.as_str(),
        right.world_space_id.as_str(),
    ) && left.producer_epoch == right.producer_epoch && payload_equals(
        &left.payload,
        &right.payload,
    )
}

fn anchor_equals(a: &WorldUiAnchorSample, b: &WorldUiAnchorSample) -> (r: bool)
    ensures
        r == same_anchor(a@, b@),
{
    text::same_text(a.anchor_id.as_str(), b.anchor_id.as_str()) && a.position[0].equals(
        b.position[0],
    ) && a.position[1].equals(b.position[1]) && a.position[2].equals(b.position[2]) && a.billboard
        == b.billboard && text::same_text(a.occlusion.as_str(), b.occlusion.as_str())
        && a.screen_x.equals(b.screen_x) && a.screen_y.equals(b.screen_y)
        && a.view_distance.equals(b.view_distance)
}

/// Whether two batches show the same anchors in the same order.
pub fn same_anchor_batch(left: &WorldUiAnchorBatch, right: &WorldUiAnchorBatch) -> (r: bool)
    ensures
        r == same_anchors(left@, right@),
{
    if !text::same_text(left.world_space_id.as_str(), right.world_space_id.as_str())
        || left.producer_epoch != right.producer_epoch || left.anchors.len()
        != right.anchors.len() {
        return false;
    }
    let mut i: usize = 0;
    while i < left.anchors.len()
        invariant
            i <= left.anchors.len(),
            left.anchors.len() == right.anchors.len(),
            forall|k: int|
                0 <= k < i ==> same_anchor(#[trigger] left@.anchors[k], right@.anchors[k]),
        decreases left.anchors.len() - i,
    {
        assert(left@.anchors[i as int] == left.anchors[i as int]@);
        assert(right@.anchors[i as int] == right.anchors[i as int]@);
        if !anchor_equals(&left.anchors[i], &right.anchors[i]) {
            assert(!same_anchor(left@.anchors[i as int], right@.anchors[i as int]));
            return false;
        }
        i += 1;
    }
    true
}

/// Two frames with depth show the same camera state exactly where they name the
/// same camera, world and epoch, and agree in every component of the position
/// and the orientation, in the field of view and in both distances.
pub proof fn law_same_camera_agrees_in_every_component(a: CameraFrameView, b: CameraFrameView)
    requires
        a.payload is ThreeDimensional,
    ensures
        same_camera(a, b) <==> {
            &&& a.camera_id == b.camera_id
            &&& a.world_space_id == b.world_space_id
            &&& a.producer_epoch == b.producer_epoch
            &&& b.payload is ThreeDimensional
            &&& forall|i: int|
                0 <= i < 3 ==> (#[trigger] a.payload->position[i]).wide.same_number(
                    b.payload->position[i].wide,
                )
            &&& forall|i: int|
                0 <= i < 4 ==> (#[trigger] a.payload->orientation[i]).same_number(
                    b.payload->orientation[i],
                )
            &&& a.payload->vertical_fov_radians.same_number(b.payload->vertical_fov_radians)
            &&& a.payload->near.same_number(b.payload->near)
            &&& a.payload->far.same_number(b.payload->far)
        },
{
}

/// Two frames without depth show the same camera state exactly where they name
/// the same camera, world and epoch, and agree in center, rotation and zoom.
pub proof fn law_same_flat_camera_agrees_in_every_component(
    a: CameraFrameView,
    b: CameraFrameView,
)
    requires
        a.payload is TwoDimensional,
    ensures
        same_camera(a, b) <==> {
            &&& a.camera_id == b.camera_id
            &&& a.world_space_id == b.world_space_id
            &&& a.producer_epoch == b.producer_epoch
            &&& b.payload is TwoDimensional
            &&& forall|i: int|
                0 <= i < 2 ==> (#[trigger] a.payload->center[i]).same_number(
                    b.payload->center[i],
                )
            &&& a.payload->rotation_radians.same_number(b.payload->rotation_radians)
            &&& a.payload->zoom.same_number(b.payload->zoom)
        },
{
}

/// Two batches show the same anchors exactly where they name the same world and
/// epoch and list anchors that agree one by one: in identity, in every component
/// of the position, in both flags, in both screen coordinates and in the
/// distance.
pub proof fn law_same_anchors_agree_one_by_one(a: AnchorBatchView, b: AnchorBatchView)
    ensures
        same_anchors(a, b) <==> {
            &&& a.world_space_id == b.world_space_id
            &&& a.producer_epoch == b.producer_epoch
            &&& a.anchors.len() == b.anchors.len()
            &&& forall|i: int|
                0 <= i < a.anchors.len() ==> {
                    &&& (#[trigger] a.anchors[i]).anchor_id == b.anchors[i].anchor_id
                    &&& a.anchors[i].position[0].same_number(b.anchors[i].position[0])
                    &&& a.anchors[i].position[1].same_number(b.anchors[i].position[1])
                    &&& a.anchors[i].position[2].same_number(b.anchors[i].position[2])
                    &&& a.anchors[i].billboard == b.anchors[i].billboard
                    &&& a.anchors[i].occlusion == b.anchors[i].occlusion
                    &&& a.anchors[i].screen_x.same_number(b.anchors[i].screen_x)
                    &&& a.anchors[i].screen_y.same_number(b.anchors[i].screen_y)
                    &&& a.anchors[i].view_distance.same_number(b.anchors[i].view_distance)
                }
        },
{
}

// ---------------------------------------------------------------------------
// Signatures
// ---------------------------------------------------------------------------

/// The start value of a hash.
pub const HASH_BASIS: u64 = 0xcbf29ce484222325;

/// The factor of a hash.
pub const HASH_PRIME: u64 = 0x100000001b3;

/// The hash after one more word.
pub open spec fn hash_step(hash: u64, word: u64) -> u64 {
    (hash ^ word).wrapping_mul(HASH_PRIME)
}

/// The hash after more words.
pub open spec fn hash_words(hash: u64, words: Seq<u64>) -> u64
    decreases words.len(),
{
    if words.len() == 0 {
        hash
    } else {
        hash_step(hash_words(hash, words.drop_last()), words.last())
    }
}

/// Every byte of a byte string as a word.
pub open spec fn byte_words(bytes: Seq<u8>) -> Seq<u64> {
    bytes.map_values(|b: u8| b as u64)
}

/// The words that an anchor adds to the hash of its batch.
pub open spec fn anchor_words(a: AnchorView) -> Seq<u64> {
    byte_words(encode_utf8(a.anchor_id)) + a.position.map_values(|x: Scalar64| x.bits) + seq![
        if a.billboard {
            1u64
        } else {
            0u64
        },
        (encode_utf8(a.occlusion).len() as usize as u32) as u64,
        a.screen_x.bits as u64,
        a.screen_y.bits as u64,
        a.view_distance.bits as u64,
    ] + byte_words(encode_utf8(a.occlusion))
}

/// Each part of an anchor has its own place among the words that it adds: the
/// bytes of its identity, three coordinates, the two flags, the two screen
/// coordinates, the distance, and the bytes of its occlusion.
pub proof fn law_anchor_words_have_places(a: AnchorView)
    requires
        a.position.len() == 3,
    ensures
        ({
            let words = anchor_words(a);
            let id = encode_utf8(a.anchor_id);
            let occlusion = encode_utf8(a.occlusion);
            let n = id.len() as int;
            &&& words.len() == id.len() + 8 + occlusion.len()
            &&& forall|i: int| 0 <= i < n ==> #[trigger] words[i] == id[i]
            &&& forall|i: int| 0 <= i < 3 ==> words[n + i] == (#[trigger] a.position[i]).bits
            &&& (words[n + 3] == 1 <==> a.billboard)
            &&& words[n + 4] == (occlusion.len() as usize as u32) as u64
            &&& words[n + 5] == a.screen_x.bits
            &&& words[n + 6] == a.screen_y.bits
            &&& words[n + 7] == a.view_distance.bits
            &&& forall|i: int|
                0 <= i < occlusion.len() ==> words[n + 8 + i] == #[trigger] occlusion[i]
        }),
{
}

/// One more word is mixed into a hash by exclusive or and multiplied in, modulo
/// the range of the hash. Nothing is mixed in where there is no word.
pub proof fn law_hash_mixes_every_word(hash: u64, words: Seq<u64>, word: u64)
    ensures
        hash_words(hash, Seq::empty()) == hash,
        hash_words(hash, words.push(word)) == ((hash_words(hash, words) ^ word) as int
            * 0x100000001b3) % 0x1_0000_0000_0000_0000,
{
    assert(words.push(word).drop_last() =~= words);
}

/// The words of several anchors, one after another.
pub open spec fn anchors_words(anchors: Seq<AnchorView>) -> Seq<u64>
    decreases anchors.len(),
{
    if anchors.len() == 0 {
        Seq::empty()
    } else {
        anchors_words(anchors.drop_last()) + anchor_words(anchors.last())
    }
}

proof fn lemma_hash_concat(hash: u64, a: Seq<u64>, b: Seq<u64>)
    ensures
        hash_words(hash, a + b) == hash_words(hash_words(hash, a), b),
    decreases b.len(),
{
    if b.len() == 0 {
        assert(a + b =~= a);
    } else {
        assert((a + b).drop_last() =~= a + b.drop_last());
        lemma_hash_concat(hash, a, b.drop_last());
    }
}

/// Adds one word to a hash.
fn hash_word(hash: u64, word: u64) -> (r: u64)
    ensures
        r == hash_step(hash, word),
        r == hash_words(hash, seq![word]),
{
    assert(seq![word].drop_last() =~= Seq::<u64>::empty());
    reveal_with_fuel(hash_words, 2);
    (hash ^ word).wrapping_mul(HASH_PRIME)
}

/// Adds the bytes of a byte string to a hash.
pub fn hash_bytes(hash: u64, bytes: &[u8]) -> (r: u64)
    ensures
        r == hash_words(hash, byte_words(bytes@)),
{
    let mut h: u64 = hash;
    let mut i: usize = 0;
    let ghost words = byte_words(bytes@);
    assert(words.take(0) =~= Seq::<u64>::empty());
    while i < bytes.len()
        invariant
            i <= bytes.len(),
            words == byte_words(bytes@),
            h == hash_words(hash, words.take(i as int)),
        decreases bytes.len() - i,
    {
        assert(words.take(i + 1).drop_last() =~= words.take(i as int));
        h = hash_word(h, bytes[i] as u64);
        i += 1;
    }
    assert(words.take(i as int) =~= words);
    h
}

fn hash_anchor(hash: u64, a: &WorldUiAnchorSample) -> (r: u64)
    ensures
        r == hash_words(hash, anchor_words(a@)),
{
    let h0: u64 = hash_bytes(hash, a.anchor_id.as_str().as_bytes());
    let h1: u64 = hash_word(h0, a.position[0].bits);
    let h2: u64 = hash_word(h1, a.position[1].bits);
    let h3: u64 = hash_word(h2, a.position[2].bits);
    let billboard: u64 = if a.billboard {
        1
    } else {
        0
    };
    let length: u64 = (a.occlusion.as_str().len() as u32) as u64;
    let h4: u64 = hash_word(h3, billboard);
    let h5: u64 = hash_word(h4, length);
    let h6: u64 = hash_word(h5, a.screen_x.bits as u64);
    let h7: u64 = hash_word(h6, a.screen_y.bits as u64);
    let h8: u64 = hash_word(h7, a.view_distance.bits as u64);
    let h9: u64 = hash_bytes(h8, a.occlusion.as_str().as_bytes());
    proof {
        let id = byte_words(encode_utf8(a@.anchor_id));
        let place = a@.position.map_values(|x: Scalar64| x.bits);
        let flags = seq![
            billboard,
            length,
            a.screen_x.bits as u64,
            a.screen_y.bits as u64,
            a.view_distance.bits as u64,
        ];
        let tail = byte_words(encode_utf8(a@.occlusion));
        assert(anchor_words(a@) =~= id + place + flags + tail);
        lemma_hash_concat(hash, id + place + flags, tail);
        lemma_hash_concat(hash, id + place, flags);
        lemma_hash_concat(hash, id, place);
        let (p0, p1, p2) = (a.position[0].bits, a.position[1].bits, a.position[2].bits);
        assert(place =~= seq![p0] + seq![p1] + seq![p2]);
        lemma_hash_concat(h0, seq![p0] + seq![p1], seq![p2]);
        lemma_hash_concat(h0, seq![p0], seq![p1]);
        let f = flags;
        assert(f =~= seq![f[0]] + seq![f[1]] + seq![f[2]] + seq![f[3]] + seq![f[4]]);
        lemma_hash_concat(
            h3,
            seq![f[0]] + seq![f[1]] + seq![f[2]] + seq![f[3]],
            seq![f[4]],
        );
        lemma_hash_concat(h3, seq![f[0]] + seq![f[1]] + seq![f[2]], seq![f[3]]);
        lemma_hash_concat(h3, seq![f[0]] + seq![f[1]], seq![f[2]]);
        lemma_hash_concat(h3, seq![f[0]], seq![f[1]]);
    }
    h9
}

impl KeyText for AnchorView {
    open spec fn key_text(&self) -> Seq<char> {
        self.anchor_id
    }
}

impl KeyText for WorldUiAnchorSample {
    open spec fn key_text(&self) -> Seq<char> {
        self.anchor_id@
    }
}

impl TextKeyed for WorldUiAnchorSample {
    fn sort_key(&self) -> (r: &str) {
        self.anchor_id.as_str()
    }
}

/// The hash of anchors, taken in the order of their identities.
pub open spec fn anchors_hash(anchors: Seq<AnchorView>) -> u64 {
    hash_words(HASH_BASIS, anchors_words(order::stable_order(anchors)))
}

/// Orders anchors by their identities.
pub fn sort_anchors(anchors: Vec<WorldUiAnchorSample>) -> (r: Vec<WorldUiAnchorSample>)
    ensures
        anchors_view(r@) == order::stable_order(anchors_view(anchors@)),
{
    let ghost before = anchors@;
    let r = order::sort_by_text_key(anchors);
    proof {
        order::lemma_stable_order_mapped(r@, before, |a: WorldUiAnchorSample| a@);
    }
    r
}

/// The hash of the anchors of a batch, in whatever order the batch lists them.
pub fn anchor_hash(batch: &WorldUiAnchorBatch) -> (hash: u64)
    ensures
        hash == anchors_hash(batch@.anchors),
{
    let copies = batch.anchors.clone();
    assert(copies@ =~= batch.anchors@);
    let ordered = sort_anchors(copies);
    let ghost views = anchors_view(ordered@);
    let mut hash: u64 = HASH_BASIS;
    let mut i: usize = 0;
    assert(views.take(0) =~= Seq::<AnchorView>::empty());
    while i < ordered.len()
        invariant
            i <= ordered.len(),
            views == anchors_view(ordered@),
            hash == hash_words(HASH_BASIS, anchors_words(views.take(i as int))),
        decreases ordered.len() - i,
    {
        proof {
            assert(views.take(i + 1).drop_last() =~= views.take(i as int));
            assert(views[i as int] == ordered[i as int]@);
            lemma_hash_concat(
                HASH_BASIS,
                anchors_words(views.take(i as int)),
                anchor_words(ordered[i as int]@),
            );
        }
        hash = hash_anchor(hash, &ordered[i]);
        i += 1;
    }
    assert(views.take(i as int) =~= views);
    hash
}

/// The hash of a batch takes every anchor in, in the order of their identities: the
/// words of several anchors are those of the first ones, then those of the others.
pub proof fn law_hash_covers_every_anchor(
    first: Seq<AnchorView>,
    others: Seq<AnchorView>,
    one: AnchorView,
)
    ensures
        anchors_words(first + others) == anchors_words(first) + anchors_words(others),
        anchors_words(seq![one]) == anchor_words(one),
        anchors_words(Seq::empty()).len() == 0,
        (forall|i: int, j: int|
            0 <= i < j < first.len() ==> !text::text_before(
                (#[trigger] first[j]).anchor_id,
                (#[trigger] first[i]).anchor_id,
            )) ==> anchors_hash(first) == hash_words(0xcbf2_9ce4_8422_2325, anchors_words(first)),
    decreases others.len(),
{
    reveal_with_fuel(anchors_words, 2);
    let none = Seq::<AnchorView>::empty();
    assert(seq![one].drop_last() =~= none);
    assert(anchors_words(none) =~= Seq::<u64>::empty());
    assert(anchors_words(seq![one]) =~= anchor_words(one));
    if others.len() == 0 {
        assert(first + others =~= first);
        assert(anchors_words(first) + anchors_words(others) =~= anchors_words(first));
    } else {
        law_hash_covers_every_anchor(first, others.drop_last(), one);
        assert((first + others).drop_last() =~= first + others.drop_last());
        assert((first + others).last() == others.last());
        assert(anchors_words(first + others) =~= anchors_words(first) + anchors_words(others));
    }
    if forall|i: int, j: int|
        0 <= i < j < first.len() ==> !text::text_before(
            (#[trigger] first[j]).anchor_id,
            (#[trigger] first[i]).anchor_id,
        ) {
        assert forall|i: int, j: int| 0 <= i < j < first.len() implies !text::text_before(
            (#[trigger] first[j]).key_text(),
            (#[trigger] first[i]).key_text(),
        ) by {
            assert(!text::text_before(first[j].anchor_id, first[i].anchor_id));
        }
        assert(order::is_stable_order(first, first));
        order::lemma_stable_order(first, first);
    }
}

/// What is said of a sample, a batch or a frame is said of its own parts: each part of
/// the model is the part of that name, and the anchors of a batch are modeled one by
/// one in their order.
pub proof fn law_models_show_the_parts(
    sample: WorldUiAnchorSample,
    batch: WorldUiAnchorBatch,
    frame: CameraFrame,
    i: int,
)
    ensures
        sample@.anchor_id == sample.anchor_id@,
        sample@.position.len() == 3,
        0 <= i < 3 ==> sample@.position[i] == sample.position[i],
        sample@.billboard == sample.billboard,
        sample@.occlusion == sample.occlusion@,
        sample@.screen_x == sample.screen_x,
        sample@.screen_y == sample.screen_y,
        sample@.view_distance == sample.view_distance,
        batch@.world_space_id == batch.world_space_id@,
        batch@.producer_epoch == batch.producer_epoch,
        batch@.sequence == batch.sequence,
        batch@.timestamp_monotonic_ns == batch.timestamp_monotonic_ns,
        batch@.anchors.len() == batch.anchors@.len(),
        0 <= i < batch.anchors@.len() ==> batch@.anchors[i] == batch.anchors@[i]@,
        frame@.camera_id == frame.camera_id@,
        frame@.world_space_id == frame.world_space_id@,
        frame@.producer_epoch == frame.producer_epoch,
        frame@.sequence == frame.sequence,
        frame@.timestamp_monotonic_ns == frame.timestamp_monotonic_ns,
        frame@.payload == frame.payload,
{
}

} // verus!
