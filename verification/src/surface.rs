//! The shared surfaces: their buffers, which of them the host imports, which
//! frame it shows and which buffers it gives back.

use vstd::prelude::*;
use vstd::string::*;

use crate::json;
use crate::startup;
use crate::text;

verus! {

broadcast use vstd::string::group_string_axioms;

// ---------------------------------------------------------------------------
// Handles
// ---------------------------------------------------------------------------

/// The native handles of one buffer of a shared surface.
#[derive(Clone, Copy, Debug, PartialEq, Eq, Structural)]
pub struct Neon3ExternalSurfaceBufferHandle {
    pub buffer_index: u32,
    pub color_texture_handle: usize,
    pub color_fence_handle: usize,
    pub consumer_release_fence_handle: usize,
    pub depth_texture_handle: Option<usize>,
    pub depth_fence_handle: Option<usize>,
    pub depth_consumer_release_fence_handle: Option<usize>,
}

/// The buffers of the screen surface.
#[derive(Clone, Debug)]
pub struct Neon3ExternalSurfaceHandles {
    pub buffers: Vec<Neon3ExternalSurfaceBufferHandle>,
    pub color_texture_handle: Option<usize>,
    pub color_fence_handle: Option<usize>,
}

/// The buffers of the world surface.
#[derive(Clone, Debug)]
pub struct Neon3WorldExternalSurfaceHandles {
    pub buffers: Vec<Neon3ExternalSurfaceBufferHandle>,
}

impl Default for Neon3ExternalSurfaceHandles {
    fn default() -> (r: Self)
        ensures
            r.buffers@ == Seq::<Neon3ExternalSurfaceBufferHandle>::empty(),
            r.color_texture_handle is None,
            r.color_fence_handle is None,
    {
        Neon3ExternalSurfaceHandles {
            buffers: Vec::new(),
            color_texture_handle: None,
            color_fence_handle: None,
        }
    }
}

impl Default for Neon3WorldExternalSurfaceHandles {
    fn default() -> (r: Self)
        ensures
            r.buffers@ == Seq::<Neon3ExternalSurfaceBufferHandle>::empty(),
    {
        Neon3WorldExternalSurfaceHandles { buffers: Vec::new() }
    }
}

/// A number of the protocol as a native handle.
pub open spec fn as_handle(n: Option<u64>) -> Option<usize> {
    match n {
        Some(v) => Some(v as usize),
        None => None,
    }
}

/// The buffer that a JSON value describes. The index and the handles of the
/// color texture must be there; the handles of the depth texture may be.
pub open spec fn buffer_handle(buffer: json::JsonView) -> Option<
    Neon3ExternalSurfaceBufferHandle,
> {
    if buffer.natural_member("buffer_index"@) is Some && buffer.natural_member(
        "color_texture_handle"@,
    ) is Some && buffer.natural_member("color_fence_handle"@) is Some && buffer.natural_member(
        "consumer_release_fence_handle"@,
    ) is Some {
        Some(
            Neon3ExternalSurfaceBufferHandle {
                buffer_index: buffer.natural_member("buffer_index"@)->0 as u32,
                color_texture_handle: buffer.natural_member("color_texture_handle"@)->0 as usize,
                color_fence_handle: buffer.natural_member("color_fence_handle"@)->0 as usize,
                consumer_release_fence_handle: buffer.natural_member(
                    "consumer_release_fence_handle"@,
                )->0 as usize,
                depth_texture_handle: as_handle(buffer.natural_member("depth_texture_handle"@)),
                depth_fence_handle: as_handle(buffer.natural_member("depth_fence_handle"@)),
                depth_consumer_release_fence_handle: as_handle(
                    buffer.natural_member("depth_consumer_release_fence_handle"@),
                ),
            },
        )
    } else {
        None
    }
}

/// The buffers that JSON values describe; values that describe none are passed
/// over.
pub open spec fn buffer_handles(buffers: Seq<json::JsonView>) -> Seq<
    Neon3ExternalSurfaceBufferHandle,
>
    decreases buffers.len(),
{
    if buffers.len() == 0 {
        Seq::empty()
    } else {
        let earlier = buffer_handles(buffers.drop_last());
        match buffer_handle(buffers.last()) {
            Some(handle) => earlier.push(handle),
            None => earlier,
        }
    }
}

/// The buffers that the result of an acquisition lists.
pub open spec fn acquired_buffers(result: json::JsonView) -> Seq<
    Neon3ExternalSurfaceBufferHandle,
> {
    match result.member("buffers"@) {
        Some(buffers) => match buffers.items() {
            Some(items) => buffer_handles(items),
            None => Seq::empty(),
        },
        None => Seq::empty(),
    }
}

fn to_handle(n: Option<u64>) -> (r: Option<usize>)
    ensures
        r == as_handle(n),
{
    match n {
        Some(v) => Some(v as usize),
        None => None,
    }
}

fn read_buffer(buffer: &serde_json::Value) -> (r: Option<Neon3ExternalSurfaceBufferHandle>)
    ensures
        r == buffer_handle(json::json_view(*buffer)),
{
    match (
        json::natural_member(buffer, "buffer_index"),
        json::natural_member(buffer, "color_texture_handle"),
        json::natural_member(buffer, "color_fence_handle"),
        json::natural_member(buffer, "consumer_release_fence_handle"),
    ) {
        (Some(index), Some(texture), Some(fence), Some(release)) => Some(
            Neon3ExternalSurfaceBufferHandle {
                buffer_index: index as u32,
                color_texture_handle: texture as usize,
                color_fence_handle: fence as usize,
                consumer_release_fence_handle: release as usize,
                depth_texture_handle: to_handle(
                    json::natural_member(buffer, "depth_texture_handle"),
                ),
                depth_fence_handle: to_handle(json::natural_member(buffer, "depth_fence_handle")),
                depth_consumer_release_fence_handle: to_handle(
                    json::natural_member(buffer, "depth_consumer_release_fence_handle"),
                ),
            },
        ),
        _ => None,
    }
}

/// Reads the buffers out of the result of an acquisition.
pub fn read_acquired_buffers(result: &serde_json::Value) -> (r: Vec<
    Neon3ExternalSurfaceBufferHandle,
>)
    ensures
        r@ == acquired_buffers(json::json_view(*result)),
{
    let mut r: Vec<Neon3ExternalSurfaceBufferHandle> = Vec::new();
    let items = match json::json_get(result, "buffers") {
        Some(buffers) => match json::json_as_array(buffers) {
            Some(items) => items,
            None => {
                return r;
            },
        },
        None => {
            return r;
        },
    };
    let ghost all = items@.map_values(|v: serde_json::Value| json::json_view(v));
    let mut i: usize = 0;
    assert(all.take(0) =~= Seq::<json::JsonView>::empty());
    while i < items.len()
        invariant
            i <= items.len(),
            all == items@.map_values(|v: serde_json::Value| json::json_view(v)),
            r@ == buffer_handles(all.take(i as int)),
        decreases items.len() - i,
    {
        assert(all.take(i + 1).drop_last() =~= all.take(i as int));
        assert(all.take(i + 1).last() == json::json_view(items[i as int]));
        if let Some(handle) = read_buffer(&items[i]) {
            r.push(handle);
        }
        i += 1;
    }
    assert(all.take(i as int) =~= all);
    r
}

/// The native handle that the member of that name holds.
pub fn read_handle(result: &serde_json::Value, key: &str) -> (r: Option<usize>)
    ensures
        r == as_handle(json::json_view(*result).natural_member(key@)),
{
    to_handle(json::natural_member(result, key))
}

// ---------------------------------------------------------------------------
// Importing
// ---------------------------------------------------------------------------

/// Whether a round of imports starts: only while a ring has fewer imported
/// buffers than it lists. Within a round, `color_import` and `depth_import` tell
/// for each listed buffer whether it is imported.
pub fn import_round_due(imported: usize, listed: usize) -> (r: bool)
    ensures
        r == (imported < listed),
{
    imported < listed
}

/// Whether a buffer of that index was imported.
pub open spec fn is_imported(imported: Seq<u32>, buffer_index: u32) -> bool {
    imported.contains(buffer_index)
}

/// Whether a buffer of that index was imported.
pub fn has_imported(imported: &Vec<u32>, buffer_index: u32) -> (r: bool)
    ensures
        r == is_imported(imported@, buffer_index),
{
    let mut i: usize = 0;
    while i < imported.len()
        invariant
            i <= imported.len(),
            forall|k: int| 0 <= k < i ==> (#[trigger] imported@[k]) != buffer_index,
        decreases imported.len() - i,
    {
        if imported[i] == buffer_index {
            assert(imported@[i as int] == buffer_index);
            return true;
        }
        i += 1;
    }
    false
}

/// The handles of a texture that is to be imported.
#[derive(Clone, Copy, Debug, PartialEq, Eq, Structural)]
pub struct TextureImport {
    pub texture_handle: usize,
    pub fence_handle: usize,
    pub release_fence_handle: usize,
}

/// The import that a color buffer still needs in a round.
pub open spec fn color_import_of(
    imported: Seq<u32>,
    buffer: Neon3ExternalSurfaceBufferHandle,
) -> Option<TextureImport> {
    if is_imported(imported, buffer.buffer_index) {
        None
    } else {
        Some(
            TextureImport {
                texture_handle: buffer.color_texture_handle,
                fence_handle: buffer.color_fence_handle,
                release_fence_handle: buffer.consumer_release_fence_handle,
            },
        )
    }
}

/// The import that a depth buffer still needs in a round. The depth ring has fences of its
/// own; without all three handles there is nothing to import.
pub open spec fn depth_import_of(
    imported: Seq<u32>,
    buffer: Neon3ExternalSurfaceBufferHandle,
) -> Option<TextureImport> {
    if is_imported(imported, buffer.buffer_index) {
        None
    } else {
        match (
            buffer.depth_texture_handle,
            buffer.depth_fence_handle,
            buffer.depth_consumer_release_fence_handle,
        ) {
            (Some(texture_handle), Some(fence_handle), Some(release_fence_handle)) => Some(
                TextureImport { texture_handle, fence_handle, release_fence_handle },
            ),
            _ => None,
        }
    }
}

/// The import that a color buffer still needs, given the indices of those that
/// were imported.
pub fn color_import(imported: &Vec<u32>, buffer: &Neon3ExternalSurfaceBufferHandle) -> (r: Option<
    TextureImport,
>)
    ensures
        r == color_import_of(imported@, *buffer),
{
    if has_imported(imported, buffer.buffer_index) {
        return None;
    }
    Some(
        TextureImport {
            texture_handle: buffer.color_texture_handle,
            fence_handle: buffer.color_fence_handle,
            release_fence_handle: buffer.consumer_release_fence_handle,
        },
    )
}

/// The import that a depth buffer still needs, given the indices of those that
/// were imported.
pub fn depth_import(imported: &Vec<u32>, buffer: &Neon3ExternalSurfaceBufferHandle) -> (r: Option<
    TextureImport,
>)
    ensures
        r == depth_import_of(imported@, *buffer),
{
    if has_imported(imported, buffer.buffer_index) {
        return None;
    }
    match (
        buffer.depth_texture_handle,
        buffer.depth_fence_handle,
        buffer.depth_consumer_release_fence_handle,
    ) {
        (Some(texture_handle), Some(fence_handle), Some(release_fence_handle)) => Some(
            TextureImport { texture_handle, fence_handle, release_fence_handle },
        ),
        _ => None,
    }
}

// ---------------------------------------------------------------------------
// Frames
// ---------------------------------------------------------------------------

/// A buffer with the number of the last frame that its producer completed.
#[derive(Clone, Copy, Debug, PartialEq, Eq, Structural)]
pub struct CompletedBuffer {
    pub buffer_index: u32,
    pub completed: u64,
}

/// The first buffer of that index.
pub open spec fn first_of(buffers: Seq<CompletedBuffer>, buffer_index: u32) -> Option<
    CompletedBuffer,
>
    decreases buffers.len(),
{
    if buffers.len() == 0 {
        None
    } else if buffers[0].buffer_index == buffer_index {
        Some(buffers[0])
    } else {
        first_of(buffers.drop_first(), buffer_index)
    }
}

/// Whether a ring has completed a frame in the buffer of that index. A ring
/// without buffers holds nothing back.
pub open spec fn ring_ready(ring: Seq<CompletedBuffer>, buffer_index: u32, frame: u64) -> bool {
    ring.len() == 0 || (first_of(ring, buffer_index) matches Some(b) && b.completed >= frame)
}

/// Whether a screen buffer may be shown: it holds a frame, and the world color
/// and the world depth of the same buffer are at least as far.
pub open spec fn may_show(
    screen: Seq<CompletedBuffer>,
    world_colors: Seq<CompletedBuffer>,
    world_depths: Seq<CompletedBuffer>,
    i: int,
) -> bool {
    &&& screen[i].completed != 0
    &&& ring_ready(world_colors, screen[i].buffer_index, screen[i].completed)
    &&& ring_ready(world_depths, screen[i].buffer_index, screen[i].completed)
}

/// Whether `i` is the newest screen buffer that may be shown; of equally new
/// ones it is the last.
pub open spec fn is_newest(
    screen: Seq<CompletedBuffer>,
    world_colors: Seq<CompletedBuffer>,
    world_depths: Seq<CompletedBuffer>,
    count: int,
    i: int,
) -> bool {
    &&& 0 <= i < count
    &&& may_show(screen, world_colors, world_depths, i)
    &&& forall|j: int|
        0 <= j < count && #[trigger] may_show(screen, world_colors, world_depths, j)
            ==> screen[j].completed < screen[i].completed || (screen[j].completed
            == screen[i].completed && j <= i)
}

fn completed_in(ring: &Vec<CompletedBuffer>, buffer_index: u32, frame: u64) -> (r: bool)
    ensures
        r == ring_ready(ring@, buffer_index, frame),
{
    if ring.len() == 0 {
        return true;
    }
    let mut i: usize = 0;
    assert(ring@.skip(0) =~= ring@);
    while i < ring.len()
        invariant
            i <= ring.len(),
            first_of(ring@, buffer_index) == first_of(ring@.skip(i as int), buffer_index),
        decreases ring.len() - i,
    {
        assert(ring@.skip(i as int).drop_first() =~= ring@.skip(i + 1));
        assert(ring@.skip(i as int)[0] == ring@[i as int]);
        if ring[i].buffer_index == buffer_index {
            return ring[i].completed >= frame;
        }
        i += 1;
    }
    false
}

/// Picks the frame to show: the place of a screen buffer and its frame number.
pub fn select_frame(
    screen: &Vec<CompletedBuffer>,
    world_colors: &Vec<CompletedBuffer>,
    world_depths: &Vec<CompletedBuffer>,
) -> (r: Option<(usize, u64)>)
    ensures
        match r {
            Some((i, frame)) => {
                &&& is_newest(screen@, world_colors@, world_depths@, screen@.len() as int, i as int)
                &&& frame == screen@[i as int].completed
            },
            None => forall|j: int|
                0 <= j < screen@.len() ==> !#[trigger] may_show(
                    screen@,
                    world_colors@,
                    world_depths@,
                    j,
                ),
        },
{
    let mut best: Option<(usize, u64)> = None;
    let mut i: usize = 0;
    while i < screen.len()
        invariant
            i <= screen.len(),
            match best {
                Some((b, frame)) => {
                    &&& is_newest(screen@, world_colors@, world_depths@, i as int, b as int)
                    &&& frame == screen@[b as int].completed
                },
                None => forall|j: int|
                    0 <= j < i ==> !#[trigger] may_show(screen@, world_colors@, world_depths@, j),
            },
        decreases screen.len() - i,
    {
        let buffer = screen[i];
        let shown = buffer.completed != 0 && completed_in(
            world_colors,
            buffer.buffer_index,
            buffer.completed,
        ) && completed_in(world_depths, buffer.buffer_index, buffer.completed);
        assert(shown == may_show(screen@, world_colors@, world_depths@, i as int));
        if shown {
            let newer = match best {
                Some((_, frame)) => buffer.completed >= frame,
                None => true,
            };
            if newer {
                best = Some((i, buffer.completed));
            }
        }
        i += 1;
    }
    best
}

/// The world color and the world depth of a frame that is shown never lag
/// behind its screen color.
pub proof fn law_shown_frame_is_complete(
    screen: Seq<CompletedBuffer>,
    world_colors: Seq<CompletedBuffer>,
    world_depths: Seq<CompletedBuffer>,
    i: int,
)
    requires
        is_newest(screen, world_colors, world_depths, screen.len() as int, i),
        world_colors.len() > 0,
        world_depths.len() > 0,
    ensures
        first_of(world_colors, screen[i].buffer_index) matches Some(c) && c.completed
            >= screen[i].completed,
        first_of(world_depths, screen[i].buffer_index) matches Some(d) && d.completed
            >= screen[i].completed,
{
}

// ---------------------------------------------------------------------------
// Releases
// ---------------------------------------------------------------------------

/// The buffers that were shown before, split by whether they still are.
pub struct ReleasePlan {
    /// Still sampled by the current frame.
    pub keep: Vec<CompletedBuffer>,
    /// To be given back to the producer.
    pub release: Vec<CompletedBuffer>,
}

/// The buffers of that index.
pub open spec fn with_index(buffers: Seq<CompletedBuffer>, buffer_index: u32) -> Seq<
    CompletedBuffer,
> {
    buffers.filter(|b: CompletedBuffer| b.buffer_index == buffer_index)
}

/// The buffers of any other index.
pub open spec fn without_index(buffers: Seq<CompletedBuffer>, buffer_index: u32) -> Seq<
    CompletedBuffer,
> {
    buffers.filter(|b: CompletedBuffer| b.buffer_index != buffer_index)
}

/// Splits the buffers that wait for their release: the one that is shown now is
/// kept, all others go back to the producer.
pub fn plan_releases(pending: &Vec<CompletedBuffer>, selected: u32) -> (r: ReleasePlan)
    ensures
        r.keep@ == with_index(pending@, selected),
        r.release@ == without_index(pending@, selected),
{
    let mut keep: Vec<CompletedBuffer> = Vec::new();
    let mut release: Vec<CompletedBuffer> = Vec::new();
    let mut i: usize = 0;
    proof {
        reveal(Seq::filter);
    }
    assert(pending@.take(0) =~= Seq::<CompletedBuffer>::empty());
    while i < pending.len()
        invariant
            i <= pending.len(),
            keep@ == with_index(pending@.take(i as int), selected),
            release@ == without_index(pending@.take(i as int), selected),
        decreases pending.len() - i,
    {
        proof {
            reveal(Seq::filter);
            assert(pending@.take(i + 1).drop_last() =~= pending@.take(i as int));
        }
        if pending[i].buffer_index == selected {
            keep.push(pending[i]);
        } else {
            release.push(pending[i]);
        }
        i += 1;
    }
    assert(pending@.take(i as int) =~= pending@);
    ReleasePlan { keep, release }
}

/// The buffers that hold a frame.
pub open spec fn completed_only(buffers: Seq<CompletedBuffer>) -> Seq<CompletedBuffer> {
    buffers.filter(|b: CompletedBuffer| b.completed != 0)
}

/// Lists the buffers that wait for their release after a frame: all that hold
/// one.
pub fn next_releases(screen: &Vec<CompletedBuffer>) -> (r: Vec<CompletedBuffer>)
    ensures
        r@ == completed_only(screen@),
{
    let mut r: Vec<CompletedBuffer> = Vec::new();
    let mut i: usize = 0;
    proof {
        reveal(Seq::filter);
    }
    assert(screen@.take(0) =~= Seq::<CompletedBuffer>::empty());
    while i < screen.len()
        invariant
            i <= screen.len(),
            r@ == completed_only(screen@.take(i as int)),
        decreases screen.len() - i,
    {
        proof {
            reveal(Seq::filter);
            assert(screen@.take(i + 1).drop_last() =~= screen@.take(i as int));
        }
        if screen[i].completed != 0 {
            r.push(screen[i]);
        }
        i += 1;
    }
    assert(screen@.take(i as int) =~= screen@);
    r
}

/// What the host does with its buffers in one frame.
pub struct FramePlan {
    /// The place of the screen buffer to show, and its frame number.
    pub selected: Option<(usize, u64)>,
    /// Buffers that still wait for their release.
    pub keep: Vec<CompletedBuffer>,
    /// Buffers to be given back to the producer.
    pub release: Vec<CompletedBuffer>,
}

/// Plans a frame: picks what to show, and gives back what was shown before.
/// Without a frame to show nothing is given back.
pub fn plan_frame(
    pending: &Vec<CompletedBuffer>,
    screen: &Vec<CompletedBuffer>,
    world_colors: &Vec<CompletedBuffer>,
    world_depths: &Vec<CompletedBuffer>,
) -> (r: FramePlan)
    ensures
        match r.selected {
            Some((i, frame)) => {
                &&& is_newest(screen@, world_colors@, world_depths@, screen@.len() as int, i as int)
                &&& frame == screen@[i as int].completed
                &&& r.keep@ == with_index(pending@, screen@[i as int].buffer_index)
                &&& r.release@ == without_index(pending@, screen@[i as int].buffer_index)
            },
            None => {
                &&& forall|j: int|
                    0 <= j < screen@.len() ==> !#[trigger] may_show(
                        screen@,
                        world_colors@,
                        world_depths@,
                        j,
                    )
                &&& r.keep@ == pending@
                &&& r.release@ == Seq::<CompletedBuffer>::empty()
            },
        },
{
    let selected = select_frame(screen, world_colors, world_depths);
    match selected {
        Some((i, _)) => {
            let plan = plan_releases(pending, screen[i].buffer_index);
            FramePlan { selected, keep: plan.keep, release: plan.release }
        },
        None => {
            let keep = pending.clone();
            assert(keep@ =~= pending@);
            FramePlan { selected, keep, release: Vec::new() }
        },
    }
}

/// No buffer that is shown is given back, and no other one is kept.
pub proof fn law_shown_buffer_is_not_released(pending: Seq<CompletedBuffer>, selected: u32)
    ensures
        forall|i: int|
            0 <= i < without_index(pending, selected).len() ==> (#[trigger] without_index(
                pending,
                selected,
            )[i]).buffer_index != selected,
        forall|i: int|
            0 <= i < with_index(pending, selected).len() ==> (#[trigger] with_index(
                pending,
                selected,
            )[i]).buffer_index == selected,
        with_index(pending, selected).len() + without_index(pending, selected).len()
            == pending.len(),
    decreases pending.len(),
{
    reveal(Seq::filter);
    if pending.len() > 0 {
        law_shown_buffer_is_not_released(pending.drop_last(), selected);
    }
}

// ---------------------------------------------------------------------------
// Composition
// ---------------------------------------------------------------------------

/// The bits of the distance of the near plane, a tenth.
pub const SCENE_NEAR_BITS: u32 = 0x3dcc_cccd;

/// The bits of the distance of the far plane, one thousand.
pub const SCENE_FAR_BITS: u32 = 0x447a_0000;

/// The mode in which the screen interface is drawn.
pub const SCREEN_MODE: u32 = 4;

/// The diagnostic mode that a text asks for: a number up to four, else none.
pub open spec fn debug_mode_of(value: Option<Seq<char>>) -> nat {
    match value {
        Some(v) => match text::unsigned_value(v, u32::MAX as nat) {
            Some(mode) => if mode <= 4 {
                mode
            } else {
                0
            },
            None => 0,
        },
        None => 0,
    }
}

/// The diagnostic mode, given the value of its variable.
pub fn occlusion_debug_mode(value: Option<&str>) -> (r: u32)
    ensures
        r == debug_mode_of(
            match value {
                Some(v) => Some(v@),
                None => None,
            },
        ),
        r <= 4,
{
    match value {
        Some(v) => match text::parse_unsigned(v, u32::MAX as u64) {
            Some(mode) => if mode <= 4 {
                mode as u32
            } else {
                0
            },
            None => 0,
        },
        None => 0,
    }
}

/// Whether the scene hides world panels: unless that is switched off, wherever
/// the shown frame has a depth.
pub fn has_scene_depth(occlusion_switch: Option<&str>, frame_has_depth: bool) -> (r: u32)
    ensures
        r == if frame_has_depth && !startup::switched_on(
            match occlusion_switch {
                Some(v) => Some(v@),
                None => None,
            },
        ) {
            1u32
        } else {
            0u32
        },
{
    if !startup::switch_is_on(occlusion_switch) && frame_has_depth {
        1
    } else {
        0
    }
}

/// What the parameters of the composition depend on, as one number.
pub fn composition_key(scene_depth: u32, debug_mode: u32) -> (r: u32)
    requires
        scene_depth <= 1,
        debug_mode <= 4,
    ensures
        r == scene_depth + 2 * debug_mode,
{
    assert(scene_depth | (debug_mode << 1) == scene_depth + 2 * debug_mode) by (bit_vector)
        requires
            scene_depth <= 1,
            debug_mode <= 4,
    ;
    scene_depth | (debug_mode << 1)
}

/// Different parameters have different keys, so that a change of either is
/// never missed.
pub proof fn law_composition_keys_differ(depth_a: u32, mode_a: u32, depth_b: u32, mode_b: u32)
    requires
        depth_a <= 1,
        depth_b <= 1,
        mode_a <= 4,
        mode_b <= 4,
        depth_a + 2 * mode_a == depth_b + 2 * mode_b,
    ensures
        depth_a == depth_b,
        mode_a == mode_b,
{
}

/// The four bytes of a word, lowest first.
pub open spec fn le_bytes(x: u32) -> Seq<u8> {
    seq![
        (x % 256) as u8,
        (x / 256 % 256) as u8,
        (x / 65536 % 256) as u8,
        (x / 16777216) as u8,
    ]
}

/// The bytes of the composition parameters: near, far, scene depth and mode.
pub open spec fn params_bytes(scene_depth: u32, mode: u32) -> Seq<u8> {
    le_bytes(SCENE_NEAR_BITS) + le_bytes(SCENE_FAR_BITS) + le_bytes(scene_depth) + le_bytes(mode)
}

fn push_word(bytes: &mut Vec<u8>, x: u32)
    ensures
        final(bytes)@ == old(bytes)@ + le_bytes(x),
{
    bytes.push((x % 256) as u8);
    bytes.push((x / 256 % 256) as u8);
    bytes.push((x / 65536 % 256) as u8);
    bytes.push((x / 16777216) as u8);
    assert(bytes@ =~= old(bytes)@ + le_bytes(x));
}

/// Writes the composition parameters out. The screen interface is drawn without
/// scene depth in a mode of its own.
pub fn composition_params(scene_depth: u32, mode: u32) -> (r: Vec<u8>)
    ensures
        r@ == params_bytes(scene_depth, mode),
        r@.len() == 16,
{
    let mut r: Vec<u8> = Vec::new();
    push_word(&mut r, SCENE_NEAR_BITS);
    push_word(&mut r, SCENE_FAR_BITS);
    push_word(&mut r, scene_depth);
    push_word(&mut r, mode);
    assert(r@ =~= params_bytes(scene_depth, mode));
    r
}

/// A buffer is taken over exactly where its place, its color texture and both its
/// color fences are told, each handle from the member of its own name; the depth
/// handles are taken over as far as they are told.
pub proof fn law_buffer_is_read_by_name(buffer: json::JsonView)
    ensures
        ({
            let handle = buffer_handle(buffer);
            let place = buffer.natural_member("buffer_index"@);
            let texture = buffer.natural_member("color_texture_handle"@);
            let fence = buffer.natural_member("color_fence_handle"@);
            let release = buffer.natural_member("consumer_release_fence_handle"@);
            let depth_texture = buffer.natural_member("depth_texture_handle"@);
            let depth_fence = buffer.natural_member("depth_fence_handle"@);
            let depth_release = buffer.natural_member("depth_consumer_release_fence_handle"@);
            &&& handle is Some <==> place is Some && texture is Some && fence is Some && release
                is Some
            &&& handle matches Some(h) ==> {
                &&& place->0 <= u32::MAX ==> h.buffer_index == place->0
                &&& texture->0 <= usize::MAX ==> h.color_texture_handle == texture->0
                &&& fence->0 <= usize::MAX ==> h.color_fence_handle == fence->0
                &&& release->0 <= usize::MAX ==> h.consumer_release_fence_handle == release->0
                &&& h.depth_texture_handle is Some <==> depth_texture is Some
                &&& depth_texture matches Some(n) ==> n <= usize::MAX ==> h.depth_texture_handle->0
                    == n
                &&& h.depth_fence_handle is Some <==> depth_fence is Some
                &&& depth_fence matches Some(n) ==> n <= usize::MAX ==> h.depth_fence_handle->0 == n
                &&& h.depth_consumer_release_fence_handle is Some <==> depth_release is Some
                &&& depth_release matches Some(n) ==> n <= usize::MAX
                    ==> h.depth_consumer_release_fence_handle->0 == n
            }
        }),
{
}

/// The buffers of a list are those of its first part, then those of the rest, one for
/// each element that tells one.
pub proof fn law_buffers_are_read_in_order(
    first: Seq<json::JsonView>,
    others: Seq<json::JsonView>,
    one: json::JsonView,
)
    ensures
        buffer_handles(first + others) == buffer_handles(first) + buffer_handles(others),
        buffer_handle(one) is Some ==> buffer_handles(seq![one]) == seq![buffer_handle(one)->0],
        buffer_handle(one) is None ==> buffer_handles(seq![one]).len() == 0,
    decreases others.len(),
{
    reveal_with_fuel(buffer_handles, 2);
    let none = Seq::<json::JsonView>::empty();
    assert(seq![one].drop_last() =~= none);
    assert(buffer_handles(none) =~= Seq::<Neon3ExternalSurfaceBufferHandle>::empty());
    if buffer_handle(one) is Some {
        assert(buffer_handles(seq![one]) =~= seq![buffer_handle(one)->0]);
    }
    if others.len() == 0 {
        assert(first + others =~= first);
        assert(buffer_handles(first) + buffer_handles(others) =~= buffer_handles(first));
    } else {
        law_buffers_are_read_in_order(first, others.drop_last(), one);
        assert((first + others).drop_last() =~= first + others.drop_last());
        assert((first + others).last() == others.last());
        assert(buffer_handles(first + others) =~= buffer_handles(first) + buffer_handles(others));
    }
}

/// The buffers of a reply are those that its member of that name lists, and none
/// where it is no list.
pub proof fn law_reply_lists_its_buffers(
    members: Map<Seq<char>, json::JsonView>,
    listed: Seq<json::JsonView>,
    result: json::JsonView,
)
    ensures
        acquired_buffers(
            json::JsonView::Members(members.insert("buffers"@, json::JsonView::Items(listed))),
        ) == buffer_handles(listed),
        result.member("buffers"@) is None || !(result.member("buffers"@)->0 is Items)
            ==> acquired_buffers(result).len() == 0,
{
}

/// A buffer is imported once: its color texture with its color fences, its depth
/// texture with its depth fences where all three are there.
pub proof fn law_buffer_is_imported_once(
    imported: Seq<u32>,
    buffer: Neon3ExternalSurfaceBufferHandle,
)
    ensures
        ({
            let color = color_import_of(imported, buffer);
            let depth = depth_import_of(imported, buffer);
            let there = exists|i: int| 0 <= i < imported.len() && imported[i] == buffer.buffer_index;
            let has_depth = buffer.depth_texture_handle is Some && buffer.depth_fence_handle is Some
                && buffer.depth_consumer_release_fence_handle is Some;
            &&& color is Some <==> !there
            &&& depth is Some <==> !there && has_depth
            &&& color matches Some(c) ==> {
                &&& c.texture_handle == buffer.color_texture_handle
                &&& c.fence_handle == buffer.color_fence_handle
                &&& c.release_fence_handle == buffer.consumer_release_fence_handle
            }
            &&& depth matches Some(d) ==> {
                &&& d.texture_handle == buffer.depth_texture_handle->0
                &&& d.fence_handle == buffer.depth_fence_handle->0
                &&& d.release_fence_handle == buffer.depth_consumer_release_fence_handle->0
            }
            &&& color_import_of(imported.push(buffer.buffer_index), buffer) is None
            &&& depth_import_of(imported.push(buffer.buffer_index), buffer) is None
        }),
{
    let after = imported.push(buffer.buffer_index);
    assert(after[after.len() - 1] == buffer.buffer_index);
}

/// The buffer of a place is the first of the ring that stands for it, and there is
/// none where no buffer does.
pub proof fn law_first_buffer_of_a_place(ring: Seq<CompletedBuffer>, buffer_index: u32)
    ensures
        first_of(ring, buffer_index) is None <==> forall|i: int|
            0 <= i < ring.len() ==> (#[trigger] ring[i]).buffer_index != buffer_index,
        first_of(ring, buffer_index) matches Some(b) ==> exists|i: int|
            0 <= i < ring.len() && #[trigger] ring[i] == b && b.buffer_index == buffer_index
                && forall|j: int| 0 <= j < i ==> (#[trigger] ring[j]).buffer_index != buffer_index,
    decreases ring.len(),
{
    if ring.len() > 0 && ring[0].buffer_index != buffer_index {
        let rest = ring.drop_first();
        law_first_buffer_of_a_place(rest, buffer_index);
        assert forall|i: int| 0 <= i < rest.len() implies rest[i] == ring[i + 1] by {}
        if first_of(ring, buffer_index) is None {
            assert forall|i: int| 0 <= i < ring.len() implies (#[trigger] ring[i]).buffer_index
                != buffer_index by {
                if i > 0 {
                    assert(rest[i - 1].buffer_index != buffer_index);
                }
            }
        } else {
            let b = first_of(ring, buffer_index)->0;
            let k = choose|k: int|
                0 <= k < rest.len() && #[trigger] rest[k] == b && b.buffer_index == buffer_index
                    && forall|j: int|
                    0 <= j < k ==> (#[trigger] rest[j]).buffer_index != buffer_index;
            assert(ring[k + 1] == b);
            assert forall|j: int| 0 <= j < k + 1 implies (#[trigger] ring[j]).buffer_index
                != buffer_index by {
                if j > 0 {
                    assert(rest[j - 1].buffer_index != buffer_index);
                }
            }
        }
    } else if ring.len() > 0 {
        assert(ring[0].buffer_index == buffer_index);
    }
}

/// The frame that is shown was completed, and no frame that was completed in every
/// ring is newer. A buffer is completed in a ring that is there where the first one
/// of its place reached the frame; a ring that is not there holds nothing back.
pub proof fn law_newest_complete_frame_is_shown(
    screen: Seq<CompletedBuffer>,
    world_colors: Seq<CompletedBuffer>,
    world_depths: Seq<CompletedBuffer>,
    i: int,
    j: int,
)
    requires
        is_newest(screen, world_colors, world_depths, screen.len() as int, i),
        0 <= j < screen.len(),
        screen[j].completed > 0,
        world_colors.len() > 0 ==> {
            &&& first_of(world_colors, screen[j].buffer_index) is Some
            &&& first_of(world_colors, screen[j].buffer_index)->0.completed >= screen[j].completed
        },
        world_depths.len() > 0 ==> {
            &&& first_of(world_depths, screen[j].buffer_index) is Some
            &&& first_of(world_depths, screen[j].buffer_index)->0.completed >= screen[j].completed
        },
    ensures
        screen[i].completed > 0,
        screen[j].completed <= screen[i].completed,
        screen[j].completed == screen[i].completed ==> j <= i,
{
    assert(may_show(screen, world_colors, world_depths, j));
}

/// One more buffer that waits for its release is kept where it is the shown one, and
/// released where it is not. Of the buffers of the screen those wait that were
/// completed.
pub proof fn law_releases_go_buffer_by_buffer(
    buffers: Seq<CompletedBuffer>,
    one: CompletedBuffer,
    selected: u32,
)
    ensures
        with_index(Seq::empty(), selected).len() == 0,
        without_index(Seq::empty(), selected).len() == 0,
        completed_only(Seq::empty()).len() == 0,
        with_index(buffers.push(one), selected) == if one.buffer_index == selected {
            with_index(buffers, selected).push(one)
        } else {
            with_index(buffers, selected)
        },
        without_index(buffers.push(one), selected) == if one.buffer_index == selected {
            without_index(buffers, selected)
        } else {
            without_index(buffers, selected).push(one)
        },
        completed_only(buffers.push(one)) == if one.completed > 0 {
            completed_only(buffers).push(one)
        } else {
            completed_only(buffers)
        },
{
    reveal(Seq::filter);
    assert(buffers.push(one).drop_last() =~= buffers);
}

/// A debug mode is taken by its number as far as there is one, and none else.
pub proof fn law_debug_mode_is_read(n: nat)
    ensures
        n <= 4 ==> debug_mode_of(Some(text::decimal(n))) == n,
        n > 4 ==> debug_mode_of(Some(text::decimal(n))) == 0,
        debug_mode_of(None) == 0,
{
    text::law_unsigned_reads_decimal(n, u32::MAX as nat);
}

/// The parameters hold four words, least byte first: both scene distances, whether
/// there is a scene depth, and the debug mode.
pub proof fn law_params_hold_four_words(scene_depth: u32, mode: u32, k: int)
    requires
        0 <= k < 4,
    ensures
        ({
            let b = params_bytes(scene_depth, mode);
            &&& b.len() == 16
            &&& b[4 * k] + 256 * b[4 * k + 1] + 65536 * b[4 * k + 2] + 16777216 * b[4 * k + 3]
                == if k == 0 {
                SCENE_NEAR_BITS
            } else if k == 1 {
                SCENE_FAR_BITS
            } else if k == 2 {
                scene_depth
            } else {
                mode
            }
        }),
{
    lemma_word_bytes(SCENE_NEAR_BITS);
    lemma_word_bytes(SCENE_FAR_BITS);
    lemma_word_bytes(scene_depth);
    lemma_word_bytes(mode);
}

proof fn lemma_word_bytes(x: u32)
    ensures
        le_bytes(x).len() == 4,
        le_bytes(x)[0] + 256 * le_bytes(x)[1] + 65536 * le_bytes(x)[2] + 16777216 * le_bytes(x)[3]
            == x,
{
}

} // verus!
