//! Pointer input of the host window.

use vstd::prelude::*;
use vstd::string::*;

use crate::flow;
use crate::json;
use crate::queue;
use crate::request;
use crate::request::{ParamsView, RequestParams, TransportRequest, TransportView};
use crate::scalar::Scalar32;
use crate::session::{Neon3Session, UI_BACKING_SCALE};
use crate::text;

verus! {

broadcast use vstd::string::group_string_axioms;

/// The number of events that wait to be sent.
pub const MAX_PENDING_POINTER_EVENTS: usize = 2048;

/// One pointer event.
#[derive(Clone, Debug)]
pub struct Neon3PointerEvent {
    pub event_type: String,
    /// The logical pixel under the pointer.
    pub pixel: Option<[u32; 2]>,
    pub delta: [Scalar32; 2],
    pub delta_mode: String,
    pub button: Option<String>,
    pub buttons: Vec<String>,
    pub modifiers: Vec<String>,
    pub pointer_id: u64,
    pub sequence: u64,
    pub generation: u64,
    pub frame_sequence: u64,
}

/// What a pointer event holds.
pub struct PointerEventView {
    pub event_type: Seq<char>,
    pub pixel: Option<(u32, u32)>,
    pub delta: (Scalar32, Scalar32),
    pub delta_mode: Seq<char>,
    pub button: Option<Seq<char>>,
    pub buttons: Seq<Seq<char>>,
    pub modifiers: Seq<Seq<char>>,
    pub pointer_id: u64,
    pub sequence: u64,
    pub generation: u64,
    pub frame_sequence: u64,
}

/// An optional pixel by its coordinates.
pub open spec fn pixel_view(pixel: Option<[u32; 2]>) -> Option<(u32, u32)> {
    match pixel {
        Some(p) => Some((p[0], p[1])),
        None => None,
    }
}

/// A list of texts by their characters.
pub open spec fn texts_view(texts: Seq<String>) -> Seq<Seq<char>> {
    texts.map_values(|t: String| t@)
}

impl View for Neon3PointerEvent {
    type V = PointerEventView;

    open spec fn view(&self) -> PointerEventView {
        PointerEventView {
            event_type: self.event_type@,
            pixel: pixel_view(self.pixel),
            delta: (self.delta[0], self.delta[1]),
            delta_mode: self.delta_mode@,
            button: match self.button {
                Some(name) => Some(name@),
                None => None,
            },
            buttons: texts_view(self.buttons@),
            modifiers: texts_view(self.modifiers@),
            pointer_id: self.pointer_id,
            sequence: self.sequence,
            generation: self.generation,
            frame_sequence: self.frame_sequence,
        }
    }
}

/// A list of events by what they hold.
pub open spec fn events_view(events: Seq<Neon3PointerEvent>) -> Seq<PointerEventView> {
    events.map_values(|e: Neon3PointerEvent| e@)
}

/// The events that wait to be sent.
pub struct Neon3PointerEvents {
    pub events: Vec<Neon3PointerEvent>,
}

impl Default for Neon3PointerEvents {
    fn default() -> (r: Self)
        ensures
            r.events@ == Seq::<Neon3PointerEvent>::empty(),
    {
        Neon3PointerEvents { events: Vec::new() }
    }
}

/// Where the pointer was at the last update.
#[derive(Clone, Copy, Debug)]
pub struct Neon3PointerState {
    pub next_sequence: u64,
    pub inside: bool,
    pub focused: bool,
    pub last_pixel: Option<[u32; 2]>,
}

impl Default for Neon3PointerState {
    fn default() -> (r: Self)
        ensures
            r.next_sequence == 0,
            !r.inside,
            !r.focused,
            r.last_pixel is None,
    {
        Neon3PointerState { next_sequence: 0, inside: false, focused: false, last_pixel: None }
    }
}

/// The greatest logical pixel coordinate along an edge of the shared surface,
/// which has more texels than logical pixels.
pub fn last_logical_pixel(surface_edge: u32) -> (r: u32)
    ensures
        r == if surface_edge / UI_BACKING_SCALE > 0 {
            surface_edge / UI_BACKING_SCALE - 1
        } else {
            0
        },
{
    let edge: u32 = surface_edge / UI_BACKING_SCALE;
    if edge > 0 {
        edge - 1
    } else {
        0
    }
}

// ---------------------------------------------------------------------------
// Names
// ---------------------------------------------------------------------------

/// A mouse button.
#[derive(Clone, Copy, Debug, PartialEq, Eq, Structural)]
pub enum MouseButton {
    Left,
    Right,
    Middle,
    Back,
    Forward,
    Other(u16),
}

/// The protocol name of a button.
pub open spec fn button_name(button: MouseButton) -> Seq<char> {
    match button {
        MouseButton::Left => "primary"@,
        MouseButton::Right => "secondary"@,
        MouseButton::Middle => "auxiliary"@,
        MouseButton::Back => "back"@,
        MouseButton::Forward => "forward"@,
        MouseButton::Other(value) => "other:"@ + text::decimal(value as nat),
    }
}

/// The protocol name of a button.
pub fn mouse_button_name(button: MouseButton) -> (r: String)
    ensures
        r@ == button_name(button),
{
    match button {
        MouseButton::Left => "primary".to_owned(),
        MouseButton::Right => "secondary".to_owned(),
        MouseButton::Middle => "auxiliary".to_owned(),
        MouseButton::Back => "back".to_owned(),
        MouseButton::Forward => "forward".to_owned(),
        MouseButton::Other(value) => "other:".to_owned().concat(
            text::decimal_text(value as u64).as_str(),
        ),
    }
}

/// The buttons that the host follows, in the order in which it looks at them.
pub open spec fn followed_buttons() -> Seq<MouseButton> {
    seq![
        MouseButton::Left,
        MouseButton::Right,
        MouseButton::Middle,
        MouseButton::Back,
        MouseButton::Forward,
    ]
}

fn followed_button(i: usize) -> (r: MouseButton)
    requires
        i < 5,
    ensures
        r == followed_buttons()[i as int],
{
    if i == 0 {
        MouseButton::Left
    } else if i == 1 {
        MouseButton::Right
    } else if i == 2 {
        MouseButton::Middle
    } else if i == 3 {
        MouseButton::Back
    } else {
        MouseButton::Forward
    }
}

/// The names of the first `count` followed buttons that are flagged.
pub open spec fn flagged_buttons(flags: Seq<bool>, count: int) -> Seq<Seq<char>>
    decreases count,
{
    if count <= 0 {
        Seq::empty()
    } else if flags[count - 1] {
        flagged_buttons(flags, count - 1).push(button_name(followed_buttons()[count - 1]))
    } else {
        flagged_buttons(flags, count - 1)
    }
}

/// The names of the followed buttons that are held down.
pub fn pressed_mouse_buttons(pressed: &[bool; 5]) -> (r: Vec<String>)
    ensures
        texts_view(r@) == flagged_buttons(pressed@, 5),
{
    let mut r: Vec<String> = Vec::new();
    let mut i: usize = 0;
    assert(texts_view(r@) =~= Seq::<Seq<char>>::empty());
    while i < 5
        invariant
            i <= 5,
            texts_view(r@) == flagged_buttons(pressed@, i as int),
        decreases 5 - i,
    {
        if pressed[i] {
            let ghost before = r@;
            let name = mouse_button_name(followed_button(i));
            r.push(name);
            assert(texts_view(r@) =~= texts_view(before).push(name@));
        }
        i += 1;
    }
    r
}

/// The protocol names of the modifier keys, in the order in which the host
/// looks at them.
pub open spec fn modifier_names() -> Seq<Seq<char>> {
    seq!["shift"@, "control"@, "alt"@, "meta"@]
}

/// The names of the first `count` modifiers that are flagged.
pub open spec fn flagged_modifiers(flags: Seq<bool>, count: int) -> Seq<Seq<char>>
    decreases count,
{
    if count <= 0 {
        Seq::empty()
    } else if flags[count - 1] {
        flagged_modifiers(flags, count - 1).push(modifier_names()[count - 1])
    } else {
        flagged_modifiers(flags, count - 1)
    }
}

/// The names of the modifier keys that are held down: shift, control, alt and
/// the system key.
pub fn active_modifiers(pressed: &[bool; 4]) -> (r: Vec<String>)
    ensures
        texts_view(r@) == flagged_modifiers(pressed@, 4),
{
    let mut r: Vec<String> = Vec::new();
    let mut i: usize = 0;
    assert(texts_view(r@) =~= Seq::<Seq<char>>::empty());
    while i < 4
        invariant
            i <= 4,
            texts_view(r@) == flagged_modifiers(pressed@, i as int),
        decreases 4 - i,
    {
        if pressed[i] {
            let ghost before = r@;
            let name = if i == 0 {
                "shift"
            } else if i == 1 {
                "control"
            } else if i == 2 {
                "alt"
            } else {
                "meta"
            };
            r.push(name.to_owned());
            assert(texts_view(r@) =~= texts_view(before).push(name@));
        }
        i += 1;
    }
    r
}

// ---------------------------------------------------------------------------
// Queueing
// ---------------------------------------------------------------------------

/// Queues one event under the next sequence number; a full queue gives up its
/// oldest event.
pub fn queue_pointer_event(
    queue: &mut Neon3PointerEvents,
    state: &mut Neon3PointerState,
    session: &Neon3Session,
    event_type: &str,
    pixel: Option<[u32; 2]>,
    delta: [Scalar32; 2],
    delta_mode: &str,
    button: Option<String>,
    buttons: Vec<String>,
    modifiers: Vec<String>,
)
    ensures
        *final(state) == (Neon3PointerState {
            next_sequence: flow::next_sequence(old(state).next_sequence),
            ..*old(state)
        }),
        events_view(final(queue).events@) == queue::with_room(
            events_view(old(queue).events@),
            MAX_PENDING_POINTER_EVENTS as nat,
        ).push(
            PointerEventView {
                event_type: event_type@,
                pixel: pixel_view(pixel),
                delta: (delta[0], delta[1]),
                delta_mode: delta_mode@,
                button: match button {
                    Some(name) => Some(name@),
                    None => None,
                },
                buttons: texts_view(buttons@),
                modifiers: texts_view(modifiers@),
                pointer_id: 0,
                sequence: final(state).next_sequence,
                generation: session.generation,
                frame_sequence: session.frame_sequence,
            },
        ),
{
    state.next_sequence = state.next_sequence.saturating_add(1);
    let event = Neon3PointerEvent {
        event_type: event_type.to_owned(),
        pixel,
        delta,
        delta_mode: delta_mode.to_owned(),
        button,
        buttons,
        modifiers,
        pointer_id: 0,
        sequence: state.next_sequence,
        generation: session.generation,
        frame_sequence: session.frame_sequence,
    };
    queue::push_with_room(&mut queue.events, MAX_PENDING_POINTER_EVENTS, event);
    proof {
        let before = old(queue).events@;
        assert(events_view(queue::with_room(before, MAX_PENDING_POINTER_EVENTS as nat))
            =~= queue::with_room(events_view(before), MAX_PENDING_POINTER_EVENTS as nat));
        assert(events_view(queue.events@) =~= events_view(
            queue::with_room(before, MAX_PENDING_POINTER_EVENTS as nat),
        ).push(event@));
    }
}

/// What a pointer did, before it is queued.
#[derive(Clone, Copy, Debug)]
pub struct PointerDraft {
    pub event_type: &'static str,
    pub pixel: Option<[u32; 2]>,
    pub delta: [Scalar32; 2],
    pub delta_mode: &'static str,
    pub button: Option<MouseButton>,
}

/// What a draft holds.
pub struct DraftView {
    pub event_type: Seq<char>,
    pub pixel: Option<(u32, u32)>,
    pub delta: (Scalar32, Scalar32),
    pub delta_mode: Seq<char>,
    pub button: Option<MouseButton>,
}

impl View for PointerDraft {
    type V = DraftView;

    open spec fn view(&self) -> DraftView {
        DraftView {
            event_type: self.event_type@,
            pixel: pixel_view(self.pixel),
            delta: (self.delta[0], self.delta[1]),
            delta_mode: self.delta_mode@,
            button: self.button,
        }
    }
}

/// A list of drafts by what they hold.
pub open spec fn drafts_view(drafts: Seq<PointerDraft>) -> Seq<DraftView> {
    drafts.map_values(|d: PointerDraft| d@)
}

/// The number zero.
pub open spec fn zero() -> Scalar32 {
    Scalar32 { bits: 0 }
}

/// A draft without movement of a wheel.
pub open spec fn plain_draft(
    event_type: Seq<char>,
    pixel: Option<(u32, u32)>,
    button: Option<MouseButton>,
) -> DraftView {
    DraftView { event_type, pixel, delta: (zero(), zero()), delta_mode: "pixel"@, button }
}

/// One turn of the wheel.
#[derive(Clone, Copy, Debug)]
pub struct WheelTurn {
    pub delta: [Scalar32; 2],
    /// Whether the turn is counted in lines rather than in pixels.
    pub in_lines: bool,
}

/// What the window reports for one update.
pub struct PointerInput {
    pub focused: bool,
    /// The logical pixel under the pointer, where it is over the window.
    pub pixel: Option<[u32; 2]>,
    /// For each followed button whether it is down, went down or came up.
    pub pressed: [bool; 5],
    pub just_pressed: [bool; 5],
    pub just_released: [bool; 5],
    /// For each modifier key whether it is down.
    pub modifiers: [bool; 4],
    pub wheel: Vec<WheelTurn>,
}

/// What the first `count` followed buttons did.
pub open spec fn button_drafts(input: PointerInput, count: int) -> Seq<DraftView>
    decreases count,
{
    if count <= 0 {
        Seq::empty()
    } else {
        let i = count - 1;
        let button = Some(followed_buttons()[i]);
        let earlier = button_drafts(input, i);
        let with_down = if input.just_pressed[i] {
            earlier.push(plain_draft("down"@, pixel_view(input.pixel), button))
        } else {
            earlier
        };
        if input.just_released[i] {
            with_down.push(plain_draft("up"@, pixel_view(input.pixel), button))
        } else {
            with_down
        }
    }
}

/// What the turns of the wheel are, at the pixel where the pointer is or was.
pub open spec fn wheel_drafts(wheel: Seq<WheelTurn>, pixel: Option<(u32, u32)>) -> Seq<DraftView> {
    wheel.map_values(
        |turn: WheelTurn|
            DraftView {
                event_type: "wheel"@,
                pixel,
                delta: (turn.delta[0], turn.delta[1]),
                delta_mode: if turn.in_lines {
                    "line"@
                } else {
                    "pixel"@
                },
                button: None,
            },
    )
}

/// What the loss of the focus is.
pub open spec fn cancel_drafts(state: Neon3PointerState, input: PointerInput) -> Seq<DraftView> {
    if state.focused && !input.focused {
        seq![plain_draft("cancel"@, pixel_view(state.last_pixel), None)]
    } else {
        Seq::empty()
    }
}

/// What the pointer did at the edge of the window.
pub open spec fn crossing_drafts(state: Neon3PointerState, input: PointerInput) -> Seq<DraftView> {
    if input.pixel is Some && !state.inside {
        seq![plain_draft("enter"@, pixel_view(input.pixel), None)]
    } else if input.pixel is None && state.inside {
        seq![plain_draft("leave"@, pixel_view(state.last_pixel), None)]
    } else {
        Seq::empty()
    }
}

/// What the pointer did over the window.
pub open spec fn move_drafts(state: Neon3PointerState, input: PointerInput) -> Seq<DraftView> {
    if input.pixel is Some && pixel_view(input.pixel) != pixel_view(state.last_pixel) {
        seq![plain_draft("move"@, pixel_view(input.pixel), None)]
    } else {
        Seq::empty()
    }
}

/// Everything that happened in an update. A window without focus reports only
/// that it lost the focus.
pub open spec fn pointer_drafts(state: Neon3PointerState, input: PointerInput) -> Seq<DraftView> {
    if !input.focused {
        cancel_drafts(state, input)
    } else {
        crossing_drafts(state, input) + move_drafts(state, input) + button_drafts(input, 5)
            + wheel_drafts(
            input.wheel@,
            if input.pixel is Some {
                pixel_view(input.pixel)
            } else {
                pixel_view(state.last_pixel)
            },
        )
    }
}

fn plain(event_type: &'static str, pixel: Option<[u32; 2]>, button: Option<MouseButton>) -> (r:
    PointerDraft)
    ensures
        r@ == plain_draft(event_type@, pixel_view(pixel), button),
{
    PointerDraft {
        event_type,
        pixel,
        delta: [Scalar32 { bits: 0 }, Scalar32 { bits: 0 }],
        delta_mode: "pixel",
        button,
    }
}

fn same_pixel(a: Option<[u32; 2]>, b: Option<[u32; 2]>) -> (r: bool)
    ensures
        r == (pixel_view(a) == pixel_view(b)),
{
    match (a, b) {
        (Some(p), Some(q)) => p[0] == q[0] && p[1] == q[1],
        (None, None) => true,
        _ => false,
    }
}

/// Adds a draft to a list.
fn add_draft(drafts: &mut Vec<PointerDraft>, draft: PointerDraft)
    ensures
        drafts_view(final(drafts)@) == drafts_view(old(drafts)@).push(draft@),
{
    drafts.push(draft);
    assert(drafts_view(drafts@) =~= drafts_view(old(drafts)@).push(draft@));
}

fn draft_buttons(drafts: &mut Vec<PointerDraft>, input: &PointerInput)
    ensures
        drafts_view(final(drafts)@) == drafts_view(old(drafts)@) + button_drafts(*input, 5),
{
    let ghost before = drafts_view(drafts@);
    let mut i: usize = 0;
    assert(before + button_drafts(*input, 0) =~= before);
    while i < 5
        invariant
            i <= 5,
            drafts_view(drafts@) == before + button_drafts(*input, i as int),
        decreases 5 - i,
    {
        let button = followed_button(i);
        if input.just_pressed[i] {
            add_draft(drafts, plain("down", input.pixel, Some(button)));
        }
        if input.just_released[i] {
            add_draft(drafts, plain("up", input.pixel, Some(button)));
        }
        assert(drafts_view(drafts@) =~= before + button_drafts(*input, i + 1));
        i += 1;
    }
}

fn draft_wheel(drafts: &mut Vec<PointerDraft>, wheel: &Vec<WheelTurn>, pixel: Option<[u32; 2]>)
    ensures
        drafts_view(final(drafts)@) == drafts_view(old(drafts)@) + wheel_drafts(
            wheel@,
            pixel_view(pixel),
        ),
{
    let ghost before = drafts_view(drafts@);
    let ghost all = wheel_drafts(wheel@, pixel_view(pixel));
    let mut i: usize = 0;
    assert(before + all.take(0) =~= before);
    while i < wheel.len()
        invariant
            i <= wheel.len(),
            all == wheel_drafts(wheel@, pixel_view(pixel)),
            drafts_view(drafts@) == before + all.take(i as int),
        decreases wheel.len() - i,
    {
        let turn = wheel[i];
        let delta_mode = if turn.in_lines {
            "line"
        } else {
            "pixel"
        };
        add_draft(
            drafts,
            PointerDraft {
                event_type: "wheel",
                pixel,
                delta: turn.delta,
                delta_mode,
                button: None,
            },
        );
        assert(drafts_view(drafts@) =~= before + all.take(i + 1));
        i += 1;
    }
    assert(all.take(i as int) =~= all);
}

/// Lists everything that happened in an update.
pub fn draft_pointer_events(state: &Neon3PointerState, input: &PointerInput) -> (r: Vec<
    PointerDraft,
>)
    ensures
        drafts_view(r@) == pointer_drafts(*state, *input),
{
    let mut r: Vec<PointerDraft> = Vec::new();
    assert(drafts_view(r@) =~= Seq::<DraftView>::empty());
    if !input.focused {
        if state.focused {
            add_draft(&mut r, plain("cancel", state.last_pixel, None));
            assert(drafts_view(r@) =~= cancel_drafts(*state, *input));
        }
        return r;
    }
    if input.pixel.is_some() && !state.inside {
        add_draft(&mut r, plain("enter", input.pixel, None));
    } else if input.pixel.is_none() && state.inside {
        add_draft(&mut r, plain("leave", state.last_pixel, None));
    }
    assert(drafts_view(r@) =~= crossing_drafts(*state, *input));
    if input.pixel.is_some() && !same_pixel(input.pixel, state.last_pixel) {
        add_draft(&mut r, plain("move", input.pixel, None));
    }
    assert(drafts_view(r@) =~= crossing_drafts(*state, *input) + move_drafts(*state, *input));
    draft_buttons(&mut r, input);
    let wheel_pixel = if input.pixel.is_some() {
        input.pixel
    } else {
        state.last_pixel
    };
    draft_wheel(&mut r, &input.wheel, wheel_pixel);
    r
}

/// The event that a draft becomes.
pub open spec fn drafted_event(
    draft: DraftView,
    sequence: u64,
    session: Neon3Session,
    buttons: Seq<Seq<char>>,
    modifiers: Seq<Seq<char>>,
) -> PointerEventView {
    PointerEventView {
        event_type: draft.event_type,
        pixel: draft.pixel,
        delta: draft.delta,
        delta_mode: draft.delta_mode,
        button: match draft.button {
            Some(button) => Some(button_name(button)),
            None => None,
        },
        buttons,
        modifiers,
        pointer_id: 0,
        sequence,
        generation: session.generation,
        frame_sequence: session.frame_sequence,
    }
}

/// The queue and the last sequence number after drafts were queued one by one.
pub open spec fn queued_drafts(
    events: Seq<PointerEventView>,
    sequence: u64,
    drafts: Seq<DraftView>,
    session: Neon3Session,
    buttons: Seq<Seq<char>>,
    modifiers: Seq<Seq<char>>,
) -> (Seq<PointerEventView>, u64)
    decreases drafts.len(),
{
    if drafts.len() == 0 {
        (events, sequence)
    } else {
        let (earlier, last) = queued_drafts(
            events,
            sequence,
            drafts.drop_last(),
            session,
            buttons,
            modifiers,
        );
        let next = flow::next_sequence(last);
        (
            queue::with_room(earlier, MAX_PENDING_POINTER_EVENTS as nat).push(
                drafted_event(drafts.last(), next, session, buttons, modifiers),
            ),
            next,
        )
    }
}

fn copy_texts(texts: &Vec<String>) -> (r: Vec<String>)
    ensures
        texts_view(r@) == texts_view(texts@),
{
    let r = texts.clone();
    assert(r@ =~= texts@);
    r
}

/// Whether an update takes the turns of the wheel: the screen surface is there
/// and the window has the focus. Otherwise they stay with the window.
pub fn takes_wheel(session: &Neon3Session, focused: bool) -> (r: bool)
    ensures
        r == (session.surface_acquired && focused),
{
    session.surface_acquired && focused
}

/// What an update of the window leaves in the state of the pointer: where the
/// pointer is, as long as the window has the focus.
pub open spec fn is_followed(
    before: Neon3PointerState,
    after: Neon3PointerState,
    input: PointerInput,
) -> bool {
    &&& after.focused == input.focused
    &&& if input.focused {
        &&& after.inside == (input.pixel is Some)
        &&& pixel_view(after.last_pixel) == pixel_view(input.pixel)
    } else {
        &&& after.inside == before.inside
        &&& pixel_view(after.last_pixel) == pixel_view(before.last_pixel)
    }
}

/// Queues what happened in an update, once the screen surface is there.
pub fn publish_pointer_events(
    session: &Neon3Session,
    queue: &mut Neon3PointerEvents,
    state: &mut Neon3PointerState,
    input: &PointerInput,
)
    ensures
        !session.surface_acquired ==> *final(queue) == *old(queue) && *final(state) == *old(state),
        session.surface_acquired ==> {
            &&& (events_view(final(queue).events@), final(state).next_sequence) == queued_drafts(
                events_view(old(queue).events@),
                old(state).next_sequence,
                pointer_drafts(*old(state), *input),
                *session,
                flagged_buttons(input.pressed@, 5),
                flagged_modifiers(input.modifiers@, 4),
            )
            &&& final(state).focused == input.focused
            &&& input.focused ==> final(state).inside == (input.pixel is Some)
            &&& input.focused ==> pixel_view(final(state).last_pixel) == pixel_view(input.pixel)
            &&& !input.focused ==> final(state).inside == old(state).inside
            &&& !input.focused ==> final(state).last_pixel == old(state).last_pixel
            &&& is_followed(*old(state), *final(state), *input)
        },
{
    if !session.surface_acquired {
        return;
    }
    let buttons = pressed_mouse_buttons(&input.pressed);
    let modifiers = active_modifiers(&input.modifiers);
    let drafts = draft_pointer_events(state, input);
    let ghost all = drafts_view(drafts@);
    let ghost (start_events, start) = (events_view(queue.events@), state.next_sequence);
    let ghost first = *state;
    let mut i: usize = 0;
    assert(all.take(0) =~= Seq::<DraftView>::empty());
    while i < drafts.len()
        invariant
            i <= drafts.len(),
            all == drafts_view(drafts@),
            texts_view(buttons@) == flagged_buttons(input.pressed@, 5),
            texts_view(modifiers@) == flagged_modifiers(input.modifiers@, 4),
            *state == (Neon3PointerState { next_sequence: state.next_sequence, ..first }),
            (events_view(queue.events@), state.next_sequence) == queued_drafts(
                start_events,
                start,
                all.take(i as int),
                *session,
                flagged_buttons(input.pressed@, 5),
                flagged_modifiers(input.modifiers@, 4),
            ),
        decreases drafts.len() - i,
    {
        let draft = drafts[i];
        assert(all.take(i + 1).drop_last() =~= all.take(i as int));
        assert(all.take(i + 1).last() == draft@);
        let button = match draft.button {
            Some(button) => Some(mouse_button_name(button)),
            None => None,
        };
        queue_pointer_event(
            queue,
            state,
            session,
            draft.event_type,
            draft.pixel,
            draft.delta,
            draft.delta_mode,
            button,
            copy_texts(&buttons),
            copy_texts(&modifiers),
        );
        i += 1;
    }
    assert(all.take(i as int) =~= all);
    state.focused = input.focused;
    if input.focused {
        state.inside = input.pixel.is_some();
        state.last_pixel = input.pixel;
    }
}

// ---------------------------------------------------------------------------
// Sending
// ---------------------------------------------------------------------------

/// Whether an event is a move.
pub open spec fn is_move(event: PointerEventView) -> bool {
    event.event_type == "move"@
}

/// The events without the moves that another move follows at once: of a run of
/// moves only the newest counts.
pub open spec fn collapsed(events: Seq<PointerEventView>) -> Seq<PointerEventView>
    decreases events.len(),
{
    if events.len() == 0 {
        Seq::empty()
    } else {
        let earlier = collapsed(events.drop_last());
        if is_move(events.last()) && earlier.len() > 0 && is_move(earlier.last()) {
            earlier.drop_last().push(events.last())
        } else {
            earlier.push(events.last())
        }
    }
}

/// Takes the waiting events out of the queue, with every run of moves reduced
/// to its newest.
pub fn take_pointer_events(queue: &mut Neon3PointerEvents) -> (r: Vec<Neon3PointerEvent>)
    ensures
        events_view(r@) == collapsed(events_view(old(queue).events@)),
        final(queue).events@ == Seq::<Neon3PointerEvent>::empty(),
{
    let mut rest: Vec<Neon3PointerEvent> = Vec::new();
    rest.append(&mut queue.events);
    let ghost whole = rest@;
    let ghost all = events_view(whole);
    let ghost mut done: int = 0;
    let mut r: Vec<Neon3PointerEvent> = Vec::new();
    assert(all.take(0) =~= Seq::<PointerEventView>::empty());
    assert(events_view(r@) =~= Seq::<PointerEventView>::empty());
    assert(whole.skip(0) =~= whole);
    while rest.len() > 0
        invariant
            0 <= done <= whole.len(),
            rest@ == whole.skip(done),
            all == events_view(whole),
            events_view(r@) == collapsed(all.take(done)),
        decreases rest.len(),
    {
        let event = rest.remove(0);
        let ghost earlier = r@;
        proof {
            assert(event == whole[done]);
            assert(rest@ =~= whole.skip(done + 1));
            assert(all.take(done + 1).drop_last() =~= all.take(done));
            assert(all.take(done + 1).last() == event@);
            if earlier.len() > 0 {
                assert(events_view(earlier).last() == earlier.last()@);
            }
        }
        if text::same_text(event.event_type.as_str(), "move") && r.len() > 0 && text::same_text(
            r[r.len() - 1].event_type.as_str(),
            "move",
        ) {
            r.pop();
            assert(events_view(r@) =~= events_view(earlier).drop_last());
        }
        let ghost kept = r@;
        r.push(event);
        proof {
            assert(events_view(r@) =~= events_view(kept).push(event@));
            done = done + 1;
        }
    }
    assert(all.take(done) =~= all);
    r
}

/// The JSON form of an optional text.
pub open spec fn optional_text_json(t: Option<Seq<char>>) -> json::JsonView {
    match t {
        Some(t) => json::JsonView::Text(t),
        None => json::JsonView::Null,
    }
}

/// The JSON form of a list of texts.
pub open spec fn texts_json(texts: Seq<Seq<char>>) -> json::JsonView {
    json::JsonView::Items(texts.map_values(|t: Seq<char>| json::JsonView::Text(t)))
}

/// The JSON form of a pixel; without one it is the origin.
pub open spec fn pixel_json(pixel: Option<(u32, u32)>) -> json::JsonView {
    let (x, y) = match pixel {
        Some(p) => p,
        None => (0u32, 0u32),
    };
    json::JsonView::Items(seq![json::json_number(x as u64), json::json_number(y as u64)])
}

/// The JSON form of an event, given that of its wheel movement.
pub open spec fn pointer_event_json(
    event: PointerEventView,
    surface_id: Seq<char>,
    delta: json::JsonView,
    timestamp: u64,
) -> json::JsonView {
    json::JsonView::Members(
        map![
            "event_type"@ => json::JsonView::Text(event.event_type),
            "surface_id"@ => json::JsonView::Text(surface_id),
            "pixel"@ => pixel_json(event.pixel),
            "delta"@ => delta,
            "delta_mode"@ => json::JsonView::Text(event.delta_mode),
            "button"@ => optional_text_json(event.button),
            "buttons"@ => texts_json(event.buttons),
            "modifiers"@ => texts_json(event.modifiers),
            "pointer_id"@ => json::json_number(event.pointer_id),
            "sequence"@ => json::json_number(event.sequence),
            "generation"@ => json::json_number(event.generation),
            "frame_sequence"@ => json::json_number(event.frame_sequence),
            "timestamp_monotonic_ns"@ => json::json_number(timestamp),
        ],
    )
}

/// The request for an event. All events go to the screen surface: screen and
/// world interfaces share one hit image.
pub open spec fn pointer_call(
    session: Neon3Session,
    pid: u32,
    event: PointerEventView,
    delta: json::JsonView,
    timestamp: u64,
) -> TransportView {
    request::ui_request(
        session,
        pid,
        "bevy-pointer-"@ + text::decimal(event.sequence as nat),
        "ui.host.inbound"@,
        ParamsView::Json(
            json::JsonView::Members(
                map![
                    "kind"@ => json::JsonView::Text("pointer_event"@),
                    "event"@ => pointer_event_json(event, session.surface_id@, delta, timestamp),
                ],
            ),
        ),
    )
}

fn encode_pixel(pixel: Option<[u32; 2]>) -> (r: serde_json::Value)
    ensures
        json::json_view(r) == pixel_json(pixel_view(pixel)),
{
    let p: [u32; 2] = match pixel {
        Some(p) => p,
        None => [0, 0],
    };
    let mut items: Vec<serde_json::Value> = Vec::new();
    items.push(json::json_natural(p[0] as u64));
    items.push(json::json_natural(p[1] as u64));
    proof {
        let (x, y) = match pixel_view(pixel) {
            Some(p) => p,
            None => (0u32, 0u32),
        };
        assert(items@.map_values(|v: serde_json::Value| json::json_view(v)) =~= seq![
            json::json_number(x as u64),
            json::json_number(y as u64),
        ]);
    }
    json::json_items(items)
}

fn encode_texts(texts: &Vec<String>) -> (r: serde_json::Value)
    ensures
        json::json_view(r) == texts_json(texts_view(texts@)),
{
    let ghost all = texts_view(texts@).map_values(|t: Seq<char>| json::JsonView::Text(t));
    let mut items: Vec<serde_json::Value> = Vec::new();
    let mut i: usize = 0;
    while i < texts.len()
        invariant
            i <= texts.len(),
            all == texts_view(texts@).map_values(|t: Seq<char>| json::JsonView::Text(t)),
            items@.map_values(|v: serde_json::Value| json::json_view(v)) =~= all.take(i as int),
        decreases texts.len() - i,
    {
        let ghost before = items@;
        let item = json::json_text(texts[i].clone());
        items.push(item);
        assert(items@.map_values(|v: serde_json::Value| json::json_view(v))
            =~= before.map_values(|v: serde_json::Value| json::json_view(v)).push(
            json::json_view(item),
        ));
        i += 1;
    }
    assert(all.take(i as int) =~= all);
    json::json_items(items)
}

fn encode_pointer_event(
    event: &Neon3PointerEvent,
    surface_id: &str,
    delta: serde_json::Value,
    timestamp: u64,
) -> (r: serde_json::Value)
    ensures
        json::json_view(r) == pointer_event_json(
            event@,
            surface_id@,
            json::json_view(delta),
            timestamp,
        ),
{
    let button = match &event.button {
        Some(name) => json::json_text(name.clone()),
        None => json::json_null(),
    };
    let mut r = json::json_object();
    json::json_set(&mut r, "event_type", json::json_text(event.event_type.clone()));
    json::json_set(&mut r, "surface_id", json::json_text(surface_id.to_owned()));
    json::json_set(&mut r, "pixel", encode_pixel(event.pixel));
    json::json_set(&mut r, "delta", delta);
    json::json_set(&mut r, "delta_mode", json::json_text(event.delta_mode.clone()));
    json::json_set(&mut r, "button", button);
    json::json_set(&mut r, "buttons", encode_texts(&event.buttons));
    json::json_set(&mut r, "modifiers", encode_texts(&event.modifiers));
    json::json_set(&mut r, "pointer_id", json::json_natural(event.pointer_id));
    json::json_set(&mut r, "sequence", json::json_natural(event.sequence));
    json::json_set(&mut r, "generation", json::json_natural(event.generation));
    json::json_set(&mut r, "frame_sequence", json::json_natural(event.frame_sequence));
    json::json_set(&mut r, "timestamp_monotonic_ns", json::json_natural(timestamp));
    r
}

/// Builds the request for an event. The wheel movement comes as JSON, because
/// it holds floating point numbers.
pub fn pointer_request(
    session: &Neon3Session,
    event: &Neon3PointerEvent,
    delta: serde_json::Value,
    timestamp: u64,
    pid: u32,
) -> (r: TransportRequest)
    ensures
        r@ == pointer_call(*session, pid, event@, json::json_view(delta), timestamp),
{
    let mut params = json::json_object();
    json::json_set(&mut params, "kind", json::json_text("pointer_event".to_owned()));
    json::json_set(
        &mut params,
        "event",
        encode_pointer_event(event, session.surface_id.as_str(), delta, timestamp),
    );
    request::request_to_ui(
        "bevy-pointer-".to_owned().concat(text::decimal_text(event.sequence).as_str()),
        "ui.host.inbound",
        session,
        pid,
        RequestParams::Json(params),
    )
}

/// The events that are no moves.
pub open spec fn without_moves(events: Seq<PointerEventView>) -> Seq<PointerEventView>
    decreases events.len(),
{
    if events.len() == 0 {
        Seq::empty()
    } else if is_move(events.last()) {
        without_moves(events.drop_last())
    } else {
        without_moves(events.drop_last()).push(events.last())
    }
}

/// Collapsing moves loses nothing else: all other events stay, in their order,
/// the newest event stays the last one, and no move follows another.
pub proof fn law_collapse_keeps_the_rest(events: Seq<PointerEventView>)
    ensures
        without_moves(collapsed(events)) == without_moves(events),
        events.len() > 0 ==> collapsed(events).len() > 0 && collapsed(events).last()
            == events.last(),
        forall|i: int|
            0 <= i < collapsed(events).len() - 1 ==> !(is_move(#[trigger] collapsed(events)[i])
                && is_move(collapsed(events)[i + 1])),
    decreases events.len(),
{
    if events.len() > 0 {
        let shorter = events.drop_last();
        law_collapse_keeps_the_rest(shorter);
        let earlier = collapsed(shorter);
        let after = collapsed(events);
        assert(after.last() == events.last());
        if is_move(events.last()) && earlier.len() > 0 && is_move(earlier.last()) {
            assert(after.drop_last() =~= earlier.drop_last());
            assert forall|i: int| 0 <= i < after.len() - 1 implies !(is_move(#[trigger] after[i])
                && is_move(after[i + 1])) by {
                assert(after[i] == earlier[i]);
                assert(!(is_move(earlier[i]) && is_move(earlier[i + 1])));
            }
        } else {
            assert(after.drop_last() =~= earlier);
            assert forall|i: int| 0 <= i < after.len() - 1 implies !(is_move(#[trigger] after[i])
                && is_move(after[i + 1])) by {
                assert(after[i] == earlier[i]);
                if i < earlier.len() - 1 {
                    assert(after[i + 1] == earlier[i + 1]);
                }
            }
        }
    }
}

/// The sequence number after so many events.
pub open spec fn sequence_after(sequence: u64, count: nat) -> u64
    decreases count,
{
    if count == 0 {
        sequence
    } else {
        flow::next_sequence(sequence_after(sequence, (count - 1) as nat))
    }
}

/// The events that drafts become, each under the next sequence number.
pub open spec fn drafted_events(
    sequence: u64,
    drafts: Seq<DraftView>,
    session: Neon3Session,
    buttons: Seq<Seq<char>>,
    modifiers: Seq<Seq<char>>,
) -> Seq<PointerEventView> {
    Seq::new(
        drafts.len(),
        |i: int|
            drafted_event(
                drafts[i],
                sequence_after(sequence, (i + 1) as nat),
                session,
                buttons,
                modifiers,
            ),
    )
}

/// However much happens in an update, a queue within its limit then holds the
/// newest of all events, and stays within its limit.
pub proof fn law_pointer_queue_keeps_newest(
    events: Seq<PointerEventView>,
    sequence: u64,
    drafts: Seq<DraftView>,
    session: Neon3Session,
    buttons: Seq<Seq<char>>,
    modifiers: Seq<Seq<char>>,
)
    requires
        events.len() <= MAX_PENDING_POINTER_EVENTS,
    ensures
        queued_drafts(events, sequence, drafts, session, buttons, modifiers) == (
            queue::newest(
                events + drafted_events(sequence, drafts, session, buttons, modifiers),
                MAX_PENDING_POINTER_EVENTS as nat,
            ),
            sequence_after(sequence, drafts.len()),
        ),
        queued_drafts(events, sequence, drafts, session, buttons, modifiers).0.len()
            <= MAX_PENDING_POINTER_EVENTS,
    decreases drafts.len(),
{
    let max = MAX_PENDING_POINTER_EVENTS as nat;
    let all = drafted_events(sequence, drafts, session, buttons, modifiers);
    if drafts.len() == 0 {
        assert(events + all =~= events);
    } else {
        let shorter = drafts.drop_last();
        law_pointer_queue_keeps_newest(events, sequence, shorter, session, buttons, modifiers);
        let earlier = drafted_events(sequence, shorter, session, buttons, modifiers);
        let held = queue::newest(events + earlier, max);
        queue::law_room_keeps_newest(held, max, all.last());
        queue::law_newest_of_newest(events + earlier, seq![all.last()], max);
        assert(held.push(all.last()) =~= held + seq![all.last()]);
        assert((events + earlier) + seq![all.last()] =~= events + all);
    }
}

proof fn lemma_event_names()
    ensures
        "enter"@[0] == 'e' && "leave"@[0] == 'l' && "move"@[0] == 'm' && "down"@[0] == 'd',
        "up"@[0] == 'u' && "wheel"@[0] == 'w' && "cancel"@[0] == 'c',
{
    reveal_strlit("enter");
    reveal_strlit("leave");
    reveal_strlit("move");
    reveal_strlit("down");
    reveal_strlit("up");
    reveal_strlit("wheel");
    reveal_strlit("cancel");
}

/// Whether a draft reports what the window says of a followed button.
spec fn reports(d: DraftView, input: PointerInput, b: int) -> bool {
    &&& d.button == Some(followed_buttons()[b])
    &&& d.event_type == "down"@ ==> input.just_pressed[b]
    &&& d.event_type == "up"@ ==> input.just_released[b]
}

proof fn lemma_button_drafts(input: PointerInput, count: int)
    requires
        0 <= count <= 5,
    ensures
        forall|i: int|
            0 <= i < button_drafts(input, count).len() ==> {
                let d = #[trigger] button_drafts(input, count)[i];
                &&& d.event_type == "down"@ || d.event_type == "up"@
                &&& d.pixel == pixel_view(input.pixel)
                &&& d.delta == (zero(), zero())
                &&& d.delta_mode == "pixel"@
                &&& exists|b: int| 0 <= b < count && #[trigger] reports(d, input, b)
            },
    decreases count,
{
    if count > 0 {
        lemma_event_names();
        let at = count - 1;
        lemma_button_drafts(input, at);
        let earlier = button_drafts(input, at);
        let all = button_drafts(input, count);
        let down = plain_draft("down"@, pixel_view(input.pixel), Some(followed_buttons()[at]));
        let up = plain_draft("up"@, pixel_view(input.pixel), Some(followed_buttons()[at]));
        assert forall|i: int| 0 <= i < all.len() implies {
            let d = #[trigger] all[i];
            &&& d.event_type == "down"@ || d.event_type == "up"@
            &&& d.pixel == pixel_view(input.pixel)
            &&& d.delta == (zero(), zero())
            &&& d.delta_mode == "pixel"@
            &&& exists|b: int| 0 <= b < count && #[trigger] reports(d, input, b)
        } by {
            if i < earlier.len() {
                assert(all[i] == earlier[i]);
                let b = choose|b: int| 0 <= b < at && #[trigger] reports(earlier[i], input, b);
                assert(reports(all[i], input, b));
            } else {
                assert(all[i] == down && input.just_pressed[at] || all[i] == up
                    && input.just_released[at]);
                assert(reports(all[i], input, at));
            }
        }
    }
}

proof fn lemma_button_is_drafted(input: PointerInput, count: int, b: int)
    requires
        0 <= b < count <= 5,
    ensures
        input.just_pressed[b] ==> button_drafts(input, count).contains(
            plain_draft("down"@, pixel_view(input.pixel), Some(followed_buttons()[b])),
        ),
        input.just_released[b] ==> button_drafts(input, count).contains(
            plain_draft("up"@, pixel_view(input.pixel), Some(followed_buttons()[b])),
        ),
    decreases count,
{
    let at = count - 1;
    let earlier = button_drafts(input, at);
    let all = button_drafts(input, count);
    let down = plain_draft("down"@, pixel_view(input.pixel), Some(followed_buttons()[b]));
    let up = plain_draft("up"@, pixel_view(input.pixel), Some(followed_buttons()[b]));
    if b < at {
        lemma_button_is_drafted(input, at, b);
        assert forall|i: int| 0 <= i < earlier.len() implies all[i] == earlier[i] by {}
        if input.just_pressed[b] {
            let k = choose|k: int| 0 <= k < earlier.len() && earlier[k] == down;
            assert(all[k] == down);
        }
        if input.just_released[b] {
            let k = choose|k: int| 0 <= k < earlier.len() && earlier[k] == up;
            assert(all[k] == up);
        }
    } else {
        if input.just_pressed[b] {
            assert(all[earlier.len() as int] == down);
        }
        if input.just_released[b] {
            assert(all[all.len() - 1] == up);
        }
    }
}

/// Where the reports of the buttons stand among the drafts.
proof fn lemma_button_part(state: Neon3PointerState, input: PointerInput)
    requires
        input.focused,
    ensures
        ({
            let drafts = pointer_drafts(state, input);
            let z = button_drafts(input, 5);
            let n = (crossing_drafts(state, input).len() + move_drafts(state, input).len()) as int;
            &&& n + z.len() <= drafts.len()
            &&& forall|i: int| 0 <= i < z.len() ==> drafts[n + i] == #[trigger] z[i]
            &&& forall|i: int|
                0 <= i < drafts.len() && ((#[trigger] drafts[i]).event_type == "down"@
                    || drafts[i].event_type == "up"@) ==> n <= i < n + z.len() && drafts[i] == z[i
                    - n]
        }),
{
    lemma_event_names();
    let x = crossing_drafts(state, input);
    let y = move_drafts(state, input);
    let z = button_drafts(input, 5);
    let drafts = pointer_drafts(state, input);
    let n = (x.len() + y.len()) as int;
    assert forall|i: int|
        0 <= i < drafts.len() && ((#[trigger] drafts[i]).event_type == "down"@
            || drafts[i].event_type == "up"@) implies n <= i < n + z.len() && drafts[i] == z[i
        - n] by {
        if i < x.len() {
            assert(drafts[i] == x[i]);
        } else if i < n {
            assert(drafts[i] == y[i - x.len()]);
        }
    }
}

/// Every event that an update queues has one of seven types. One that enters,
/// moves, goes down or comes up carries the pixel that the window reports in that
/// update; one that leaves or cancels carries the last pixel before it; a turn of
/// the wheel carries the reported pixel where there is one, and else the last.
/// Without the focus nothing but a cancellation is queued.
pub proof fn law_pointer_events_carry_their_pixel(
    state: Neon3PointerState,
    input: PointerInput,
    i: int,
)
    requires
        0 <= i < pointer_drafts(state, input).len(),
    ensures
        ({
            let d = pointer_drafts(state, input)[i];
            let at_pixel = d.event_type == "enter"@ || d.event_type == "move"@ || d.event_type
                == "down"@ || d.event_type == "up"@;
            let behind = d.event_type == "leave"@ || d.event_type == "cancel"@;
            let turn = d.event_type == "wheel"@;
            &&& at_pixel || behind || turn
            &&& at_pixel ==> d.pixel == pixel_view(input.pixel)
            &&& behind ==> d.pixel == pixel_view(state.last_pixel)
            &&& turn ==> d.pixel == if input.pixel is Some {
                pixel_view(input.pixel)
            } else {
                pixel_view(state.last_pixel)
            }
            &&& !turn ==> d.delta.0.bits == 0 && d.delta.1.bits == 0 && d.delta_mode == "pixel"@
            &&& d.event_type != "down"@ && d.event_type != "up"@ ==> d.button is None
            &&& d.event_type == "cancel"@ <==> !input.focused
        }),
{
    lemma_event_names();
    lemma_button_drafts(input, 5);
    let a = crossing_drafts(state, input);
    let b = move_drafts(state, input);
    let c = button_drafts(input, 5);
    if input.focused {
        let d = pointer_drafts(state, input)[i];
        if i < a.len() {
            assert(d == a[i]);
        } else if i < a.len() + b.len() {
            assert(d == b[i - a.len()]);
        } else if i < a.len() + b.len() + c.len() {
            assert(d == c[i - a.len() - b.len()]);
        }
    }
}

/// Where the window has the focus and reports a pixel that differs from the last
/// one, exactly one move is queued, and its pixel is the last pixel of the state
/// after the update. Else there is none.
pub proof fn law_one_move_to_a_new_pixel(
    state: Neon3PointerState,
    after: Neon3PointerState,
    input: PointerInput,
)
    requires
        is_followed(state, after, input),
    ensures
        ({
            let drafts = pointer_drafts(state, input);
            let moved = input.focused && input.pixel is Some && (state.last_pixel is None
                || input.pixel->0[0] != state.last_pixel->0[0] || input.pixel->0[1]
                != state.last_pixel->0[1]);
            &&& moved <==> exists|i: int|
                0 <= i < drafts.len() && (#[trigger] drafts[i]).event_type == "move"@
            &&& forall|i: int, j: int|
                0 <= i < drafts.len() && 0 <= j < drafts.len() && (#[trigger] drafts[i]).event_type
                    == "move"@ && (#[trigger] drafts[j]).event_type == "move"@ ==> i == j
            &&& forall|i: int|
                0 <= i < drafts.len() && (#[trigger] drafts[i]).event_type == "move"@
                    ==> drafts[i].pixel == pixel_view(after.last_pixel) && drafts[i].pixel
                    == pixel_view(input.pixel)
        }),
{
    lemma_event_names();
    lemma_button_drafts(input, 5);
    let a = crossing_drafts(state, input);
    let b = move_drafts(state, input);
    let c = button_drafts(input, 5);
    let drafts = pointer_drafts(state, input);
    if input.focused {
        assert forall|i: int| 0 <= i < drafts.len() implies ((#[trigger] drafts[i]).event_type
            == "move"@ <==> b.len() == 1 && i == a.len()) by {
            if i < a.len() {
                assert(drafts[i] == a[i]);
            } else if i < a.len() + b.len() {
                assert(drafts[i] == b[i - a.len()]);
            } else if i < a.len() + b.len() + c.len() {
                assert(drafts[i] == c[i - a.len() - b.len()]);
            }
        }
        if b.len() == 1 {
            assert(drafts[a.len() as int] == b[0]);
        }
    } else {
        assert forall|i: int| 0 <= i < drafts.len() implies (#[trigger] drafts[i]).event_type
            != "move"@ by {}
    }
}

/// Where the window has the focus, the pointer enters when it is over the window
/// and was not, and leaves when it was and is no longer; either goes first and
/// happens once. Losing the focus cancels, once and alone.
pub proof fn law_pointer_crosses_the_edge_once(
    state: Neon3PointerState,
    after: Neon3PointerState,
    input: PointerInput,
)
    requires
        is_followed(state, after, input),
    ensures
        ({
            let drafts = pointer_drafts(state, input);
            let enters = input.focused && input.pixel is Some && !state.inside;
            let leaves = input.focused && input.pixel is None && state.inside;
            &&& enters ==> drafts.len() > 0 && drafts[0].event_type == "enter"@
            &&& leaves ==> drafts.len() > 0 && drafts[0].event_type == "leave"@
            &&& forall|i: int|
                0 <= i < drafts.len() && (#[trigger] drafts[i]).event_type == "enter"@ ==> enters
                    && i == 0 && after.inside
            &&& forall|i: int|
                0 <= i < drafts.len() && (#[trigger] drafts[i]).event_type == "leave"@ ==> leaves
                    && i == 0 && !after.inside
            &&& state.focused && !input.focused ==> drafts.len() == 1 && drafts[0].event_type
                == "cancel"@
            &&& !state.focused && !input.focused ==> drafts.len() == 0
        }),
{
    lemma_event_names();
    lemma_button_drafts(input, 5);
    let a = crossing_drafts(state, input);
    let b = move_drafts(state, input);
    let c = button_drafts(input, 5);
    let drafts = pointer_drafts(state, input);
    if input.focused {
        if a.len() > 0 {
            assert(drafts[0] == a[0]);
        }
        assert forall|i: int|
            a.len() <= i < drafts.len() implies (#[trigger] drafts[i]).event_type != "enter"@
            && drafts[i].event_type != "leave"@ by {
            if i < a.len() + b.len() {
                assert(drafts[i] == b[i - a.len()]);
            } else if i < a.len() + b.len() + c.len() {
                assert(drafts[i] == c[i - a.len() - b.len()]);
            }
        }
    }
}

/// Where the window has the focus, a button goes down or comes up exactly where the
/// window reports it, each with its own name.
pub proof fn law_buttons_follow_the_window(
    state: Neon3PointerState,
    input: PointerInput,
    b: int,
    button: MouseButton,
)
    requires
        0 <= b < 5,
        b == 0 ==> button == MouseButton::Left,
        b == 1 ==> button == MouseButton::Right,
        b == 2 ==> button == MouseButton::Middle,
        b == 3 ==> button == MouseButton::Back,
        b == 4 ==> button == MouseButton::Forward,
    ensures
        ({
            let drafts = pointer_drafts(state, input);
            &&& input.focused && input.just_pressed[b] <==> exists|i: int|
                0 <= i < drafts.len() && (#[trigger] drafts[i]).event_type == "down"@
                    && drafts[i].button == Some(button)
            &&& input.focused && input.just_released[b] <==> exists|i: int|
                0 <= i < drafts.len() && (#[trigger] drafts[i]).event_type == "up"@
                    && drafts[i].button == Some(button)
        }),
{
    let drafts = pointer_drafts(state, input);
    assert(followed_buttons()[b] == button);
    if input.focused {
        lemma_button_drafts(input, 5);
        lemma_button_is_drafted(input, 5, b);
        lemma_button_part(state, input);
        let z = button_drafts(input, 5);
        let n = (crossing_drafts(state, input).len() + move_drafts(state, input).len()) as int;
        let down = plain_draft("down"@, pixel_view(input.pixel), Some(button));
        let up = plain_draft("up"@, pixel_view(input.pixel), Some(button));
        if input.just_pressed[b] {
            let k = choose|k: int| 0 <= k < z.len() && z[k] == down;
            assert(drafts[n + k] == z[k]);
        }
        if input.just_released[b] {
            let k = choose|k: int| 0 <= k < z.len() && z[k] == up;
            assert(drafts[n + k] == z[k]);
        }
        assert forall|i: int|
            0 <= i < drafts.len() && ((#[trigger] drafts[i]).event_type == "down"@
                || drafts[i].event_type == "up"@) && drafts[i].button == Some(button) implies (
        drafts[i].event_type == "down"@ ==> input.just_pressed[b]) && (drafts[i].event_type
            == "up"@ ==> input.just_released[b]) by {
            let e = choose|e: int| 0 <= e < 5 && #[trigger] reports(z[i - n], input, e);
            assert(drafts[i] == z[i - n]);
            lemma_followed_buttons_differ(e, b);
        }
    } else {
        lemma_event_names();
    }
}

proof fn lemma_followed_buttons_differ(a: int, b: int)
    requires
        0 <= a < 5,
        0 <= b < 5,
        followed_buttons()[a] == followed_buttons()[b],
    ensures
        a == b,
{
}

/// Where the window has the focus, the turns of the wheel are queued behind
/// everything else, all of them in their order and with their own delta and unit.
pub proof fn law_wheel_turns_go_last(state: Neon3PointerState, input: PointerInput, k: int)
    requires
        input.focused,
        0 <= k < input.wheel@.len(),
    ensures
        ({
            let drafts = pointer_drafts(state, input);
            let first = drafts.len() - input.wheel@.len();
            let d = drafts[first + k];
            &&& first >= 0
            &&& forall|i: int| 0 <= i < first ==> (#[trigger] drafts[i]).event_type != "wheel"@
            &&& d.event_type == "wheel"@
            &&& d.delta == (input.wheel@[k].delta[0], input.wheel@[k].delta[1])
            &&& input.wheel@[k].in_lines ==> d.delta_mode == "line"@
            &&& !input.wheel@[k].in_lines ==> d.delta_mode == "pixel"@
        }),
{
    lemma_event_names();
    lemma_button_drafts(input, 5);
    let a = crossing_drafts(state, input);
    let b = move_drafts(state, input);
    let c = button_drafts(input, 5);
    let drafts = pointer_drafts(state, input);
    let first = (a.len() + b.len() + c.len()) as int;
    assert(drafts.len() == first + input.wheel@.len());
    assert forall|i: int| 0 <= i < first implies (#[trigger] drafts[i]).event_type
        != "wheel"@ by {
        if i < a.len() {
            assert(drafts[i] == a[i]);
        } else if i < a.len() + b.len() {
            assert(drafts[i] == b[i - a.len()]);
        } else {
            assert(drafts[i] == c[i - a.len() - b.len()]);
        }
    }
}

/// Different buttons have different names.
pub proof fn law_button_names_differ(a: MouseButton, b: MouseButton)
    requires
        button_name(a) == button_name(b),
    ensures
        a == b,
{
    reveal_strlit("primary");
    reveal_strlit("secondary");
    reveal_strlit("auxiliary");
    reveal_strlit("back");
    reveal_strlit("forward");
    reveal_strlit("other:");
    assert("primary"@[0] == 'p' && "secondary"@[0] == 's' && "auxiliary"@[0] == 'a');
    assert("back"@[0] == 'b' && "forward"@[0] == 'f');
    assert(forall|n: nat| #[trigger] ("other:"@ + text::decimal(n))[0] == 'o');
    match (a, b) {
        (MouseButton::Other(m), MouseButton::Other(n)) => {
            let front = "other:"@;
            let (x, y) = (text::decimal(m as nat), text::decimal(n as nat));
            assert((front + x).skip(front.len() as int) =~= x);
            assert((front + y).skip(front.len() as int) =~= y);
            text::law_decimals_differ(m as nat, n as nat);
        },
        _ => {
            assert(button_name(a)[0] == button_name(b)[0]);
        },
    }
}

proof fn lemma_flagged_buttons(flags: Seq<bool>, count: int, name: Seq<char>)
    requires
        0 <= count <= 5,
    ensures
        flagged_buttons(flags, count).contains(name) <==> exists|i: int|
            0 <= i < count && flags[i] && name == button_name(#[trigger] followed_buttons()[i]),
    decreases count,
{
    if count > 0 {
        let at = count - 1;
        lemma_flagged_buttons(flags, at, name);
        let before = flagged_buttons(flags, at);
        let all = flagged_buttons(flags, count);
        if before.contains(name) {
            let k = choose|k: int| 0 <= k < before.len() && before[k] == name;
            assert(all[k] == name);
        }
        if flags[at] {
            assert(all[all.len() - 1] == button_name(followed_buttons()[at]));
        }
        if all.contains(name) {
            let k = choose|k: int| 0 <= k < all.len() && all[k] == name;
            if k < before.len() {
                assert(before[k] == name);
                assert(before.contains(name));
            } else {
                assert(name == button_name(followed_buttons()[at]));
            }
        }
    }
}

proof fn lemma_flagged_modifiers(flags: Seq<bool>, count: int, name: Seq<char>)
    requires
        0 <= count <= 4,
    ensures
        flagged_modifiers(flags, count).contains(name) <==> exists|i: int|
            0 <= i < count && flags[i] && name == #[trigger] modifier_names()[i],
    decreases count,
{
    if count > 0 {
        let at = count - 1;
        lemma_flagged_modifiers(flags, at, name);
        let before = flagged_modifiers(flags, at);
        let all = flagged_modifiers(flags, count);
        if before.contains(name) {
            let k = choose|k: int| 0 <= k < before.len() && before[k] == name;
            assert(all[k] == name);
        }
        if flags[at] {
            assert(all[all.len() - 1] == modifier_names()[at]);
        }
        if all.contains(name) {
            let k = choose|k: int| 0 <= k < all.len() && all[k] == name;
            if k < before.len() {
                assert(before[k] == name);
                assert(before.contains(name));
            } else {
                assert(name == modifier_names()[at]);
            }
        }
    }
}

/// The buttons and modifiers that an event lists are those that are down, each by
/// its name, and no others.
pub proof fn law_listed_buttons_are_down(buttons: Seq<bool>, modifiers: Seq<bool>, name: Seq<char>)
    ensures
        flagged_buttons(buttons, 5).contains(name) <==> {
            ||| name == "primary"@ && buttons[0]
            ||| name == "secondary"@ && buttons[1]
            ||| name == "auxiliary"@ && buttons[2]
            ||| name == "back"@ && buttons[3]
            ||| name == "forward"@ && buttons[4]
        },
        flagged_modifiers(modifiers, 4).contains(name) <==> {
            ||| name == "shift"@ && modifiers[0]
            ||| name == "control"@ && modifiers[1]
            ||| name == "alt"@ && modifiers[2]
            ||| name == "meta"@ && modifiers[3]
        },
{
    lemma_flagged_buttons(buttons, 5, name);
    lemma_flagged_modifiers(modifiers, 4, name);
    let f = followed_buttons();
    assert(button_name(f[0]) == "primary"@ && button_name(f[1]) == "secondary"@ && button_name(f[2])
        == "auxiliary"@ && button_name(f[3]) == "back"@ && button_name(f[4]) == "forward"@);
    let g = modifier_names();
    assert(g[0] == "shift"@ && g[1] == "control"@ && g[2] == "alt"@ && g[3] == "meta"@);
}

/// The events of an update are numbered one after another behind the last number,
/// and each holds what was drafted, what is down and what the session shows.
pub proof fn law_queued_event_holds_its_draft(
    sequence: u64,
    drafts: Seq<DraftView>,
    session: Neon3Session,
    buttons: Seq<Seq<char>>,
    modifiers: Seq<Seq<char>>,
    i: int,
)
    requires
        0 <= i < drafts.len(),
        sequence + drafts.len() <= u64::MAX,
    ensures
        drafted_events(sequence, drafts, session, buttons, modifiers).len() == drafts.len(),
        ({
            let event = drafted_events(sequence, drafts, session, buttons, modifiers)[i];
            &&& event.sequence == sequence + i + 1
            &&& event.event_type == drafts[i].event_type
            &&& event.pixel == drafts[i].pixel
            &&& event.delta == drafts[i].delta
            &&& event.delta_mode == drafts[i].delta_mode
            &&& event.button is Some <==> drafts[i].button is Some
            &&& event.button is Some ==> event.button->0 == button_name(drafts[i].button->0)
            &&& event.buttons == buttons
            &&& event.modifiers == modifiers
            &&& event.generation == session.generation
            &&& event.frame_sequence == session.frame_sequence
        }),
        sequence_after(sequence, drafts.len()) == sequence + drafts.len(),
{
    lemma_sequence_after(sequence, (i + 1) as nat);
    lemma_sequence_after(sequence, drafts.len());
}

proof fn lemma_sequence_after(sequence: u64, count: nat)
    requires
        sequence + count <= u64::MAX,
    ensures
        sequence_after(sequence, count) == sequence + count,
    decreases count,
{
    if count > 0 {
        lemma_sequence_after(sequence, (count - 1) as nat);
    }
}

proof fn lemma_collapse_goes_on(
    a: Seq<PointerEventView>,
    b: Seq<PointerEventView>,
    rest: Seq<PointerEventView>,
)
    requires
        collapsed(a) == collapsed(b),
    ensures
        collapsed(a + rest) == collapsed(b + rest),
    decreases rest.len(),
{
    if rest.len() == 0 {
        assert(a + rest =~= a);
        assert(b + rest =~= b);
    } else {
        lemma_collapse_goes_on(a, b, rest.drop_last());
        assert((a + rest).drop_last() =~= a + rest.drop_last());
        assert((b + rest).drop_last() =~= b + rest.drop_last());
    }
}

/// Of moves that follow each other at once the last counts: leaving out a move right
/// before another one makes no difference.
pub proof fn law_move_gives_way_to_the_next(
    front: Seq<PointerEventView>,
    earlier: PointerEventView,
    later: PointerEventView,
    rest: Seq<PointerEventView>,
)
    requires
        earlier.event_type == "move"@,
        later.event_type == "move"@,
    ensures
        collapsed(front.push(earlier).push(later) + rest) == collapsed(front.push(later) + rest),
{
    let long = front.push(earlier).push(later);
    let short = front.push(later);
    assert(long.drop_last() =~= front.push(earlier));
    assert(front.push(earlier).drop_last() =~= front);
    assert(short.drop_last() =~= front);
    let c = collapsed(front);
    let d = collapsed(front.push(earlier));
    assert(d.last() == earlier);
    if c.len() > 0 && is_move(c.last()) {
        assert(d.drop_last() =~= c.drop_last());
    } else {
        assert(d.drop_last() =~= c);
    }
    assert(collapsed(long) == collapsed(short));
    lemma_collapse_goes_on(long, short, rest);
}

/// Events without two moves in a row all stay.
pub proof fn law_single_moves_stay(events: Seq<PointerEventView>)
    requires
        forall|i: int, j: int|
            0 <= i && j == i + 1 && j < events.len() ==> !((#[trigger] events[i]).event_type
                == "move"@ && (#[trigger] events[j]).event_type == "move"@),
    ensures
        collapsed(events) == events,
    decreases events.len(),
{
    if events.len() > 0 {
        let front = events.drop_last();
        assert forall|i: int, j: int| 0 <= i && j == i + 1 && j < front.len() implies !((
        #[trigger] front[i]).event_type == "move"@ && (#[trigger] front[j]).event_type
            == "move"@) by {
            assert(front[i] == events[i] && front[j] == events[j]);
        }
        law_single_moves_stay(front);
        if front.len() > 0 {
            assert(front.last() == events[events.len() - 2]);
            assert(events.last() == events[events.len() - 1]);
        }
        assert(front.push(events.last()) =~= events);
    }
}

/// A pointer event goes to the UI runtime with all that it holds, each part under
/// its name; an event without a pixel goes out at the origin.
pub proof fn law_pointer_call_holds_the_event(
    session: Neon3Session,
    pid: u32,
    event: PointerEventView,
    delta: json::JsonView,
    timestamp: u64,
)
    ensures
        ({
            let call = pointer_call(session, pid, event, delta, timestamp).request;
            let sent = call.params->Json_0.member("event"@)->0;
            let pixel = sent.member("pixel"@)->0;
            &&& call.request_id == "bevy-pointer-"@ + text::decimal(event.sequence as nat)
            &&& call.method == "ui.host.inbound"@
            &&& call.target == "ui-runtime"@
            &&& call.params is Json
            &&& call.params->Json_0.text_member("kind"@) == Some("pointer_event"@)
            &&& call.params->Json_0.member("event"@) is Some
            &&& sent.text_member("event_type"@) == Some(event.event_type)
            &&& sent.text_member("surface_id"@) == Some(session.surface_id@)
            &&& sent.member("pixel"@) is Some && pixel is Items && pixel->Items_0.len() == 2
            &&& event.pixel matches Some(p) ==> {
                &&& pixel->Items_0[0].natural() == Some(p.0 as u64)
                &&& pixel->Items_0[1].natural() == Some(p.1 as u64)
            }
            &&& event.pixel is None ==> {
                &&& pixel->Items_0[0].natural() == Some(0u64)
                &&& pixel->Items_0[1].natural() == Some(0u64)
            }
            &&& sent.member("delta"@) == Some(delta)
            &&& sent.text_member("delta_mode"@) == Some(event.delta_mode)
            &&& sent.text_member("button"@) == event.button
            &&& event.button is None ==> sent.member("button"@) == Some(json::JsonView::Null)
            &&& sent.member("buttons"@)->0 is Items
            &&& sent.member("buttons"@)->0->Items_0.len() == event.buttons.len()
            &&& forall|i: int|
                0 <= i < event.buttons.len() ==> sent.member("buttons"@)->0->Items_0[i]
                    == json::JsonView::Text(#[trigger] event.buttons[i])
            &&& sent.member("modifiers"@)->0 is Items
            &&& sent.member("modifiers"@)->0->Items_0.len() == event.modifiers.len()
            &&& forall|i: int|
                0 <= i < event.modifiers.len() ==> sent.member("modifiers"@)->0->Items_0[i]
                    == json::JsonView::Text(#[trigger] event.modifiers[i])
            &&& sent.natural_member("pointer_id"@) == Some(event.pointer_id)
            &&& sent.natural_member("sequence"@) == Some(event.sequence)
            &&& sent.natural_member("generation"@) == Some(event.generation)
            &&& sent.natural_member("frame_sequence"@) == Some(event.frame_sequence)
            &&& sent.natural_member("timestamp_monotonic_ns"@) == Some(timestamp)
        }),
{
    reveal_strlit("ui.host.inbound");
    reveal_strlit("ui.");
    assert("ui.host.inbound"@.subrange(0, 3) =~= "ui."@);
    reveal_strlit("kind");
    reveal_strlit("event");
    reveal_strlit("event_type");
    reveal_strlit("surface_id");
    reveal_strlit("pixel");
    reveal_strlit("delta");
    reveal_strlit("delta_mode");
    reveal_strlit("button");
    reveal_strlit("buttons");
    reveal_strlit("modifiers");
    reveal_strlit("pointer_id");
    reveal_strlit("sequence");
    reveal_strlit("generation");
    reveal_strlit("frame_sequence");
    reveal_strlit("timestamp_monotonic_ns");
    assert("kind"@.len() == 4 && "event"@.len() == 5);
    assert("pixel"@.len() == 5 && "pixel"@[0] == 'p' && "delta"@.len() == 5 && "delta"@[0] == 'd');
    assert("button"@.len() == 6 && "buttons"@.len() == 7 && "sequence"@.len() == 8
        && "modifiers"@.len() == 9 && "frame_sequence"@.len() == 14
        && "timestamp_monotonic_ns"@.len() == 22);
    assert("event_type"@.len() == 10 && "event_type"@[0] == 'e');
    assert("surface_id"@.len() == 10 && "surface_id"@[0] == 's');
    assert("delta_mode"@.len() == 10 && "delta_mode"@[0] == 'd');
    assert("pointer_id"@.len() == 10 && "pointer_id"@[0] == 'p');
    assert("generation"@.len() == 10 && "generation"@[0] == 'g');
}

/// What is said of a pixel or an event is said of its own parts: the column of a pixel
/// comes before its row, and each part of the model of an event is the part of that
/// name.
pub proof fn law_event_model_shows_the_parts(event: Neon3PointerEvent, x: u32, y: u32, i: int)
    ensures
        pixel_view(Some([x, y])) == Some((x, y)),
        pixel_view(None) is None,
        event@.event_type == event.event_type@,
        event@.pixel == pixel_view(event.pixel),
        event@.delta == (event.delta[0], event.delta[1]),
        event@.delta_mode == event.delta_mode@,
        event@.button is Some <==> event.button is Some,
        event.button is Some ==> event@.button->0 == event.button->0@,
        event@.buttons.len() == event.buttons@.len(),
        0 <= i < event.buttons@.len() ==> event@.buttons[i] == event.buttons@[i]@,
        event@.modifiers.len() == event.modifiers@.len(),
        0 <= i < event.modifiers@.len() ==> event@.modifiers[i] == event.modifiers@[i]@,
        event@.pointer_id == event.pointer_id,
        event@.sequence == event.sequence,
        event@.generation == event.generation,
        event@.frame_sequence == event.frame_sequence,
{
    let p = [x, y];
    assert(p[0] == x && p[1] == y);
}

/// Of the events that an update queues, every one that enters, moves, goes down or
/// comes up carries the pixel that the window reports in that update. Where the window
/// has the focus and reports a pixel other than the last one, exactly one of them is a
/// move, and its pixel is the last pixel of the state after the update; else none is.
pub proof fn law_update_queues_the_reported_pixel(
    state: Neon3PointerState,
    after: Neon3PointerState,
    input: PointerInput,
    session: Neon3Session,
    buttons: Seq<Seq<char>>,
    modifiers: Seq<Seq<char>>,
)
    requires
        is_followed(state, after, input),
    ensures
        ({
            let events = drafted_events(
                state.next_sequence,
                pointer_drafts(state, input),
                session,
                buttons,
                modifiers,
            );
            let moved = input.focused && input.pixel is Some && (state.last_pixel is None
                || input.pixel->0[0] != state.last_pixel->0[0] || input.pixel->0[1]
                != state.last_pixel->0[1]);
            &&& forall|i: int|
                0 <= i < events.len() && ((#[trigger] events[i]).event_type == "enter"@
                    || events[i].event_type == "move"@ || events[i].event_type == "down"@
                    || events[i].event_type == "up"@) ==> events[i].pixel == pixel_view(input.pixel)
            &&& moved <==> exists|i: int|
                0 <= i < events.len() && (#[trigger] events[i]).event_type == "move"@
            &&& forall|i: int, j: int|
                0 <= i < events.len() && 0 <= j < events.len() && (#[trigger] events[i]).event_type
                    == "move"@ && (#[trigger] events[j]).event_type == "move"@ ==> i == j
            &&& forall|i: int|
                0 <= i < events.len() && (#[trigger] events[i]).event_type == "move"@
                    ==> events[i].pixel == pixel_view(after.last_pixel)
        }),
{
    let drafts = pointer_drafts(state, input);
    let events = drafted_events(state.next_sequence, drafts, session, buttons, modifiers);
    law_one_move_to_a_new_pixel(state, after, input);
    assert forall|i: int| 0 <= i < events.len() implies (#[trigger] events[i]).event_type
        == drafts[i].event_type && events[i].pixel == drafts[i].pixel by {}
    assert forall|i: int|
        0 <= i < events.len() && ((#[trigger] events[i]).event_type == "enter"@
            || events[i].event_type == "move"@ || events[i].event_type == "down"@
            || events[i].event_type == "up"@) implies events[i].pixel == pixel_view(
        input.pixel,
    ) by {
        lemma_event_names();
        law_pointer_events_carry_their_pixel(state, input, i);
    }
    if exists|i: int| 0 <= i < drafts.len() && (#[trigger] drafts[i]).event_type == "move"@ {
        let i = choose|i: int| 0 <= i < drafts.len() && (#[trigger] drafts[i]).event_type == "move"@;
        assert(events[i].event_type == "move"@);
    }
    if exists|i: int| 0 <= i < events.len() && (#[trigger] events[i]).event_type == "move"@ {
        let i = choose|i: int| 0 <= i < events.len() && (#[trigger] events[i]).event_type == "move"@;
        assert(drafts[i].event_type == "move"@);
    }
    assert forall|i: int, j: int|
        0 <= i < events.len() && 0 <= j < events.len() && (#[trigger] events[i]).event_type
            == "move"@ && (#[trigger] events[j]).event_type == "move"@ implies i == j by {
        assert(drafts[i].event_type == "move"@ && drafts[j].event_type == "move"@);
    }
}

} // verus!
