//! What the host sends to the flows: intents, host variables and the status of
//! characters.

use vstd::prelude::*;
use vstd::string::*;

use crate::flow;
use crate::flow::{
    CharacterStatusVars, NuiFlowFields, NuiFlowIdentity, NuiFlowVars, RowView, UiInputChange,
    UiInputValue, UiRepeatRow,
};
use crate::input_map;
use crate::input_map::InputMap;
use crate::json;
use crate::order;
use crate::order::{KeyText, TextKeyed};
use crate::request;
use crate::request::{
    InputFrameView, ParamsView, RequestParams, TransportRequest, TransportView,
};
use crate::responses;
use crate::responses::RpcError;
use crate::revision;
use crate::session::Neon3Session;
use crate::text;
use crate::ui::{CharacterStatusBridge, NeonScreenUi, NeonWorldUi};

verus! {

broadcast use vstd::string::group_string_axioms;

// ---------------------------------------------------------------------------
// Intents
// ---------------------------------------------------------------------------

/// An intent of the host itself.
#[derive(Clone, Debug)]
pub struct Neon3Intent {
    pub action: String,
    pub params: serde_json::Value,
    pub request_id: String,
}

/// The intents that wait to be sent.
pub struct Neon3IntentQueue {
    pub events: Vec<Neon3Intent>,
}

impl Default for Neon3IntentQueue {
    fn default() -> (r: Self)
        ensures
            r.events@ == Seq::<Neon3Intent>::empty(),
    {
        Neon3IntentQueue { events: Vec::new() }
    }
}

/// The JSON form of an intent.
pub open spec fn intent_json(intent: Neon3Intent, identity: NuiFlowIdentity) -> json::JsonView {
    json::JsonView::Members(
        map![
            "event_id"@ => json::JsonView::Text(intent.request_id@),
            "kind"@ => json::JsonView::Text("activate"@),
            "intent"@ => json::JsonView::Text(intent.action@),
            "source_node_key"@ => json::JsonView::Text("bevy.pointer.click"@),
            "payload"@ => json::json_view(intent.params),
            "program_revision"@ => revision::program_revision_json(
                revision::program_revision_view(identity.program_revision),
            ),
            "input_revision"@ => json::json_number(identity.expected_input_revision),
            "request_id"@ => json::JsonView::Text(intent.request_id@),
            "idempotency_key"@ => json::JsonView::Text("bevy-ui-intent:"@ + intent.request_id@),
        ],
    )
}

/// The request for an intent.
pub open spec fn intent_call(
    session: Neon3Session,
    pid: u32,
    intent: Neon3Intent,
    identity: NuiFlowIdentity,
) -> TransportView {
    request::ui_request(
        session,
        pid,
        intent.request_id@,
        "ui.host.inbound"@,
        ParamsView::Json(
            json::JsonView::Members(
                map![
                    "kind"@ => json::JsonView::Text("semantic_intent"@),
                    "event"@ => intent_json(intent, identity),
                ],
            ),
        ),
    )
}

fn encode_intent(intent: &Neon3Intent, identity: &NuiFlowIdentity) -> (r: serde_json::Value)
    ensures
        json::json_view(r) == intent_json(*intent, *identity),
{
    let mut r = json::json_object();
    json::json_set(&mut r, "event_id", json::json_text(intent.request_id.clone()));
    json::json_set(&mut r, "kind", json::json_text("activate".to_owned()));
    json::json_set(&mut r, "intent", json::json_text(intent.action.clone()));
    json::json_set(
        &mut r,
        "source_node_key",
        json::json_text("bevy.pointer.click".to_owned()),
    );
    json::json_set(&mut r, "payload", intent.params.clone());
    json::json_set(
        &mut r,
        "program_revision",
        revision::encode_program_revision(&identity.program_revision),
    );
    json::json_set(
        &mut r,
        "input_revision",
        json::json_natural(identity.expected_input_revision),
    );
    json::json_set(&mut r, "request_id", json::json_text(intent.request_id.clone()));
    json::json_set(
        &mut r,
        "idempotency_key",
        json::json_text("bevy-ui-intent:".to_owned().concat(intent.request_id.as_str())),
    );
    r
}

/// Takes the waiting intents and builds their requests, oldest first.
pub fn flush_intents(
    queue: &mut Neon3IntentQueue,
    session: &Neon3Session,
    bridge: &CharacterStatusBridge,
    pid: u32,
) -> (r: Vec<TransportRequest>)
    ensures
        final(queue).events@ == Seq::<Neon3Intent>::empty(),
        request::transports_view(r@) == old(queue).events@.map_values(
            |intent: Neon3Intent| intent_call(*session, pid, intent, bridge.identity),
        ),
{
    let mut intents: Vec<Neon3Intent> = Vec::new();
    intents.append(&mut queue.events);
    let ghost all = intents@.map_values(
        |intent: Neon3Intent| intent_call(*session, pid, intent, bridge.identity),
    );
    let mut r: Vec<TransportRequest> = Vec::new();
    let mut i: usize = 0;
    while i < intents.len()
        invariant
            i <= intents.len(),
            all == intents@.map_values(
                |intent: Neon3Intent| intent_call(*session, pid, intent, bridge.identity),
            ),
            request::transports_view(r@) =~= all.take(i as int),
        decreases intents.len() - i,
    {
        let ghost before = r@;
        let mut params = json::json_object();
        json::json_set(&mut params, "kind", json::json_text("semantic_intent".to_owned()));
        json::json_set(&mut params, "event", encode_intent(&intents[i], &bridge.identity));
        let request = request::request_to_ui(
            intents[i].request_id.clone(),
            "ui.host.inbound",
            session,
            pid,
            RequestParams::Json(params),
        );
        r.push(request);
        assert(request::transports_view(r@) =~= request::transports_view(before).push(request@));
        i += 1;
    }
    assert(all.take(i as int) =~= all);
    assert(intents@ == old(queue).events@);
    r
}

// ---------------------------------------------------------------------------
// Input frames
// ---------------------------------------------------------------------------

/// The request that submits changes under an identity as it now stands.
pub open spec fn input_call(
    session: Neon3Session,
    pid: u32,
    identity: NuiFlowIdentity,
    label: Seq<char>,
    changes: Seq<(Seq<char>, UiInputValue)>,
) -> TransportView {
    let id = flow::flow_request_id(label, identity.request_sequence);
    request::ui_request(
        session,
        pid,
        id,
        "ui.input.frame"@,
        ParamsView::Input(
            InputFrameView {
                program_revision: identity.program_revision,
                expected_input_revision: identity.expected_input_revision,
                request_id: id,
                idempotency_key: id,
                changes,
            },
        ),
    )
}

fn input_request(
    session: &Neon3Session,
    pid: u32,
    identity: &mut NuiFlowIdentity,
    label: &str,
    changes: Vec<UiInputChange>,
) -> (r: TransportRequest)
    ensures
        flow::identity_advanced(*old(identity), *final(identity)),
        r@ == input_call(
            *session,
            pid,
            *final(identity),
            label@,
            flow::changes_view(changes@),
        ),
{
    let frame = flow::next_input_frame(identity, label, changes);
    request::request_to_ui(
        frame.request_id.clone(),
        "ui.input.frame",
        session,
        pid,
        RequestParams::Input(frame),
    )
}

/// Whether the flow takes an input frame now.
pub open spec fn takes_input(bridge: CharacterStatusBridge) -> bool {
    bridge.flow_ready && !bridge.input_pending
}

/// The latest values of host variables.
pub struct Neon3InputChanges {
    pub changes: InputMap,
}

impl Default for Neon3InputChanges {
    fn default() -> (r: Self)
        ensures
            r.changes@ == Map::<Seq<char>, UiInputValue>::empty(),
    {
        Neon3InputChanges { changes: InputMap::new() }
    }
}

/// An input frame that is ready to leave, with the values it took.
pub struct PendingInput {
    pub request: TransportRequest,
    pub values: InputMap,
}

/// Builds the frame for the waiting host variables, where there are any and the
/// flow takes one. The caller reports by `input_sent` or `input_unsent` what
/// became of it.
pub fn flush_input_changes(
    changes: &mut Neon3InputChanges,
    bridge: &mut CharacterStatusBridge,
    session: &Neon3Session,
    pid: u32,
) -> (r: Option<PendingInput>)
    ensures
        r is Some <==> takes_input(*old(bridge)) && old(changes).changes@ != Map::<
            Seq<char>,
            UiInputValue,
        >::empty(),
        r is None ==> *final(changes) == *old(changes) && *final(bridge) == *old(bridge),
        r matches Some(pending) ==> {
            &&& final(changes).changes@ == Map::<Seq<char>, UiInputValue>::empty()
            &&& pending.values == old(changes).changes
            &&& flow::identity_advanced(old(bridge).identity, final(bridge).identity)
            &&& *final(bridge) == (CharacterStatusBridge {
                identity: final(bridge).identity,
                ..*old(bridge)
            })
            &&& pending.request@ == input_call(
                *session,
                pid,
                final(bridge).identity,
                "host-changes"@,
                input_map::sorted_listing(old(changes).changes@),
            )
        },
{
    if !bridge.flow_ready || bridge.input_pending || changes.changes.is_empty() {
        return None;
    }
    let values = changes.changes.take();
    let request = input_request(
        session,
        pid,
        &mut bridge.identity,
        "host-changes",
        values.changes(),
    );
    Some(PendingInput { request, values })
}

/// Notes that an input frame left.
pub fn input_sent(bridge: &mut CharacterStatusBridge)
    ensures
        *final(bridge) == (CharacterStatusBridge { input_pending: true, ..*old(bridge) }),
{
    bridge.input_pending = true;
}

/// The host variables that wait once others could not leave.
pub open spec fn waiting_again(
    waiting: Map<Seq<char>, UiInputValue>,
    unsent: Map<Seq<char>, UiInputValue>,
) -> Map<Seq<char>, UiInputValue> {
    waiting.union_prefer_right(unsent)
}

/// Notes that the frame for the host variables could not leave: they wait
/// again.
pub fn input_unsent(changes: &mut Neon3InputChanges, values: InputMap)
    ensures
        final(changes).changes@ == old(changes).changes@.union_prefer_right(values@),
        final(changes).changes@ == waiting_again(old(changes).changes@, values@),
{
    let entries = values.changes();
    let ghost all = flow::changes_view(entries@);
    let ghost before = changes.changes@;
    let mut i: usize = 0;
    proof {
        assert(all.take(0) =~= Seq::<(Seq<char>, UiInputValue)>::empty());
        assert(before.union_prefer_right(input_map::listing_map(all.take(0))) =~= before);
    }
    while i < entries.len()
        invariant
            i <= entries.len(),
            all == flow::changes_view(entries@),
            changes.changes@ == before.union_prefer_right(
                input_map::listing_map(all.take(i as int)),
            ),
        decreases entries.len() - i,
    {
        let entry = entries[i].clone();
        let ghost m = input_map::listing_map(all.take(i as int));
        proof {
            assert(all.take(i + 1).drop_last() =~= all.take(i as int));
            assert(all.take(i + 1).last() == entry@);
            assert(before.union_prefer_right(m.insert(entry.key@, entry.value))
                =~= before.union_prefer_right(m).insert(entry.key@, entry.value));
        }
        changes.changes.insert(entry.key, entry.value);
        i += 1;
    }
    assert(all.take(i as int) =~= all);
}

/// What could not leave waits again, and nothing else does.
pub proof fn law_unsent_values_wait_again(values: Map<Seq<char>, UiInputValue>)
    ensures
        Map::<Seq<char>, UiInputValue>::empty().union_prefer_right(values) == values,
{
    assert(Map::<Seq<char>, UiInputValue>::empty().union_prefer_right(values) =~= values);
}

// ---------------------------------------------------------------------------
// Status of characters
// ---------------------------------------------------------------------------

/// The slot that an anchor of the form `monster.m<number>` names.
pub open spec fn monster_index(anchor: Seq<char>) -> Option<nat> {
    if text::has_prefix(anchor, "monster.m"@) {
        text::unsigned_value(
            anchor.subrange("monster.m"@.len() as int, anchor.len() as int),
            usize::MAX as nat,
        )
    } else {
        None
    }
}

fn find_monster_index(anchor: &str) -> (r: Option<u64>)
    ensures
        r is Some <==> monster_index(anchor@) is Some,
        r matches Some(index) ==> index == monster_index(anchor@)->0,
{
    match text::after_prefix(anchor, "monster.m") {
        Some(number) => text::parse_unsigned(number, usize::MAX as u64),
        None => None,
    }
}

/// A text without a suffix of that length.
pub open spec fn unsuffixed(key: Seq<char>, suffix: Seq<char>) -> Seq<char> {
    key.take(key.len() - suffix.len())
}

/// The values under keys with a suffix.
pub open spec fn with_suffix(m: Map<Seq<char>, UiInputValue>, suffix: Seq<char>) -> Map<
    Seq<char>,
    UiInputValue,
> {
    Map::new(
        |key: Seq<char>|
            key.len() >= suffix.len() && key == unsuffixed(key, suffix) + suffix && m.contains_key(
                unsuffixed(key, suffix),
            ),
        |key: Seq<char>| m[unsuffixed(key, suffix)],
    )
}

proof fn lemma_with_suffix_insert(
    m: Map<Seq<char>, UiInputValue>,
    suffix: Seq<char>,
    key: Seq<char>,
    value: UiInputValue,
)
    ensures
        with_suffix(m.insert(key, value), suffix) == with_suffix(m, suffix).insert(
            key + suffix,
            value,
        ),
{
    let a = with_suffix(m.insert(key, value), suffix);
    let b = with_suffix(m, suffix).insert(key + suffix, value);
    assert(unsuffixed(key + suffix, suffix) =~= key);
    assert forall|k: Seq<char>| a.contains_key(k) == b.contains_key(k) && (a.contains_key(k)
        ==> a[k] == b[k]) by {
        if k.len() >= suffix.len() && k == unsuffixed(k, suffix) + suffix {
            if unsuffixed(k, suffix) == key {
                assert(k == key + suffix);
            }
        }
    }
    assert(a =~= b);
}

fn suffix_values(values: &InputMap, suffix: &str) -> (r: InputMap)
    ensures
        r@ == with_suffix(values@, suffix@),
{
    let entries = values.changes();
    let ghost all = flow::changes_view(entries@);
    let mut r = InputMap::new();
    let mut i: usize = 0;
    proof {
        assert(all.take(0) =~= Seq::<(Seq<char>, UiInputValue)>::empty());
        assert(with_suffix(input_map::listing_map(all.take(0)), suffix@) =~= r@);
    }
    while i < entries.len()
        invariant
            i <= entries.len(),
            all == flow::changes_view(entries@),
            r@ == with_suffix(input_map::listing_map(all.take(i as int)), suffix@),
        decreases entries.len() - i,
    {
        let entry = entries[i].clone();
        proof {
            assert(all.take(i + 1).drop_last() =~= all.take(i as int));
            assert(all.take(i + 1).last() == entry@);
            lemma_with_suffix_insert(
                input_map::listing_map(all.take(i as int)),
                suffix@,
                entry.key@,
                entry.value,
            );
        }
        r.insert(entry.key.concat(suffix), entry.value);
        i += 1;
    }
    assert(all.take(i as int) =~= all);
    r
}

/// The row of a monster: its values under keys that end in its slot.
pub open spec fn slot_row(row: RowView, index: nat) -> RowView {
    RowView {
        stable_row_key: row.stable_row_key,
        values: with_suffix(row.values, text::decimal(index)),
    }
}

/// The rows of the visible monsters, in the order of the instances.
pub open spec fn monster_rows(world_uis: Seq<&NeonWorldUi<CharacterStatusVars>>) -> Seq<RowView>
    decreases world_uis.len(),
{
    if world_uis.len() == 0 {
        Seq::empty()
    } else {
        let earlier = monster_rows(world_uis.drop_last());
        let last = world_uis.last();
        match monster_index(last.anchor@) {
            Some(index) => if last.visible {
                earlier.push(slot_row(last.row(), index))
            } else {
                earlier
            },
            None => earlier,
        }
    }
}

impl KeyText for RowView {
    open spec fn key_text(&self) -> Seq<char> {
        self.stable_row_key
    }
}

impl KeyText for UiRepeatRow {
    open spec fn key_text(&self) -> Seq<char> {
        self.stable_row_key@
    }
}

impl TextKeyed for UiRepeatRow {
    fn sort_key(&self) -> (r: &str) {
        self.stable_row_key.as_str()
    }
}

/// The rows of the world as they are published: those of the visible monsters,
/// ordered by key, where the host shows world interfaces.
pub open spec fn world_rows(
    session: Neon3Session,
    world_uis: Seq<&NeonWorldUi<CharacterStatusVars>>,
) -> Seq<RowView> {
    if session.config.world_ui {
        order::stable_order(monster_rows(world_uis))
    } else {
        Seq::empty()
    }
}

fn collect_monster_rows(world_uis: &[&NeonWorldUi<CharacterStatusVars>]) -> (r: Vec<UiRepeatRow>)
    ensures
        flow::rows_view(r@) == order::stable_order(monster_rows(world_uis@)),
{
    let mut rows: Vec<UiRepeatRow> = Vec::new();
    let ghost all = world_uis@;
    let mut i: usize = 0;
    assert(all.take(0) =~= Seq::<&NeonWorldUi<CharacterStatusVars>>::empty());
    assert(flow::rows_view(rows@) =~= Seq::<RowView>::empty());
    while i < world_uis.len()
        invariant
            i <= world_uis.len(),
            all == world_uis@,
            flow::rows_view(rows@) == monster_rows(all.take(i as int)),
        decreases world_uis.len() - i,
    {
        assert(all.take(i + 1).drop_last() =~= all.take(i as int));
        assert(all.take(i + 1).last() == all[i as int]);
        if let Some(index) = find_monster_index(world_uis[i].anchor.as_str()) {
            if let Some(row) = world_uis[i].row_snapshot() {
                let ghost before = rows@;
                let values = suffix_values(&row.values, text::decimal_text(index).as_str());
                rows.push(UiRepeatRow { stable_row_key: row.stable_row_key, values });
                assert(flow::rows_view(rows@) =~= flow::rows_view(before).push(
                    slot_row(all[i as int].row(), index as nat),
                ));
            }
        }
        i += 1;
    }
    assert(all.take(i as int) =~= all);
    let ghost unordered = rows@;
    let r = order::sort_by_text_key(rows);
    proof {
        order::lemma_stable_order_mapped(r@, unordered, |row: UiRepeatRow| row@);
    }
    r
}

/// Whether two rows have the same key and equal values.
pub open spec fn same_row(a: RowView, b: RowView) -> bool {
    &&& a.stable_row_key == b.stable_row_key
    &&& input_map::same_listing(
        input_map::sorted_listing(a.values),
        input_map::sorted_listing(b.values),
    )
}

/// Whether two lists of rows agree row by row.
pub open spec fn same_rows(a: Seq<RowView>, b: Seq<RowView>) -> bool {
    &&& a.len() == b.len()
    &&& forall|i: int| 0 <= i < a.len() ==> same_row(#[trigger] a[i], b[i])
}

fn rows_equal(a: &Vec<UiRepeatRow>, b: &Vec<UiRepeatRow>) -> (r: bool)
    ensures
        r == same_rows(flow::rows_view(a@), flow::rows_view(b@)),
{
    if a.len() != b.len() {
        return false;
    }
    let ghost (x, y) = (flow::rows_view(a@), flow::rows_view(b@));
    let mut i: usize = 0;
    while i < a.len()
        invariant
            i <= a.len(),
            a.len() == b.len(),
            x == flow::rows_view(a@),
            y == flow::rows_view(b@),
            forall|k: int| 0 <= k < i ==> same_row(#[trigger] x[k], y[k]),
        decreases a.len() - i,
    {
        assert(x[i as int] == a[i as int]@);
        assert(y[i as int] == b[i as int]@);
        if !text::same_text(a[i].stable_row_key.as_str(), b[i].stable_row_key.as_str())
            || !a[i].values.equals(&b[i].values) {
            assert(!same_row(x[i as int], y[i as int]));
            return false;
        }
        i += 1;
    }
    true
}

/// Whether the rows of the world differ from those that were published last.
pub open spec fn world_changed(
    session: Neon3Session,
    world_uis: Seq<&NeonWorldUi<CharacterStatusVars>>,
) -> bool {
    session.config.world_ui && !(session.world_ui_snapshot matches Some(rows) && same_rows(
        flow::rows_view(rows@),
        world_rows(session, world_uis),
    ))
}

/// The values of all rows, one after another.
pub open spec fn row_changes(rows: Seq<RowView>) -> Seq<(Seq<char>, UiInputValue)>
    decreases rows.len(),
{
    if rows.len() == 0 {
        Seq::empty()
    } else {
        row_changes(rows.drop_last()) + input_map::sorted_listing(rows.last().values)
    }
}

fn collect_row_changes(rows: &Vec<UiRepeatRow>) -> (r: Vec<UiInputChange>)
    ensures
        flow::changes_view(r@) == row_changes(flow::rows_view(rows@)),
{
    let mut r: Vec<UiInputChange> = Vec::new();
    let ghost all = flow::rows_view(rows@);
    let mut i: usize = 0;
    assert(all.take(0) =~= Seq::<RowView>::empty());
    assert(flow::changes_view(r@) =~= Seq::<(Seq<char>, UiInputValue)>::empty());
    while i < rows.len()
        invariant
            i <= rows.len(),
            all == flow::rows_view(rows@),
            flow::changes_view(r@) == row_changes(all.take(i as int)),
        decreases rows.len() - i,
    {
        let ghost before = r@;
        assert(all.take(i + 1).drop_last() =~= all.take(i as int));
        assert(all.take(i + 1).last() == rows[i as int]@);
        let mut entries = rows[i].values.changes();
        let ghost added = entries@;
        r.append(&mut entries);
        assert(flow::changes_view(r@) =~= flow::changes_view(before) + flow::changes_view(added));
        i += 1;
    }
    assert(all.take(i as int) =~= all);
    r
}

/// The variables that the screen interface has to submit: all of them the first
/// time, later those that changed.
pub open spec fn screen_changes(screen: NeonScreenUi<CharacterStatusVars>) -> Seq<
    (Seq<char>, UiInputValue),
> {
    match screen.sent {
        None => screen.vars.fields(),
        Some(sent) => flow::changed_fields(screen.vars, sent),
    }
}

/// The screen interface after its variables were drafted.
pub open spec fn screen_drafted(
    before: NeonScreenUi<CharacterStatusVars>,
    after: NeonScreenUi<CharacterStatusVars>,
) -> bool {
    &&& after == (NeonScreenUi { identity: after.identity, ..before })
    &&& if screen_changes(before).len() > 0 {
        flow::identity_advanced(before.identity, after.identity)
    } else {
        after.identity == before.identity
    }
}

fn draft_screen(screen: &mut NeonScreenUi<CharacterStatusVars>) -> (r: Vec<UiInputChange>)
    ensures
        flow::changes_view(r@) == screen_changes(*old(screen)),
        screen_drafted(*old(screen), *final(screen)),
{
    let vars = screen.vars;
    let frame = match &screen.sent {
        None => Some(vars.snapshot(&mut screen.identity)),
        Some(sent) => vars.diff(sent, &mut screen.identity),
    };
    match frame {
        Some(frame) => frame.changes,
        None => {
            let none: Vec<UiInputChange> = Vec::new();
            assert(flow::changes_view(none@) =~= Seq::<(Seq<char>, UiInputValue)>::empty());
            none
        },
    }
}

/// The changes of one update: the rows of the world where they changed, and the
/// variables of the screen interface where there is one.
pub open spec fn status_changes(
    session: Neon3Session,
    world_uis: Seq<&NeonWorldUi<CharacterStatusVars>>,
    screen: Option<NeonScreenUi<CharacterStatusVars>>,
) -> Seq<(Seq<char>, UiInputValue)> {
    (if world_changed(session, world_uis) {
        row_changes(world_rows(session, world_uis))
    } else {
        Seq::empty()
    }) + (match screen {
        Some(s) => screen_changes(s),
        None => Seq::empty(),
    })
}

/// A status frame that is ready to leave, with what counts as sent afterwards.
pub struct StatusFlush {
    pub request: TransportRequest,
    /// The rows of the world, where they changed.
    pub rows: Option<Vec<UiRepeatRow>>,
    /// The variables of the screen interface, where they changed.
    pub screen_vars: Option<CharacterStatusVars>,
}

/// An optional screen interface by its value.
pub open spec fn screen_value(screen: Option<&mut NeonScreenUi<CharacterStatusVars>>) -> Option<
    NeonScreenUi<CharacterStatusVars>,
> {
    match screen {
        Some(s) => Some(*s),
        None => None,
    }
}

/// The variables of the screen interface that a frame makes count as sent, where it
/// carries any of them.
pub open spec fn noted_vars(screen: NeonScreenUi<CharacterStatusVars>) -> Option<
    CharacterStatusVars,
> {
    if screen_changes(screen).len() > 0 {
        Some(screen.vars)
    } else {
        None
    }
}

/// The screen interface once a frame left.
pub open spec fn screen_noted(
    screen: NeonScreenUi<CharacterStatusVars>,
    vars: Option<CharacterStatusVars>,
) -> NeonScreenUi<CharacterStatusVars> {
    NeonScreenUi {
        sent: if vars is Some {
            vars
        } else {
            screen.sent
        },
        ..screen
    }
}

/// Builds the frame for what changed on the screen and in the world, where
/// anything did and the flow takes one. The caller reports by `status_sent` or
/// `status_unsent` what became of it.
pub fn flush_character_status(
    bridge: &mut CharacterStatusBridge,
    session: &Neon3Session,
    world_uis: &[&NeonWorldUi<CharacterStatusVars>],
    screen: Option<&mut NeonScreenUi<CharacterStatusVars>>,
    pid: u32,
) -> (r: Option<StatusFlush>)
    ensures
        screen matches Some(s) ==> if takes_input(*old(bridge)) {
            screen_drafted(*s, *final(s))
        } else {
            *final(s) == *s
        },
        r is Some <==> takes_input(*old(bridge)) && status_changes(
            *session,
            world_uis@,
            screen_value(screen),
        ).len() > 0,
        r is None ==> *final(bridge) == *old(bridge),
        r matches Some(flush) ==> {
            &&& flow::identity_advanced(old(bridge).identity, final(bridge).identity)
            &&& *final(bridge) == (CharacterStatusBridge {
                identity: final(bridge).identity,
                ..*old(bridge)
            })
            &&& flush.request@ == input_call(
                *session,
                pid,
                final(bridge).identity,
                "combined-ui"@,
                status_changes(*session, world_uis@, screen_value(screen)),
            )
            &&& flush.rows is Some <==> world_changed(*session, world_uis@)
            &&& flush.rows matches Some(rows) ==> flow::rows_view(rows@) == world_rows(
                *session,
                world_uis@,
            )
            &&& flush.screen_vars == match screen_value(screen) {
                Some(s) => if screen_changes(s).len() > 0 {
                    Some(s.vars)
                } else {
                    None
                },
                None => None,
            }
            &&& screen_value(screen) matches Some(s) ==> flush.screen_vars == noted_vars(s)
        },
{
    if !bridge.flow_ready || bridge.input_pending {
        return None;
    }
    let mut changes: Vec<UiInputChange> = Vec::new();
    let mut rows: Option<Vec<UiRepeatRow>> = None;
    assert(flow::changes_view(changes@) =~= Seq::<(Seq<char>, UiInputValue)>::empty());
    if session.config.world_ui {
        let current = collect_monster_rows(world_uis);
        let unchanged = match &session.world_ui_snapshot {
            Some(published) => rows_equal(published, &current),
            None => false,
        };
        if !unchanged {
            changes = collect_row_changes(&current);
            rows = Some(current);
        }
    }
    let mut screen_vars: Option<CharacterStatusVars> = None;
    if let Some(s) = screen {
        let mut drafted = draft_screen(s);
        if drafted.len() > 0 {
            screen_vars = Some(s.vars);
        }
        let ghost before = changes@;
        let ghost added = drafted@;
        assert(flow::changes_view(added).len() == added.len());
        changes.append(&mut drafted);
        assert(flow::changes_view(changes@) =~= flow::changes_view(before) + flow::changes_view(
            added,
        ));
    }
    assert(flow::changes_view(changes@) =~= status_changes(
        *session,
        world_uis@,
        screen_value(screen),
    ));
    assert(flow::changes_view(changes@).len() == changes@.len());
    if changes.is_empty() {
        return None;
    }
    let request = input_request(session, pid, &mut bridge.identity, "combined-ui", changes);
    Some(StatusFlush { request, rows, screen_vars })
}

/// Notes that a status frame left: what it carried counts as sent.
pub fn status_sent(
    bridge: &mut CharacterStatusBridge,
    session: &mut Neon3Session,
    screen: Option<&mut NeonScreenUi<CharacterStatusVars>>,
    rows: Option<Vec<UiRepeatRow>>,
    screen_vars: Option<CharacterStatusVars>,
)
    ensures
        *final(bridge) == (CharacterStatusBridge { input_pending: true, ..*old(bridge) }),
        *final(session) == (Neon3Session {
            world_ui_snapshot: if rows is Some {
                rows
            } else {
                old(session).world_ui_snapshot
            },
            ..*old(session)
        }),
        screen matches Some(s) ==> *final(s) == (NeonScreenUi {
            sent: if screen_vars is Some {
                screen_vars
            } else {
                s.sent
            },
            ..*s
        }),
        screen matches Some(s) ==> *final(s) == screen_noted(*s, screen_vars),
{
    bridge.input_pending = true;
    if rows.is_some() {
        session.world_ui_snapshot = rows;
    }
    if let Some(s) = screen {
        if screen_vars.is_some() {
            s.sent = screen_vars;
        }
    }
}

/// Notes that a status frame could not leave.
pub fn status_unsent(bridge: &mut CharacterStatusBridge)
    ensures
        *final(bridge) == (CharacterStatusBridge { input_pending: false, ..*old(bridge) }),
{
    bridge.input_pending = false;
}

/// After a refusal nothing counts as sent, and the next frame carries every
/// variable of the screen interface and all rows of the world.
pub proof fn law_refused_status_is_sent_in_full(
    session: Neon3Session,
    error: Option<RpcError>,
    world_uis: Seq<&NeonWorldUi<CharacterStatusVars>>,
    screen: NeonScreenUi<CharacterStatusVars>,
)
    requires
        screen.sent is None,
    ensures
        status_changes(
            responses::session_refused(session, error),
            world_uis,
            Some(screen),
        ) == (if session.config.world_ui {
            row_changes(order::stable_order(monster_rows(world_uis)))
        } else {
            Seq::empty()
        }) + screen.vars.fields(),
{
}

/// Where nothing changed since the last frame, no frame is sent.
pub proof fn law_unchanged_status_stays_quiet(
    session: Neon3Session,
    world_uis: Seq<&NeonWorldUi<CharacterStatusVars>>,
    screen: NeonScreenUi<CharacterStatusVars>,
)
    requires
        !world_changed(session, world_uis),
        screen.sent == Some(screen.vars),
        !screen.vars.health.is_nan(),
        !screen.vars.mana.is_nan(),
    ensures
        status_changes(session, world_uis, Some(screen)).len() == 0,
{
    flow::law_no_diff_with_itself(screen.vars);
}

/// Every change that goes out for the screen interface holds the current value of
/// the variable under its key, and a variable goes out exactly where nothing was
/// sent yet or it differs from what was sent last. The health goes before the mana,
/// and both before the level.
pub proof fn law_screen_changes_hold_current_values(screen: NeonScreenUi<CharacterStatusVars>)
    ensures
        ({
            let changes = screen_changes(screen);
            let sent = screen.sent->0;
            let health = ("health"@, UiInputValue::F32 { value: screen.vars.health });
            let mana = ("mana"@, UiInputValue::F32 { value: screen.vars.mana });
            let level = ("level"@, UiInputValue::U32 { value: screen.vars.level });
            &&& forall|i: int|
                0 <= i < changes.len() ==> {
                    ||| #[trigger] changes[i] == health
                    ||| changes[i] == mana
                    ||| changes[i] == level
                }
            &&& changes.contains(health) <==> screen.sent is None
                || !screen.vars.health.same_number(sent.health)
            &&& changes.contains(mana) <==> screen.sent is None || !screen.vars.mana.same_number(
                sent.mana,
            )
            &&& changes.contains(level) <==> screen.sent is None || screen.vars.level != sent.level
            &&& changes.len() <= 3
            &&& forall|i: int, j: int|
                0 <= i < j < changes.len() ==> {
                    &&& (#[trigger] changes[i]).0 != (#[trigger] changes[j]).0
                    &&& changes[j].0 != "health"@
                    &&& changes[i].0 != "level"@
                }
        }),
{
    flow::lemma_status_keys();
    flow::law_status_fields_have_names(screen.vars);
    let changes = screen_changes(screen);
    match screen.sent {
        None => {
            assert(changes[0].0 == "health"@ && changes[1].0 == "mana"@ && changes[2].0
                == "level"@);
        },
        Some(sent) => {
            let (v, s) = (screen.vars, sent);
            reveal_with_fuel(flow::changed_among, 4);
            assert(changes == flow::changed_among(v, s, 3));
            let a = flow::changed_among(v, s, 1);
            let b = flow::changed_among(v, s, 2);
            if !v.health.same_number(s.health) {
                assert(a =~= seq![v.fields()[0]]);
                assert(changes[0] == v.fields()[0]);
            } else {
                assert(a.len() == 0);
            }
            if !v.mana.same_number(s.mana) {
                assert(b[b.len() - 1] == v.fields()[1]);
                assert(changes[b.len() - 1] == v.fields()[1]);
            }
            if v.level != s.level {
                assert(changes[changes.len() - 1] == v.fields()[2]);
            }
        },
    }
}

/// Writing the changes of the screen interface back into the variables that were
/// sent last gives the current variables, number for number, and nothing of them is
/// refused. Before anything was sent, they give the current variables whatever the
/// runtime held. So what counts as sent is what the runtime holds.
pub proof fn law_screen_changes_lead_to_current_variables(
    screen: NeonScreenUi<CharacterStatusVars>,
    held: CharacterStatusVars,
)
    requires
        screen.sent is Some ==> held == screen.sent->0,
    ensures
        ({
            let (w, refused) = flow::written_back(held, screen_changes(screen));
            &&& refused is None
            &&& w.health == screen.vars.health || w.health.same_number(screen.vars.health)
            &&& w.mana == screen.vars.mana || w.mana.same_number(screen.vars.mana)
            &&& w.level == screen.vars.level
        }),
{
    match screen.sent {
        None => {
            flow::law_snapshot_restores(screen.vars, held);
        },
        Some(sent) => {
            flow::law_diff_updates(screen.vars, sent);
        },
    }
}

/// A frame for the status carries the rows of the world where they changed, then
/// what changed of the screen interface, and nothing else.
pub proof fn law_status_frame_carries_both_interfaces(
    session: Neon3Session,
    world_uis: Seq<&NeonWorldUi<CharacterStatusVars>>,
    screen: NeonScreenUi<CharacterStatusVars>,
    x: (Seq<char>, UiInputValue),
)
    ensures
        status_changes(session, world_uis, Some(screen)).contains(x) <==> {
            ||| screen_changes(screen).contains(x)
            ||| world_changed(session, world_uis) && row_changes(
                world_rows(session, world_uis),
            ).contains(x)
        },
        status_changes(session, world_uis, None).contains(x) <==> world_changed(session, world_uis)
            && row_changes(world_rows(session, world_uis)).contains(x),
        !session.config.world_ui ==> status_changes(session, world_uis, Some(screen))
            == screen_changes(screen),
{
    let rows = if world_changed(session, world_uis) {
        row_changes(world_rows(session, world_uis))
    } else {
        Seq::empty()
    };
    let fields = screen_changes(screen);
    assert(status_changes(session, world_uis, Some(screen)) == rows + fields);
    assert(rows + Seq::<(Seq<char>, UiInputValue)>::empty() =~= rows);
    assert(Seq::<(Seq<char>, UiInputValue)>::empty() + fields =~= fields);
    if rows.contains(x) {
        let i = choose|i: int| 0 <= i < rows.len() && rows[i] == x;
        assert((rows + fields)[i] == x);
    }
    if fields.contains(x) {
        let i = choose|i: int| 0 <= i < fields.len() && fields[i] == x;
        assert((rows + fields)[rows.len() + i] == x);
    }
    if (rows + fields).contains(x) {
        let i = choose|i: int| 0 <= i < (rows + fields).len() && (rows + fields)[i] == x;
        if i < rows.len() {
            assert(rows[i] == x);
        } else {
            assert(fields[i - rows.len()] == x);
        }
    }
}

/// An anchor that ends in a decimal number names the monster of that number, as far
/// as the machine counts. An anchor of another shape names none.
pub proof fn law_monster_number_is_read(n: nat, anchor: Seq<char>)
    ensures
        monster_index("monster.m"@ + text::decimal(n)) == if n <= usize::MAX {
            Some(n)
        } else {
            None
        },
        !text::has_prefix(anchor, "monster.m"@) ==> monster_index(anchor) is None,
{
    let prefix = "monster.m"@;
    let whole = prefix + text::decimal(n);
    text::law_prefix_is_the_beginning(whole, prefix);
    assert(whole.subrange(prefix.len() as int, whole.len() as int) =~= text::decimal(n));
    text::law_unsigned_reads_decimal(n, usize::MAX as nat);
}

/// The values of a slot are those of the row, each under its key with the number
/// behind it.
pub proof fn law_slot_values_go_by_number(
    m: Map<Seq<char>, UiInputValue>,
    suffix: Seq<char>,
    key: Seq<char>,
)
    ensures
        with_suffix(m, suffix).contains_key(key + suffix) <==> m.contains_key(key),
        m.contains_key(key) ==> with_suffix(m, suffix)[key + suffix] == m[key],
        with_suffix(m, suffix).contains_key(key) ==> exists|front: Seq<char>|
            m.contains_key(front) && key == #[trigger] (front + suffix),
{
    assert(unsuffixed(key + suffix, suffix) =~= key);
    if with_suffix(m, suffix).contains_key(key) {
        let front = unsuffixed(key, suffix);
        assert(m.contains_key(front) && key == front + suffix);
    }
}

/// Every visible monster has a row, under its anchor and with its values under keys
/// that end in its number; and every row is that of a visible monster.
pub proof fn law_every_visible_monster_has_a_row(
    world_uis: Seq<&NeonWorldUi<CharacterStatusVars>>,
    i: int,
    n: nat,
    row: RowView,
)
    requires
        0 <= i < world_uis.len(),
        n <= usize::MAX,
    ensures
        world_uis[i].visible && world_uis[i].anchor@ == "monster.m"@ + text::decimal(n)
            ==> monster_rows(world_uis).contains(
            RowView {
                stable_row_key: world_uis[i].anchor@,
                values: with_suffix(world_uis[i].row().values, text::decimal(n)),
            },
        ),
        monster_rows(world_uis).contains(row) ==> exists|j: int|
            0 <= j < world_uis.len() && (#[trigger] world_uis[j]).visible && row.stable_row_key
                == world_uis[j].anchor@ && text::has_prefix(world_uis[j].anchor@, "monster.m"@),
    decreases world_uis.len(),
{
    law_monster_number_is_read(n, Seq::empty());
    let earlier = world_uis.drop_last();
    let before = monster_rows(earlier);
    let rows = monster_rows(world_uis);
    let last = world_uis.len() - 1;
    assert(world_uis.last() == world_uis[last]);
    if earlier.len() > 0 {
        let k = if i < last {
            i
        } else {
            0
        };
        law_every_visible_monster_has_a_row(earlier, k, n, row);
        assert(earlier[k] == world_uis[k]);
    }
    if i == last {
        if world_uis[i].visible && world_uis[i].anchor@ == "monster.m"@ + text::decimal(n) {
            assert(rows[rows.len() - 1].values == with_suffix(
                world_uis[i].row().values,
                text::decimal(n),
            ));
        }
    } else if world_uis[i].visible && world_uis[i].anchor@ == "monster.m"@ + text::decimal(n) {
        let wanted = RowView {
            stable_row_key: world_uis[i].anchor@,
            values: with_suffix(world_uis[i].row().values, text::decimal(n)),
        };
        let j = choose|j: int| 0 <= j < before.len() && before[j] == wanted;
        assert(rows[j] == wanted);
    }
    if rows.contains(row) {
        let j = choose|j: int| 0 <= j < rows.len() && rows[j] == row;
        if j < before.len() {
            assert(before[j] == row);
            assert(before.contains(row));
            let k = choose|k: int|
                0 <= k < earlier.len() && (#[trigger] earlier[k]).visible && row.stable_row_key
                    == earlier[k].anchor@ && text::has_prefix(earlier[k].anchor@, "monster.m"@);
            assert(world_uis[k] == earlier[k]);
        } else {
            assert(world_uis[last].visible);
        }
    }
}

/// The rows of the world are the rows of the visible monsters, ordered by anchor,
/// and none where the host shows no world interfaces.
pub proof fn law_world_rows_are_the_monsters(
    session: Neon3Session,
    world_uis: Seq<&NeonWorldUi<CharacterStatusVars>>,
    row: RowView,
)
    ensures
        session.config.world_ui ==> (world_rows(session, world_uis).contains(row)
            <==> monster_rows(world_uis).contains(row)),
        session.config.world_ui ==> forall|i: int, j: int|
            0 <= i < j < world_rows(session, world_uis).len() ==> !text::text_before(
                (#[trigger] world_rows(session, world_uis)[j]).stable_row_key,
                (#[trigger] world_rows(session, world_uis)[i]).stable_row_key,
            ),
        !session.config.world_ui ==> world_rows(session, world_uis).len() == 0,
{
    let rows = monster_rows(world_uis);
    let keep = |y: RowView| y.stable_row_key == row.stable_row_key;
    order::law_order_rearranges(rows, row.stable_row_key, keep, row);
    if session.config.world_ui {
        let ordered = world_rows(session, world_uis);
        assert forall|i: int, j: int| 0 <= i < j < ordered.len() implies !text::text_before(
            (#[trigger] ordered[j]).stable_row_key,
            (#[trigger] ordered[i]).stable_row_key,
        ) by {
            assert(order::stable_order(rows)[i].key_text() == ordered[i].stable_row_key);
            assert(order::stable_order(rows)[j].key_text() == ordered[j].stable_row_key);
        }
    }
}

/// The changes of rows are their values: a key and a value go out exactly where a
/// row holds that value under that key.
pub proof fn law_row_changes_hold_every_value(
    rows: Seq<RowView>,
    key: Seq<char>,
    value: UiInputValue,
)
    requires
        forall|i: int| 0 <= i < rows.len() ==> (#[trigger] rows[i]).values.dom().finite(),
    ensures
        row_changes(rows).contains((key, value)) <==> exists|i: int|
            0 <= i < rows.len() && (#[trigger] rows[i]).values.contains_key(key)
                && rows[i].values[key] == value,
    decreases rows.len(),
{
    if rows.len() > 0 {
        let front = rows.drop_last();
        let last = rows.len() - 1;
        assert forall|i: int| 0 <= i < front.len() implies (#[trigger] front[i]).values.dom().finite()
            by {
            assert(front[i] == rows[i]);
        }
        law_row_changes_hold_every_value(front, key, value);
        assert(rows[last] == rows.last());
        assert(rows[last].values.dom().finite());
        input_map::law_listing_spells_the_map(rows[last].values, key, value);
        let (a, b) = (row_changes(front), input_map::sorted_listing(rows[last].values));
        assert(row_changes(rows) == a + b);
        let x = (key, value);
        if (a + b).contains(x) {
            let k = choose|k: int| 0 <= k < (a + b).len() && (a + b)[k] == x;
            if k < a.len() {
                assert(a[k] == x);
                assert(a.contains(x));
                let i = choose|i: int|
                    0 <= i < front.len() && (#[trigger] front[i]).values.contains_key(key)
                        && front[i].values[key] == value;
                assert(rows[i].values.contains_key(key));
            } else {
                assert(b[k - a.len()] == x);
                assert(b.contains(x));
                assert(rows[last].values.contains_key(key));
            }
        }
        if exists|i: int|
            0 <= i < rows.len() && (#[trigger] rows[i]).values.contains_key(key)
                && rows[i].values[key] == value {
            let i = choose|i: int|
                0 <= i < rows.len() && (#[trigger] rows[i]).values.contains_key(key)
                    && rows[i].values[key] == value;
            if i < last {
                assert(front[i].values.contains_key(key));
                let k = choose|k: int| 0 <= k < a.len() && a[k] == x;
                assert((a + b)[k] == x);
            } else {
                let k = choose|k: int| 0 <= k < b.len() && b[k] == x;
                assert((a + b)[a.len() + k] == x);
            }
        }
    }
}

/// Rows go out again exactly where the host shows world interfaces and the rows
/// differ from those that went out last: in their number, an anchor, a key, or a
/// value by its own equality.
pub proof fn law_changed_rows_go_out(
    session: Neon3Session,
    world_uis: Seq<&NeonWorldUi<CharacterStatusVars>>,
)
    requires
        session.world_ui_snapshot is Some ==> forall|i: int|
            0 <= i < session.world_ui_snapshot->0@.len() ==> (
            #[trigger] session.world_ui_snapshot->0@[i]).values@.dom().finite(),
        forall|i: int|
            0 <= i < world_rows(session, world_uis).len() ==> (#[trigger] world_rows(
                session,
                world_uis,
            )[i]).values.dom().finite(),
    ensures
        ({
            let rows = world_rows(session, world_uis);
            let sent = session.world_ui_snapshot->0@;
            let same = {
                &&& session.world_ui_snapshot is Some
                &&& sent.len() == rows.len()
                &&& forall|i: int|
                    0 <= i < rows.len() ==> {
                        &&& (#[trigger] rows[i]).stable_row_key == sent[i].stable_row_key@
                        &&& forall|k: Seq<char>| #[trigger]
                            sent[i].values@.contains_key(k) <==> rows[i].values.contains_key(k)
                        &&& forall|k: Seq<char>| #[trigger]
                            sent[i].values@.contains_key(k) ==> sent[i].values@[k].same_value(
                                rows[i].values[k],
                            )
                    }
            };
            world_changed(session, world_uis) <==> session.config.world_ui && !same
        }),
{
    let rows = world_rows(session, world_uis);
    if session.world_ui_snapshot is Some {
        let stored = session.world_ui_snapshot->0@;
        let sent = flow::rows_view(stored);
        assert forall|i: int| 0 <= i < rows.len() && sent.len() == rows.len() implies same_row(
            sent[i],
            #[trigger] rows[i],
        ) == {
            &&& rows[i].stable_row_key == stored[i].stable_row_key@
            &&& forall|k: Seq<char>| #[trigger]
                stored[i].values@.contains_key(k) <==> rows[i].values.contains_key(k)
            &&& forall|k: Seq<char>| #[trigger]
                stored[i].values@.contains_key(k) ==> stored[i].values@[k].same_value(
                    rows[i].values[k],
                )
        } by {
            assert(stored[i].values@.dom().finite());
            assert(rows[i].values.dom().finite());
            assert(sent[i].values == stored[i].values@);
            input_map::law_same_listing_is_same_values(sent[i].values, rows[i].values);
        }
        if sent.len() == rows.len() && same_rows(sent, rows) {
            assert forall|i: int| 0 <= i < rows.len() implies same_row(
                sent[i],
                #[trigger] rows[i],
            ) by {}
        }
    }
}

/// An input frame goes to the UI runtime under the next number of the flow, for its
/// program and revision, with the changes as they are.
pub proof fn law_input_frame_names_its_flow(
    session: Neon3Session,
    pid: u32,
    identity: NuiFlowIdentity,
    label: Seq<char>,
    changes: Seq<(Seq<char>, UiInputValue)>,
)
    ensures
        ({
            let call = input_call(session, pid, identity, label, changes);
            &&& call.endpoint == session.config.ui_endpoint@
            &&& call.lane == request::RpcLane::Interaction
            &&& call.request.method == "ui.input.frame"@
            &&& call.request.target == "ui-runtime"@
            &&& call.request.params is Input
            &&& call.request.params->Input_0.changes == changes
            &&& call.request.params->Input_0.program_revision == identity.program_revision
            &&& call.request.params->Input_0.expected_input_revision
                == identity.expected_input_revision
            &&& call.request.params->Input_0.request_id == call.request.request_id
            &&& call.request.request_id == "nui-flow:"@ + label + ":"@ + text::decimal(
                identity.request_sequence as nat,
            )
        }),
{
    reveal_strlit("ui.input.frame");
    reveal_strlit("ui.");
    assert("ui.input.frame"@.subrange(0, 3) =~= "ui."@);
}

/// An intent of the host goes to the UI runtime as it is: its action, its request
/// and its parameters, for the program and the revision of the flow.
pub proof fn law_intent_call_carries_the_intent(
    session: Neon3Session,
    pid: u32,
    intent: Neon3Intent,
    identity: NuiFlowIdentity,
)
    ensures
        ({
            let call = intent_call(session, pid, intent, identity);
            let event = call.request.params->Json_0.member("event"@)->0;
            &&& call.request.request_id == intent.request_id@
            &&& call.request.method == "ui.host.inbound"@
            &&& call.request.target == "ui-runtime"@
            &&& call.request.params is Json
            &&& call.request.params->Json_0.text_member("kind"@) == Some("semantic_intent"@)
            &&& call.request.params->Json_0.member("event"@) is Some
            &&& event.text_member("intent"@) == Some(intent.action@)
            &&& event.text_member("request_id"@) == Some(intent.request_id@)
            &&& event.text_member("event_id"@) == Some(intent.request_id@)
            &&& event.text_member("kind"@) == Some("activate"@)
            &&& event.member("payload"@) == Some(json::json_view(intent.params))
            &&& event.natural_member("input_revision"@) == Some(identity.expected_input_revision)
            &&& event.member("program_revision"@) == Some(
                revision::program_revision_json(
                    revision::program_revision_view(identity.program_revision),
                ),
            )
        }),
{
    reveal_strlit("ui.host.inbound");
    reveal_strlit("ui.");
    assert("ui.host.inbound"@.subrange(0, 3) =~= "ui."@);
    reveal_strlit("event_id");
    reveal_strlit("kind");
    reveal_strlit("intent");
    reveal_strlit("source_node_key");
    reveal_strlit("payload");
    reveal_strlit("program_revision");
    reveal_strlit("input_revision");
    reveal_strlit("request_id");
    reveal_strlit("idempotency_key");
    reveal_strlit("event");
    assert("kind"@.len() == 4 && "event"@.len() == 5 && "intent"@.len() == 6 && "payload"@.len()
        == 7 && "event_id"@.len() == 8 && "request_id"@.len() == 10 && "input_revision"@.len() == 14
        && "program_revision"@.len() == 16);
    assert("source_node_key"@.len() == 15 && "idempotency_key"@.len() == 15);
}

/// Once a frame left, what counts as sent for the screen interface is what the
/// runtime holds when it wrote the changes into what it held, and these are the
/// current variables, all number for number.
pub proof fn law_sent_is_what_the_runtime_holds(
    screen: NeonScreenUi<CharacterStatusVars>,
    held: CharacterStatusVars,
)
    requires
        screen.sent is Some ==> held == screen.sent->0,
    ensures
        ({
            let after = screen_noted(screen, noted_vars(screen));
            let (w, refused) = flow::written_back(held, screen_changes(screen));
            let sent = after.sent->0;
            &&& after.sent is Some
            &&& after.vars == screen.vars
            &&& after.identity == screen.identity
            &&& refused is None
            &&& w.health == sent.health || w.health.same_number(sent.health)
            &&& w.mana == sent.mana || w.mana.same_number(sent.mana)
            &&& w.level == sent.level
            &&& sent.health == screen.vars.health || sent.health.same_number(screen.vars.health)
            &&& sent.mana == screen.vars.mana || sent.mana.same_number(screen.vars.mana)
            &&& sent.level == screen.vars.level
        }),
{
    law_screen_changes_hold_current_values(screen);
    law_screen_changes_lead_to_current_variables(screen, held);
    let changes = screen_changes(screen);
    if changes.len() == 0 {
        assert(screen.sent is Some);
        assert(!changes.contains(("health"@, UiInputValue::F32 { value: screen.vars.health })));
        assert(!changes.contains(("mana"@, UiInputValue::F32 { value: screen.vars.mana })));
        assert(!changes.contains(("level"@, UiInputValue::U32 { value: screen.vars.level })));
        assert(flow::written_back(held, changes).0 == held);
    }
}

/// A flow takes input exactly where the runtime accepted it and no input is on its
/// way.
pub proof fn law_one_input_at_a_time(bridge: CharacterStatusBridge)
    ensures
        !bridge.flow_ready ==> !takes_input(bridge),
        bridge.input_pending ==> !takes_input(bridge),
        bridge.flow_ready && !bridge.input_pending ==> takes_input(bridge),
{
}

/// Drafting the changes of the screen interface takes a number of its flow exactly
/// where there are any, and touches nothing else of it.
pub proof fn law_drafting_only_takes_a_number(
    before: NeonScreenUi<CharacterStatusVars>,
    after: NeonScreenUi<CharacterStatusVars>,
)
    requires
        screen_drafted(before, after),
        before.identity.request_sequence < u64::MAX,
    ensures
        after.vars == before.vars,
        after.sent == before.sent,
        after.visible == before.visible,
        after.selected_object == before.selected_object,
        after.identity.program_revision == before.identity.program_revision,
        after.identity.expected_input_revision == before.identity.expected_input_revision,
        screen_changes(before).len() > 0 ==> after.identity.request_sequence
            == before.identity.request_sequence + 1,
        screen_changes(before).len() == 0 ==> after.identity.request_sequence
            == before.identity.request_sequence,
        screen_changes(after) == screen_changes(before),
{
}

/// A variable that could not leave waits again with its value, beside those that came
/// to wait meanwhile; no variable is lost and none is added.
pub proof fn law_unsent_variables_are_not_lost(
    waiting: Map<Seq<char>, UiInputValue>,
    unsent: Map<Seq<char>, UiInputValue>,
    key: Seq<char>,
)
    ensures
        ({
            let after = waiting_again(waiting, unsent);
            &&& after.contains_key(key) <==> waiting.contains_key(key) || unsent.contains_key(key)
            &&& unsent.contains_key(key) ==> after[key] == unsent[key]
            &&& !unsent.contains_key(key) && waiting.contains_key(key) ==> after[key]
                == waiting[key]
        }),
{
}

} // verus!
