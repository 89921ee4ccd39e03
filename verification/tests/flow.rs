use bevy_nui_plugins::flow::{
    nui_flow_value_ref, CharacterStatusVars, NuiFlowFields, NuiFlowIdentity, NuiFlowValue,
    NuiFlowVarError, NuiFlowVars, UiInputChange, UiInputValue, UiTextHandle,
};
use bevy_nui_plugins::input_map::InputMap;
use bevy_nui_plugins::scalar::Scalar32;
use bevy_nui_plugins::ui::{
    collect_world_ui_rows, CharacterStatusBridge, NeonScreenUi, NeonWorldUi, WorldUiOcclusion,
};

fn scalar(x: f32) -> Scalar32 {
    Scalar32 { bits: x.to_bits() }
}

fn number(value: &UiInputValue) -> Option<f32> {
    match value {
        UiInputValue::F32 { value } => Some(f32::from_bits(value.bits)),
        _ => None,
    }
}

fn revision(number: u64) -> neon_ui::UiProgramRevision {
    neon_ui::UiProgramRevision {
        program_id: "character.player.main.status".into(),
        revision: neon_protocol::Revision(number),
        schema_version: neon_ui::UI_PROGRAM_SCHEMA_VERSION,
        capabilities: Vec::new(),
    }
}

fn identity(program: u64, input: u64) -> NuiFlowIdentity {
    NuiFlowIdentity {
        program_revision: revision(program),
        expected_input_revision: input,
        request_sequence: 0,
    }
}

fn status() -> CharacterStatusVars {
    CharacterStatusVars { health: scalar(82.0), mana: scalar(64.0), level: 12 }
}

fn change(key: &str, value: UiInputValue) -> UiInputChange {
    UiInputChange { key: key.into(), value }
}

fn world_ui(anchor: &str, visible: bool) -> NeonWorldUi<CharacterStatusVars> {
    NeonWorldUi {
        flow: "character-status".into(),
        vars: status(),
        identity: identity(1, 0),
        anchor: anchor.into(),
        offset: [scalar(0.0), scalar(1.0), scalar(0.0)],
        sent: None,
        visible,
        occlusion: WorldUiOcclusion::AlwaysVisible,
    }
}

#[test]
fn flow_vars_generate_full_snapshot_and_sparse_diff() {
    let mut identity = identity(3, 7);
    let before = status();
    let snapshot = before.snapshot(&mut identity);
    assert_eq!(snapshot.changes.len(), 3);
    let after = CharacterStatusVars { health: scalar(76.0), ..before.clone() };
    let diff = after.diff(&before, &mut identity).expect("health changed");
    assert_eq!(diff.changes.len(), 1);
    assert_eq!(diff.changes[0].key, "health");
    assert!(after.diff(&after, &mut identity).is_none());
}

#[test]
fn apply_changes_writes_back_typed_variables() {
    let mut vars = status();
    let changes = vec![
        change("health", UiInputValue::F32 { value: scalar(31.0) }),
        change("level", UiInputValue::U32 { value: 20 }),
    ];
    vars.apply_changes(&changes).expect("valid writeback");
    assert_eq!(vars.health, scalar(31.0));
    assert_eq!(vars.level, 20);
    assert_eq!(vars.mana, scalar(64.0));

    let wrong_type = vec![change("health", UiInputValue::Bool { value: true })];
    assert_eq!(
        vars.apply_changes(&wrong_type),
        Err(NuiFlowVarError::TypeMismatch("health".into()))
    );

    let unknown = vec![change("gold", UiInputValue::U32 { value: 1 })];
    assert_eq!(
        vars.apply_changes(&unknown),
        Err(NuiFlowVarError::UnknownKey("gold".into()))
    );
}

#[test]
fn row_snapshot_maps_a_full_template_row() {
    let row = status().row_snapshot("npc.blacksmith");
    assert_eq!(row.stable_row_key, "npc.blacksmith");
    assert_eq!(row.values.len(), 3);
    assert_eq!(row.values.get("health"), Some(&UiInputValue::F32 { value: scalar(82.0) }));
    assert_eq!(row.values.get("mana"), Some(&UiInputValue::F32 { value: scalar(64.0) }));
    assert_eq!(row.values.get("level"), Some(&UiInputValue::U32 { value: 12 }));
}

#[test]
fn generic_world_ui_uses_its_anchor_as_the_repeat_row_key() {
    let world_ui = world_ui("npc.blacksmith", true);
    assert_eq!(world_ui.stable_row_key(), "npc.blacksmith");
    assert_eq!(
        world_ui.vars.row_snapshot(&world_ui.anchor).stable_row_key,
        "npc.blacksmith"
    );
    assert_eq!(
        world_ui.row_snapshot().expect("visible row").stable_row_key,
        "npc.blacksmith"
    );
}

#[test]
fn frames_carry_identity_and_numbered_request_ids() {
    let mut identity = identity(3, 7);
    let snapshot = status().snapshot(&mut identity);
    assert_eq!(snapshot.request_id, "nui-flow:character-status:1");
    assert_eq!(snapshot.idempotency_key, "nui-flow:character-status:1");
    assert_eq!(snapshot.expected_input_revision, 7);
    assert_eq!(snapshot.program_revision, revision(3));
    let keys: Vec<&str> = snapshot.changes.iter().map(|c| c.key.as_str()).collect();
    assert_eq!(keys, vec!["health", "mana", "level"]);
    assert_eq!(number(&snapshot.changes[1].value), Some(64.0));
    let second = status().snapshot(&mut identity);
    assert_eq!(second.request_id, "nui-flow:character-status:2");
    identity.request_sequence = u64::MAX;
    let last = status().snapshot(&mut identity);
    assert_eq!(last.request_id, "nui-flow:character-status:18446744073709551615");
    assert_eq!(CharacterStatusVars::FLOW_NAME, "character-status");
    assert_eq!(CharacterStatusVars::COMPONENT_NAME, "character.player.main.status");
}

#[test]
fn writeback_keeps_what_came_before_the_refused_change() {
    let mut vars = status();
    let changes = vec![
        change("mana", UiInputValue::F32 { value: scalar(1.0) }),
        change("level", UiInputValue::I32 { value: 3 }),
        change("health", UiInputValue::F32 { value: scalar(2.0) }),
    ];
    assert_eq!(
        vars.apply_changes(&changes),
        Err(NuiFlowVarError::TypeMismatch("level".into()))
    );
    assert_eq!(vars.mana, scalar(1.0));
    assert_eq!(vars.level, 12);
    assert_eq!(vars.health, scalar(82.0));
}

#[test]
fn snapshot_written_back_restores_the_variables() {
    let mut identity = identity(1, 0);
    let source = CharacterStatusVars { health: scalar(1.5), mana: scalar(-0.0), level: 99 };
    let frame = source.snapshot(&mut identity);
    let mut target = status();
    target.apply_changes(&frame.changes).expect("own values fit");
    assert_eq!(target.health.bits, source.health.bits);
    assert_eq!(target.mana.bits, source.mana.bits);
    assert_eq!(target.level, 99);
}

#[test]
fn diff_written_back_updates_the_variables() {
    let mut identity = identity(1, 0);
    let before = status();
    let after = CharacterStatusVars { mana: scalar(63.0), level: 13, ..before };
    let frame = after.diff(&before, &mut identity).expect("two changes");
    assert_eq!(frame.changes.len(), 2);
    let mut target = before;
    target.apply_changes(&frame.changes).expect("own values fit");
    assert_eq!(target, after);
}

#[test]
fn what_is_no_number_always_differs() {
    let mut identity = identity(1, 0);
    let vars = CharacterStatusVars { health: scalar(f32::NAN), ..status() };
    let frame = vars.diff(&vars, &mut identity).expect("not equal to itself");
    assert_eq!(frame.changes.len(), 1);
    assert_eq!(frame.changes[0].key, "health");
    let positive = CharacterStatusVars { mana: scalar(0.0), ..status() };
    let negative = CharacterStatusVars { mana: scalar(-0.0), ..status() };
    assert!(positive.diff(&negative, &mut identity).is_none());
}

#[test]
fn flow_values_read_back_what_they_write() {
    assert_eq!(nui_flow_value_ref(&true), UiInputValue::Bool { value: true });
    assert_eq!(bool::from_ui_input_value(&UiInputValue::Bool { value: false }), Ok(false));
    assert_eq!(bool::from_ui_input_value(&UiInputValue::U32 { value: 1 }), Err(()));
    assert_eq!(nui_flow_value_ref(&-7i32), UiInputValue::I32 { value: -7 });
    assert_eq!(i32::from_ui_input_value(&UiInputValue::I32 { value: -7 }), Ok(-7));
    assert_eq!(i32::from_ui_input_value(&UiInputValue::U32 { value: 7 }), Err(()));
    assert_eq!(nui_flow_value_ref(&7u32), UiInputValue::U32 { value: 7 });
    assert_eq!(u32::from_ui_input_value(&UiInputValue::U32 { value: 7 }), Ok(7));
    assert_eq!(u32::from_ui_input_value(&UiInputValue::I32 { value: 7 }), Err(()));
    assert_eq!(nui_flow_value_ref(&scalar(0.5)), UiInputValue::F32 { value: scalar(0.5) });
    assert_eq!(
        Scalar32::from_ui_input_value(&UiInputValue::F32 { value: scalar(0.5) }),
        Ok(scalar(0.5))
    );
    assert_eq!(Scalar32::from_ui_input_value(&UiInputValue::Bool { value: true }), Err(()));
}

#[test]
fn input_values_compare_by_kind_and_content() {
    let two = |a: f32, b: f32| UiInputValue::Vec2 { value: [scalar(a), scalar(b)] };
    assert!(two(1.0, 2.0).equals(&two(1.0, 2.0)));
    assert!(!two(1.0, 2.0).equals(&two(1.0, 2.5)));
    let four = [scalar(1.0), scalar(2.0), scalar(3.0), scalar(4.0)];
    let vec4 = UiInputValue::Vec4 { value: four };
    let color = UiInputValue::Color { value: four };
    assert!(vec4.equals(&vec4));
    assert!(color.equals(&color));
    assert!(!vec4.equals(&color));
    let choice = UiInputValue::Enum { value: "open".into() };
    assert!(choice.equals(&choice.clone()));
    assert!(!choice.equals(&UiInputValue::Enum { value: "shut".into() }));
    let text = UiInputValue::TextHandle { value: UiTextHandle { id: 4, generation: 1 } };
    assert!(text.equals(&text.clone()));
    let asset = UiInputValue::AssetHandle { id: 4, generation: 1 };
    assert!(asset.equals(&asset.clone()));
    assert!(!asset.equals(&UiInputValue::AssetHandle { id: 4, generation: 2 }));
    assert!(!asset.equals(&text));
}

#[test]
fn input_map_lists_its_entries_by_key() {
    let mut map = InputMap::new();
    assert!(map.is_empty());
    map.insert("b".into(), UiInputValue::U32 { value: 2 });
    map.insert("a".into(), UiInputValue::U32 { value: 1 });
    map.insert("c".into(), UiInputValue::U32 { value: 3 });
    map.insert("b".into(), UiInputValue::U32 { value: 20 });
    assert_eq!(map.len(), 3);
    let keys: Vec<String> = map.changes().into_iter().map(|c| c.key).collect();
    assert_eq!(keys, vec!["a", "b", "c"]);
    assert_eq!(map.get("b"), Some(&UiInputValue::U32 { value: 20 }));
    assert_eq!(map.get("d"), None);
    let copy = map.clone();
    assert!(map.equals(&copy));
    let taken = map.take();
    assert!(map.is_empty());
    assert!(taken.equals(&copy));
    assert!(!map.equals(&copy));
}

#[test]
fn only_visible_world_interfaces_become_rows() {
    let first = world_ui("a", true);
    let hidden = world_ui("b", false);
    let last = world_ui("c", true);
    assert!(hidden.row_snapshot().is_none());
    let rows = collect_world_ui_rows(&[&last, &hidden, &first]);
    let keys: Vec<&str> = rows.iter().map(|row| row.stable_row_key.as_str()).collect();
    assert_eq!(keys, vec!["c", "a"]);
}

#[test]
fn occlusion_policies_have_protocol_names() {
    assert_eq!(WorldUiOcclusion::default(), WorldUiOcclusion::AlwaysVisible);
    assert_eq!(WorldUiOcclusion::AlwaysVisible.as_str(), "always_visible");
    assert_eq!(WorldUiOcclusion::DepthTested.as_str(), "depth_tested");
}

#[test]
fn new_screen_interface_is_visible_and_unsent() {
    let screen = NeonScreenUi::new("character-status".into(), status(), identity(1, 5));
    assert_eq!(screen.flow, "character-status");
    assert_eq!(screen.vars, status());
    assert_eq!(screen.identity.expected_input_revision, 5);
    assert!(screen.sent.is_none());
    assert!(screen.visible);
    assert!(screen.selected_object.is_none());
}

#[test]
fn bridge_starts_with_the_declared_program() {
    let bridge = CharacterStatusBridge::default();
    assert_eq!(bridge.identity.program_revision, revision(1));
    assert_eq!(bridge.identity.expected_input_revision, 0);
    assert_eq!(bridge.current, status());
    assert!(bridge.sent.is_none());
    assert!(!bridge.flow_ready);
    assert!(!bridge.input_pending);
}

/// A paint by its number. Numbers that end alike are the same paint.
#[derive(Clone, Copy)]
struct Paint(u32);

impl PartialEq for Paint {
    fn eq(&self, other: &Self) -> bool {
        self.0 % 10 == other.0 % 10
    }
}

struct DoorVars {
    open: bool,
    turns: i32,
    paint: Paint,
}

impl NuiFlowFields for DoorVars {
    fn values(&self) -> Vec<UiInputChange> {
        vec![
            change("open", nui_flow_value_ref(&self.open)),
            change("turns", nui_flow_value_ref(&self.turns)),
            change("paint", nui_flow_value_ref(&self.paint.0)),
        ]
    }

    fn differs_at(&self, previous: &Self, place: usize) -> bool {
        [
            self.open != previous.open,
            self.turns != previous.turns,
            self.paint != previous.paint,
        ][place]
    }

    fn assign(&mut self, key: &str, value: &UiInputValue) -> Result<(), NuiFlowVarError> {
        let refused = |()| NuiFlowVarError::TypeMismatch(key.into());
        match key {
            "open" => self.open = bool::from_ui_input_value(value).map_err(refused)?,
            "turns" => self.turns = i32::from_ui_input_value(value).map_err(refused)?,
            "paint" => self.paint = Paint(u32::from_ui_input_value(value).map_err(refused)?),
            _ => return Err(NuiFlowVarError::UnknownKey(key.into())),
        }
        Ok(())
    }
}

impl NuiFlowVars for DoorVars {
    const FLOW_NAME: &'static str = "door";
    const COMPONENT_NAME: &'static str = "house.door";
}

#[test]
fn hosts_declare_flow_variables_of_their_own() {
    let mut identity = identity(1, 0);
    let mut door = DoorVars { open: true, turns: -2, paint: Paint(14) };
    let frame = door.snapshot(&mut identity);
    assert_eq!(frame.request_id, "nui-flow:door:1");
    let closed = DoorVars { open: false, turns: -2, paint: Paint(24) };
    let diff = closed.diff(&door, &mut identity).expect("one change");
    assert_eq!(diff.changes, vec![change("open", UiInputValue::Bool { value: false })]);
    assert_eq!(door.apply_changes(&diff.changes), Ok(()));
    assert!(!door.open);
    assert_eq!(
        door.apply_changes(&[change("turns", UiInputValue::Bool { value: true })]),
        Err(NuiFlowVarError::TypeMismatch("turns".into()))
    );
    assert_eq!(door.row_snapshot("door.1").values.get("turns"), Some(&UiInputValue::I32 { value: -2 }));
}

#[test]
fn variables_differ_by_the_equality_of_their_type() {
    let mut identity = identity(1, 0);
    let door = |paint: u32| DoorVars { open: true, turns: 0, paint: Paint(paint) };
    assert!(door(14).diff(&door(24), &mut identity).is_none());
    assert_eq!(identity.request_sequence, 0);
    let frame = door(14).diff(&door(25), &mut identity).expect("another paint");
    assert_eq!(frame.changes, vec![change("paint", UiInputValue::U32 { value: 14 })]);
}
