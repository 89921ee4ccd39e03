//! Flow variables: the typed values that a host binds to a declared UI flow.

use vstd::prelude::*;
use vstd::string::*;

use crate::input_map;
use crate::input_map::InputMap;
use crate::scalar::Scalar32;
use crate::text;

verus! {

broadcast use vstd::string::group_string_axioms;

/// The identity of a registered text.
#[derive(Clone, Copy, Debug, PartialEq, Eq, Structural)]
pub struct UiTextHandle {
    pub id: u64,
    pub generation: u32,
}

/// A value of a flow variable.
#[derive(Debug, PartialEq)]
pub enum UiInputValue {
    Bool { value: bool },
    I32 { value: i32 },
    U32 { value: u32 },
    F32 { value: Scalar32 },
    Vec2 { value: [Scalar32; 2] },
    Vec4 { value: [Scalar32; 4] },
    Color { value: [Scalar32; 4] },
    Enum { value: String },
    TextHandle { value: UiTextHandle },
    AssetHandle { id: u64, generation: u32 },
}

/// Numeric equality of all components.
pub open spec fn same_numbers(a: Seq<Scalar32>, b: Seq<Scalar32>) -> bool {
    &&& a.len() == b.len()
    &&& forall|i: int| 0 <= i < a.len() ==> (#[trigger] a[i]).same_number(b[i])
}

impl UiInputValue {
    /// Equality of values: the same kind with equal content, where floating
    /// point content is compared as numbers.
    pub open spec fn same_value(self, other: UiInputValue) -> bool {
        match (self, other) {
            (UiInputValue::Bool { value: a }, UiInputValue::Bool { value: b }) => a == b,
            (UiInputValue::I32 { value: a }, UiInputValue::I32 { value: b }) => a == b,
            (UiInputValue::U32 { value: a }, UiInputValue::U32 { value: b }) => a == b,
            (UiInputValue::F32 { value: a }, UiInputValue::F32 { value: b }) => a.same_number(b),
            (UiInputValue::Vec2 { value: a }, UiInputValue::Vec2 { value: b }) => same_numbers(
                a@,
                b@,
            ),
            (UiInputValue::Vec4 { value: a }, UiInputValue::Vec4 { value: b }) => same_numbers(
                a@,
                b@,
            ),
            (UiInputValue::Color { value: a }, UiInputValue::Color { value: b }) => same_numbers(
                a@,
                b@,
            ),
            (UiInputValue::Enum { value: a }, UiInputValue::Enum { value: b }) => a@ == b@,
            (UiInputValue::TextHandle { value: a }, UiInputValue::TextHandle { value: b }) => a
                == b,
            (
                UiInputValue::AssetHandle { id: a, generation: g },
                UiInputValue::AssetHandle { id: b, generation: h },
            ) => a == b && g == h,
            _ => false,
        }
    }

    /// Equality of values.
    pub fn equals(&self, other: &UiInputValue) -> (r: bool)
        ensures
            r == self.same_value(*other),
    {
        match (self, other) {
            (UiInputValue::Bool { value: a }, UiInputValue::Bool { value: b }) => *a == *b,
            (UiInputValue::I32 { value: a }, UiInputValue::I32 { value: b }) => *a == *b,
            (UiInputValue::U32 { value: a }, UiInputValue::U32 { value: b }) => *a == *b,
            (UiInputValue::F32 { value: a }, UiInputValue::F32 { value: b }) => a.equals(*b),
            (UiInputValue::Vec2 { value: a }, UiInputValue::Vec2 { value: b }) => a[0].equals(b[0])
                && a[1].equals(b[1]),
            (UiInputValue::Vec4 { value: a }, UiInputValue::Vec4 { value: b }) => a[0].equals(b[0])
                && a[1].equals(b[1]) && a[2].equals(b[2]) && a[3].equals(b[3]),
            (UiInputValue::Color { value: a }, UiInputValue::Color { value: b }) => a[0].equals(
                b[0],
            ) && a[1].equals(b[1]) && a[2].equals(b[2]) && a[3].equals(b[3]),
            (UiInputValue::Enum { value: a }, UiInputValue::Enum { value: b }) => text::same_text(
                a.as_str(),
                b.as_str(),
            ),
            (UiInputValue::TextHandle { value: a }, UiInputValue::TextHandle { value: b }) => *a
                == *b,
            (
                UiInputValue::AssetHandle { id: a, generation: g },
                UiInputValue::AssetHandle { id: b, generation: h },
            ) => *a == *b && *g == *h,
            _ => false,
        }
    }
}

impl Clone for UiInputValue {
    fn clone(&self) -> (r: Self)
        ensures
            r == *self,
    {
        match self {
            UiInputValue::Bool { value } => UiInputValue::Bool { value: *value },
            UiInputValue::I32 { value } => UiInputValue::I32 { value: *value },
            UiInputValue::U32 { value } => UiInputValue::U32 { value: *value },
            UiInputValue::F32 { value } => UiInputValue::F32 { value: *value },
            UiInputValue::Vec2 { value } => UiInputValue::Vec2 { value: *value },
            UiInputValue::Vec4 { value } => UiInputValue::Vec4 { value: *value },
            UiInputValue::Color { value } => UiInputValue::Color { value: *value },
            UiInputValue::Enum { value } => UiInputValue::Enum { value: value.clone() },
            UiInputValue::TextHandle { value } => UiInputValue::TextHandle { value: *value },
            UiInputValue::AssetHandle { id, generation } => UiInputValue::AssetHandle {
                id: *id,
                generation: *generation,
            },
        }
    }
}

/// One value under the key of its variable.
#[derive(Debug, PartialEq)]
pub struct UiInputChange {
    pub key: String,
    pub value: UiInputValue,
}

impl View for UiInputChange {
    type V = (Seq<char>, UiInputValue);

    open spec fn view(&self) -> (Seq<char>, UiInputValue) {
        (self.key@, self.value)
    }
}

impl Clone for UiInputChange {
    fn clone(&self) -> (r: Self)
        ensures
            r == *self,
    {
        UiInputChange { key: self.key.clone(), value: self.value.clone() }
    }
}

/// A list of changes by what they hold.
pub open spec fn changes_view(changes: Seq<UiInputChange>) -> Seq<(Seq<char>, UiInputValue)> {
    changes.map_values(|c: UiInputChange| c@)
}

/// The changes of one input submission.
#[derive(Debug)]
pub struct UiInputFrame {
    pub program_revision: neon_ui::UiProgramRevision,
    pub expected_input_revision: u64,
    pub request_id: String,
    pub idempotency_key: String,
    pub changes: Vec<UiInputChange>,
}

/// One row of a repeated template: a stable key and the values of all variables.
/// The host gives its rows no semantic payload.
#[derive(Debug, PartialEq)]
pub struct UiRepeatRow {
    pub stable_row_key: String,
    pub values: InputMap,
}

/// What a row holds.
pub struct RowView {
    pub stable_row_key: Seq<char>,
    pub values: Map<Seq<char>, UiInputValue>,
}

impl View for UiRepeatRow {
    type V = RowView;

    open spec fn view(&self) -> RowView {
        RowView { stable_row_key: self.stable_row_key@, values: self.values@ }
    }
}

/// A list of rows by what they hold.
pub open spec fn rows_view(rows: Seq<UiRepeatRow>) -> Seq<RowView> {
    rows.map_values(|r: UiRepeatRow| r@)
}

/// Where a flow stands: the program it runs, the input revision the runtime
/// expects next and the number of requests made so far.
#[derive(Clone, Debug)]
pub struct NuiFlowIdentity {
    pub program_revision: neon_ui::UiProgramRevision,
    pub expected_input_revision: u64,
    pub request_sequence: u64,
}

/// Why a writeback of variable values was refused.
#[derive(Clone, Debug, PartialEq, Eq)]
pub enum NuiFlowVarError {
    /// The flow has no variable of that key.
    UnknownKey(String),
    /// The value is not of the kind that the variable of that key has.
    TypeMismatch(String),
}

/// A refusal by what it holds.
pub enum VarErrorView {
    UnknownKey(Seq<char>),
    TypeMismatch(Seq<char>),
}

impl View for NuiFlowVarError {
    type V = VarErrorView;

    open spec fn view(&self) -> VarErrorView {
        match self {
            NuiFlowVarError::UnknownKey(key) => VarErrorView::UnknownKey(key@),
            NuiFlowVarError::TypeMismatch(key) => VarErrorView::TypeMismatch(key@),
        }
    }
}

/// One more, or the greatest number.
pub open spec fn next_sequence(n: u64) -> u64 {
    if n < u64::MAX {
        (n + 1) as u64
    } else {
        u64::MAX
    }
}

/// The request identity of the `n`-th submission under a label.
pub open spec fn flow_request_id(label: Seq<char>, n: u64) -> Seq<char> {
    "nui-flow:"@ + label + ":"@ + text::decimal(n as nat)
}

/// Whether the frame carries the changes under the identity as it now stands.
pub open spec fn frame_carries(
    frame: UiInputFrame,
    identity: NuiFlowIdentity,
    label: Seq<char>,
    changes: Seq<(Seq<char>, UiInputValue)>,
) -> bool {
    &&& frame.program_revision == identity.program_revision
    &&& frame.expected_input_revision == identity.expected_input_revision
    &&& frame.request_id@ == flow_request_id(label, identity.request_sequence)
    &&& frame.idempotency_key@ == flow_request_id(label, identity.request_sequence)
    &&& changes_view(frame.changes@) == changes
}

/// The identity after one more request.
pub open spec fn identity_advanced(before: NuiFlowIdentity, after: NuiFlowIdentity) -> bool {
    &&& after.program_revision == before.program_revision
    &&& after.expected_input_revision == before.expected_input_revision
    &&& after.request_sequence == next_sequence(before.request_sequence)
}

/// Builds the next input frame of a flow.
pub fn next_input_frame(
    identity: &mut NuiFlowIdentity,
    label: &str,
    changes: Vec<UiInputChange>,
) -> (frame: UiInputFrame)
    ensures
        identity_advanced(*old(identity), *final(identity)),
        frame_carries(frame, *final(identity), label@, changes_view(changes@)),
{
    identity.request_sequence = identity.request_sequence.saturating_add(1);
    let request_id = "nui-flow:".to_owned().concat(label).concat(":").concat(
        text::decimal_text(identity.request_sequence).as_str(),
    );
    UiInputFrame {
        program_revision: identity.program_revision.clone(),
        expected_input_revision: identity.expected_input_revision,
        idempotency_key: request_id.clone(),
        request_id,
        changes,
    }
}

/// A Rust type that stands for the values of one kind of flow variable.
pub trait NuiFlowValue: Sized {
    /// The input value of a Rust value.
    spec fn encoded(self) -> UiInputValue;

    /// The Rust value of an input value of the right kind.
    spec fn decoded(value: UiInputValue) -> Option<Self>;

    fn to_ui_input_value(&self) -> (r: UiInputValue)
        ensures
            r == self.encoded(),
    ;

    fn from_ui_input_value(value: &UiInputValue) -> (r: Result<Self, ()>)
        ensures
            r is Ok <==> Self::decoded(*value) is Some,
            r matches Ok(v) ==> Self::decoded(*value) == Some(v),
    ;
}

/// The input value of a Rust value.
pub fn nui_flow_value_ref<T: NuiFlowValue>(value: &T) -> (r: UiInputValue)
    ensures
        r == value.encoded(),
{
    value.to_ui_input_value()
}

impl NuiFlowValue for bool {
    open spec fn encoded(self) -> UiInputValue {
        UiInputValue::Bool { value: self }
    }

    open spec fn decoded(value: UiInputValue) -> Option<Self> {
        match value {
            UiInputValue::Bool { value } => Some(value),
            _ => None,
        }
    }

    fn to_ui_input_value(&self) -> (r: UiInputValue) {
        UiInputValue::Bool { value: *self }
    }

    fn from_ui_input_value(value: &UiInputValue) -> (r: Result<Self, ()>) {
        match value {
            UiInputValue::Bool { value } => Ok(*value),
            _ => Err(()),
        }
    }
}

impl NuiFlowValue for i32 {
    open spec fn encoded(self) -> UiInputValue {
        UiInputValue::I32 { value: self }
    }

    open spec fn decoded(value: UiInputValue) -> Option<Self> {
        match value {
            UiInputValue::I32 { value } => Some(value),
            _ => None,
        }
    }

    fn to_ui_input_value(&self) -> (r: UiInputValue) {
        UiInputValue::I32 { value: *self }
    }

    fn from_ui_input_value(value: &UiInputValue) -> (r: Result<Self, ()>) {
        match value {
            UiInputValue::I32 { value } => Ok(*value),
            _ => Err(()),
        }
    }
}

impl NuiFlowValue for u32 {
    open spec fn encoded(self) -> UiInputValue {
        UiInputValue::U32 { value: self }
    }

    open spec fn decoded(value: UiInputValue) -> Option<Self> {
        match value {
            UiInputValue::U32 { value } => Some(value),
            _ => None,
        }
    }

    fn to_ui_input_value(&self) -> (r: UiInputValue) {
        UiInputValue::U32 { value: *self }
    }

    fn from_ui_input_value(value: &UiInputValue) -> (r: Result<Self, ()>) {
        match value {
            UiInputValue::U32 { value } => Ok(*value),
            _ => Err(()),
        }
    }
}

impl NuiFlowValue for Scalar32 {
    open spec fn encoded(self) -> UiInputValue {
        UiInputValue::F32 { value: self }
    }

    open spec fn decoded(value: UiInputValue) -> Option<Self> {
        match value {
            UiInputValue::F32 { value } => Some(value),
            _ => None,
        }
    }

    fn to_ui_input_value(&self) -> (r: UiInputValue) {
        UiInputValue::F32 { value: *self }
    }

    fn from_ui_input_value(value: &UiInputValue) -> (r: Result<Self, ()>) {
        match value {
            UiInputValue::F32 { value } => Ok(*value),
            _ => Err(()),
        }
    }
}

/// Reading a value back gives what was written.
pub proof fn law_values_read_back(flag: bool, signed: i32, unsigned: u32, number: Scalar32)
    ensures
        bool::decoded(flag.encoded()) == Some(flag),
        i32::decoded(signed.encoded()) == Some(signed),
        u32::decoded(unsigned.encoded()) == Some(unsigned),
        Scalar32::decoded(number.encoded()) == Some(number),
{
}

/// The variables of a flow one by one: what they are called, what they hold
/// and how one of them is set.
///
/// The model of a type is what its contracts speak of, and an implementation
/// that Verus reads gives its own. An implementation in ordinary Rust keeps the
/// defaults, which Verus does not hold it to: it still owes what the contracts
/// of `values`, `differs_at` and `assign` say in terms of its variables.
pub trait NuiFlowFields: Sized {
    /// The keys of the variables, in declared order.
    open spec fn keys() -> Seq<Seq<char>> {
        Seq::empty()
    }

    /// The key and the value of every variable, in declared order.
    open spec fn fields(self) -> Seq<(Seq<char>, UiInputValue)> {
        Seq::empty()
    }

    /// The variables with one of them set, when the value is of its kind.
    open spec fn assigned(self, key: Seq<char>, value: UiInputValue) -> Option<Self> {
        None
    }

    /// Whether the variable at that place differs from the earlier one, by the
    /// equality of its own type.
    open spec fn differs(self, previous: Self, place: int) -> bool {
        false
    }

    fn values(&self) -> (r: Vec<UiInputChange>)
        ensures
            changes_view(r@) == self.fields(),
            self.fields().map_values(|f: (Seq<char>, UiInputValue)| f.0) == Self::keys(),
    ;

    fn differs_at(&self, previous: &Self, place: usize) -> (r: bool)
        requires
            place < Self::keys().len(),
        ensures
            r == self.differs(*previous, place as int),
    ;

    fn assign(&mut self, key: &str, value: &UiInputValue) -> (r: Result<(), NuiFlowVarError>)
        ensures
            r is Ok <==> Self::keys().contains(key@) && old(self).assigned(key@, *value) is Some,
            r is Ok ==> old(self).assigned(key@, *value) == Some(*final(self)),
            r matches Err(e) ==> *final(self) == *old(self) && e@ == if Self::keys().contains(key@) {
                VarErrorView::TypeMismatch(key@)
            } else {
                VarErrorView::UnknownKey(key@)
            },
    ;
}

/// Those of the first `count` variables that differ from earlier ones.
pub open spec fn changed_among<V: NuiFlowFields>(current: V, previous: V, count: int) -> Seq<
    (Seq<char>, UiInputValue),
>
    decreases count,
{
    if count <= 0 {
        Seq::empty()
    } else if current.differs(previous, count - 1) {
        changed_among(current, previous, count - 1).push(current.fields()[count - 1])
    } else {
        changed_among(current, previous, count - 1)
    }
}

/// The variables that differ from earlier ones, in declared order.
pub open spec fn changed_fields<V: NuiFlowFields>(current: V, previous: V) -> Seq<
    (Seq<char>, UiInputValue),
> {
    changed_among(current, previous, current.fields().len() as int)
}

/// The changes that lead from earlier variables to these.
fn differing_changes<V: NuiFlowFields>(current: &V, previous: &V) -> (r: Vec<UiInputChange>)
    ensures
        changes_view(r@) == changed_fields(*current, *previous),
{
    let values = current.values();
    let mut r: Vec<UiInputChange> = Vec::new();
    let mut i: usize = 0;
    assert(changes_view(r@) =~= Seq::<(Seq<char>, UiInputValue)>::empty());
    assert(values@.len() == current.fields().len() == V::keys().len());
    while i < values.len()
        invariant
            i <= values.len(),
            values@.len() == V::keys().len(),
            changes_view(values@) == current.fields(),
            changes_view(r@) == changed_among(*current, *previous, i as int),
        decreases values.len() - i,
    {
        if current.differs_at(previous, i) {
            let ghost before = r@;
            r.push(values[i].clone());
            assert(current.fields()[i as int] == values[i as int]@);
            assert(changes_view(r@) =~= changes_view(before).push(values[i as int]@));
        }
        i += 1;
    }
    r
}

/// What becomes of variables when changes are written back one after another.
/// The first change that is refused ends the writeback; the ones before it
/// stay written.
pub open spec fn written_back<V: NuiFlowFields>(
    vars: V,
    changes: Seq<(Seq<char>, UiInputValue)>,
) -> (V, Option<VarErrorView>)
    decreases changes.len(),
{
    if changes.len() == 0 {
        (vars, None)
    } else if !V::keys().contains(changes[0].0) {
        (vars, Some(VarErrorView::UnknownKey(changes[0].0)))
    } else {
        match vars.assigned(changes[0].0, changes[0].1) {
            Some(next) => written_back(next, changes.drop_first()),
            None => (vars, Some(VarErrorView::TypeMismatch(changes[0].0))),
        }
    }
}

/// The template row of an instance: its anchor and the values of all variables.
pub open spec fn template_row(anchor: Seq<char>, fields: Seq<(Seq<char>, UiInputValue)>) -> RowView {
    RowView { stable_row_key: anchor, values: input_map::listing_map(fields) }
}

/// The outcome of a writeback by what it holds.
pub open spec fn refusal(r: Result<(), NuiFlowVarError>) -> Option<VarErrorView> {
    match r {
        Ok(_) => None,
        Err(e) => Some(e@),
    }
}

/// The typed variables of a flow.
///
/// An implementation lists its variables and knows how to set one of them.
/// The protocol around them is the same for every flow.
pub trait NuiFlowVars: NuiFlowFields {
    const FLOW_NAME: &'static str;

    const COMPONENT_NAME: &'static str;

    /// An input frame with every variable.
    fn snapshot(&self, identity: &mut NuiFlowIdentity) -> (frame: UiInputFrame)
        ensures
            identity_advanced(*old(identity), *final(identity)),
            frame_carries(frame, *final(identity), Self::FLOW_NAME@, self.fields()),
    {
        next_input_frame(identity, Self::FLOW_NAME, self.values())
    }

    /// An input frame with the variables that differ from earlier ones, if any
    /// does.
    fn diff(&self, previous: &Self, identity: &mut NuiFlowIdentity) -> (r: Option<UiInputFrame>)
        ensures
            r is Some <==> changed_fields(*self, *previous).len() > 0,
            r is None ==> *final(identity) == *old(identity),
            r matches Some(frame) ==> identity_advanced(*old(identity), *final(identity))
                && frame_carries(
                frame,
                *final(identity),
                Self::FLOW_NAME@,
                changed_fields(*self, *previous),
            ),
    {
        let changes = differing_changes(self, previous);
        assert(changes@.len() == changes_view(changes@).len());
        if changes.is_empty() {
            return None;
        }
        Some(next_input_frame(identity, Self::FLOW_NAME, changes))
    }

    /// One full template row, keyed by the anchor of its instance.
    fn row_snapshot(&self, anchor: &str) -> (row: UiRepeatRow)
        ensures
            row@ == template_row(anchor@, self.fields()),
    {
        let entries = self.values();
        let ghost all = self.fields();
        let mut values = InputMap::new();
        let mut i: usize = 0;
        assert(all.take(0) =~= Seq::<(Seq<char>, UiInputValue)>::empty());
        while i < entries.len()
            invariant
                i <= entries.len(),
                all == changes_view(entries@),
                values@ == input_map::listing_map(all.take(i as int)),
            decreases entries.len() - i,
        {
            let entry = entries[i].clone();
            proof {
                assert(all.take(i + 1).drop_last() =~= all.take(i as int));
                assert(all[i as int] == entry@);
            }
            values.insert(entry.key, entry.value);
            i += 1;
        }
        assert(all.take(i as int) =~= all);
        UiRepeatRow { stable_row_key: anchor.to_owned(), values }
    }

    /// Writes changes of the runtime back into the variables.
    fn apply_changes(&mut self, changes: &[UiInputChange]) -> (r: Result<(), NuiFlowVarError>)
        ensures
            (*final(self), refusal(r)) == written_back(*old(self), changes_view(changes@)),
    {
        let ghost all = changes_view(changes@);
        let mut i: usize = 0;
        assert(all.skip(0) =~= all);
        while i < changes.len()
            invariant
                i <= changes.len(),
                all == changes_view(changes@),
                written_back(*old(self), all) == written_back(*self, all.skip(i as int)),
            decreases changes.len() - i,
        {
            proof {
                assert(all.skip(i as int)[0] == changes[i as int]@);
                assert(all.skip(i as int).drop_first() =~= all.skip(i + 1));
            }
            match self.assign(changes[i].key.as_str(), &changes[i].value) {
                Ok(()) => {},
                Err(e) => {
                    return Err(e);
                },
            }
            i += 1;
        }
        Ok(())
    }
}

/// The variables of the character status flow.
#[derive(Clone, Copy, Debug, PartialEq)]
pub struct CharacterStatusVars {
    pub health: Scalar32,
    pub mana: Scalar32,
    pub level: u32,
}

impl NuiFlowFields for CharacterStatusVars {
    open spec fn keys() -> Seq<Seq<char>> {
        seq!["health"@, "mana"@, "level"@]
    }

    open spec fn fields(self) -> Seq<(Seq<char>, UiInputValue)> {
        seq![
            ("health"@, self.health.encoded()),
            ("mana"@, self.mana.encoded()),
            ("level"@, self.level.encoded()),
        ]
    }

    open spec fn assigned(self, key: Seq<char>, value: UiInputValue) -> Option<Self> {
        if key == "health"@ {
            match value {
                UiInputValue::F32 { value } => Some(
                    CharacterStatusVars { health: value, mana: self.mana, level: self.level },
                ),
                _ => None,
            }
        } else if key == "mana"@ {
            match value {
                UiInputValue::F32 { value } => Some(
                    CharacterStatusVars { health: self.health, mana: value, level: self.level },
                ),
                _ => None,
            }
        } else if key == "level"@ {
            match value {
                UiInputValue::U32 { value } => Some(
                    CharacterStatusVars { health: self.health, mana: self.mana, level: value },
                ),
                _ => None,
            }
        } else {
            None
        }
    }

    open spec fn differs(self, previous: Self, place: int) -> bool {
        if place == 0 {
            !self.health.same_number(previous.health)
        } else if place == 1 {
            !self.mana.same_number(previous.mana)
        } else {
            self.level != previous.level
        }
    }

    fn values(&self) -> (r: Vec<UiInputChange>) {
        let mut r: Vec<UiInputChange> = Vec::new();
        r.push(
            UiInputChange { key: "health".to_owned(), value: nui_flow_value_ref(&self.health) },
        );
        r.push(UiInputChange { key: "mana".to_owned(), value: nui_flow_value_ref(&self.mana) });
        r.push(UiInputChange { key: "level".to_owned(), value: nui_flow_value_ref(&self.level) });
        assert(changes_view(r@) =~= self.fields());
        assert(self.fields().map_values(|f: (Seq<char>, UiInputValue)| f.0) =~= Self::keys());
        r
    }

    fn differs_at(&self, previous: &Self, place: usize) -> (r: bool) {
        if place == 0 {
            !self.health.equals(previous.health)
        } else if place == 1 {
            !self.mana.equals(previous.mana)
        } else {
            self.level != previous.level
        }
    }

    fn assign(&mut self, key: &str, value: &UiInputValue) -> (r: Result<(), NuiFlowVarError>) {
        proof {
            lemma_status_keys();
        }
        if text::same_text(key, "health") {
            match Scalar32::from_ui_input_value(value) {
                Ok(v) => {
                    self.health = v;
                    Ok(())
                },
                Err(()) => Err(NuiFlowVarError::TypeMismatch(key.to_owned())),
            }
        } else if text::same_text(key, "mana") {
            match Scalar32::from_ui_input_value(value) {
                Ok(v) => {
                    self.mana = v;
                    Ok(())
                },
                Err(()) => Err(NuiFlowVarError::TypeMismatch(key.to_owned())),
            }
        } else if text::same_text(key, "level") {
            match u32::from_ui_input_value(value) {
                Ok(v) => {
                    self.level = v;
                    Ok(())
                },
                Err(()) => Err(NuiFlowVarError::TypeMismatch(key.to_owned())),
            }
        } else {
            Err(NuiFlowVarError::UnknownKey(key.to_owned()))
        }
    }
}

impl NuiFlowVars for CharacterStatusVars {
    const FLOW_NAME: &'static str = "character-status";

    const COMPONENT_NAME: &'static str = "character.player.main.status";
}

/// The keys of the character status flow are these three, all different.
pub proof fn lemma_status_keys()
    ensures
        "health"@ != "mana"@,
        "health"@ != "level"@,
        "mana"@ != "level"@,
        forall|key: Seq<char>| #[trigger]
            CharacterStatusVars::keys().contains(key) <==> key == "health"@ || key == "mana"@
                || key == "level"@,
{
    reveal_strlit("health");
    reveal_strlit("mana");
    reveal_strlit("level");
    assert("health"@.len() != "mana"@.len());
    assert("health"@.len() != "level"@.len());
    assert("mana"@.len() != "level"@.len());
    let keys = CharacterStatusVars::keys();
    assert(keys[0] == "health"@ && keys[1] == "mana"@ && keys[2] == "level"@);
}

/// Writing all variables back restores them, whatever was there before.
pub proof fn law_snapshot_restores(vars: CharacterStatusVars, other: CharacterStatusVars)
    ensures
        written_back(other, vars.fields()) == (vars, None::<VarErrorView>),
{
    lemma_status_keys();
    let all = vars.fields();
    let rest = all.drop_first();
    let last = rest.drop_first();
    assert(rest[0] == all[1]);
    assert(last[0] == all[2]);
    assert(last.drop_first().len() == 0);
    reveal_with_fuel(written_back, 5);
}

/// Where no variable differs from an earlier one, nothing is to be submitted.
pub proof fn law_equal_variables_have_no_diff<V: NuiFlowFields>(
    current: V,
    previous: V,
    count: int,
)
    requires
        forall|i: int| 0 <= i < count ==> !#[trigger] current.differs(previous, i),
    ensures
        changed_among(current, previous, count) == Seq::<(Seq<char>, UiInputValue)>::empty(),
    decreases count,
{
    if count > 0 {
        law_equal_variables_have_no_diff(current, previous, count - 1);
    }
}

/// Variables do not differ from themselves, as long as each of them is a number
/// (what is no number does not equal itself).
pub proof fn law_no_diff_with_itself(vars: CharacterStatusVars)
    requires
        !vars.health.is_nan(),
        !vars.mana.is_nan(),
    ensures
        changed_fields(vars, vars) == Seq::<(Seq<char>, UiInputValue)>::empty(),
{
    law_equal_variables_have_no_diff(vars, vars, vars.fields().len() as int);
}

/// Writing the difference back into the earlier variables gives the later ones:
/// every variable then holds the later value, or an earlier one that is equal
/// to it.
pub proof fn law_diff_updates(current: CharacterStatusVars, previous: CharacterStatusVars)
    ensures
        ({
            let (w, refused) = written_back(
                previous,
                changed_fields(current, previous),
            );
            &&& refused is None
            &&& w.health == if current.health.same_number(previous.health) {
                previous.health
            } else {
                current.health
            }
            &&& w.mana == if current.mana.same_number(previous.mana) {
                previous.mana
            } else {
                current.mana
            }
            &&& w.level == current.level
        }),
{
    lemma_status_keys();
    reveal_with_fuel(changed_among, 4);
    let changes = changed_fields(current, previous);
    let c = changes.drop_first();
    let d = c.drop_first();
    assert(changes.len() > 1 ==> c[0] == changes[1]);
    assert(changes.len() > 2 ==> d[0] == changes[2]);
    reveal_with_fuel(written_back, 5);
}

/// Values of different kinds are never equal. Values of one kind are equal exactly
/// where their content is, component by component, numbers as numbers.
pub proof fn law_equal_values_are_of_one_kind(a: UiInputValue, b: UiInputValue)
    ensures
        a.same_value(b) ==> {
            &&& a is Bool <==> b is Bool
            &&& a is I32 <==> b is I32
            &&& a is U32 <==> b is U32
            &&& a is F32 <==> b is F32
            &&& a is Vec2 <==> b is Vec2
            &&& a is Vec4 <==> b is Vec4
            &&& a is Color <==> b is Color
            &&& a is Enum <==> b is Enum
            &&& a is TextHandle <==> b is TextHandle
            &&& a is AssetHandle <==> b is AssetHandle
        },
        a is Bool && b is Bool ==> (a.same_value(b) <==> a->Bool_value == b->Bool_value),
        a is I32 && b is I32 ==> (a.same_value(b) <==> a->I32_value == b->I32_value),
        a is U32 && b is U32 ==> (a.same_value(b) <==> a->U32_value == b->U32_value),
        a is F32 && b is F32 ==> (a.same_value(b) <==> a->F32_value.same_number(b->F32_value)),
        a is Vec2 && b is Vec2 ==> (a.same_value(b) <==> {
            &&& a->Vec2_value[0].same_number(b->Vec2_value[0])
            &&& a->Vec2_value[1].same_number(b->Vec2_value[1])
        }),
        a is Vec4 && b is Vec4 ==> (a.same_value(b) <==> {
            &&& a->Vec4_value[0].same_number(b->Vec4_value[0])
            &&& a->Vec4_value[1].same_number(b->Vec4_value[1])
            &&& a->Vec4_value[2].same_number(b->Vec4_value[2])
            &&& a->Vec4_value[3].same_number(b->Vec4_value[3])
        }),
        a is Color && b is Color ==> (a.same_value(b) <==> {
            &&& a->Color_value[0].same_number(b->Color_value[0])
            &&& a->Color_value[1].same_number(b->Color_value[1])
            &&& a->Color_value[2].same_number(b->Color_value[2])
            &&& a->Color_value[3].same_number(b->Color_value[3])
        }),
        a is Enum && b is Enum ==> (a.same_value(b) <==> a->Enum_value@ == b->Enum_value@),
        a is TextHandle && b is TextHandle ==> (a.same_value(b) <==> {
            &&& a->TextHandle_value.id == b->TextHandle_value.id
            &&& a->TextHandle_value.generation == b->TextHandle_value.generation
        }),
        a is AssetHandle && b is AssetHandle ==> (a.same_value(b) <==> {
            &&& a->id == b->id
            &&& a->generation == b->generation
        }),
{
    if a is Vec2 && b is Vec2 {
        let (x, y) = (a->Vec2_value, b->Vec2_value);
        assert(x@[0].same_number(y@[0]) && x@[1].same_number(y@[1]) ==> same_numbers(x@, y@));
    }
    if a is Vec4 && b is Vec4 {
        lemma_four_numbers(a->Vec4_value, b->Vec4_value);
    }
    if a is Color && b is Color {
        lemma_four_numbers(a->Color_value, b->Color_value);
    }
}

proof fn lemma_four_numbers(x: [Scalar32; 4], y: [Scalar32; 4])
    ensures
        same_numbers(x@, y@) <==> {
            &&& x[0].same_number(y[0])
            &&& x[1].same_number(y[1])
            &&& x[2].same_number(y[2])
            &&& x[3].same_number(y[3])
        },
{
    if same_numbers(x@, y@) {
        assert(x@[0].same_number(y@[0]));
        assert(x@[1].same_number(y@[1]));
        assert(x@[2].same_number(y@[2]));
        assert(x@[3].same_number(y@[3]));
    }
}

/// A diff lists those variables that differ, and no others, with their current
/// keys and values, and in declared order.
pub proof fn law_diff_lists_what_differs<V: NuiFlowFields>(current: V, previous: V, count: int)
    requires
        0 <= count,
    ensures
        forall|i: int|
            0 <= i < count && #[trigger] current.differs(previous, i) ==> changed_among(
                current,
                previous,
                count,
            ).contains(current.fields()[i]),
        forall|x: (Seq<char>, UiInputValue)| #[trigger]
            changed_among(current, previous, count).contains(x) ==> exists|i: int|
                0 <= i < count && #[trigger] current.differs(previous, i) && current.fields()[i]
                    == x,
        changed_among(current, previous, count).len() <= count,
        count > 0 ==> changed_among(current, previous, count).take(
            changed_among(current, previous, count - 1).len() as int,
        ) == changed_among(current, previous, count - 1),
    decreases count,
{
    if count > 0 {
        law_diff_lists_what_differs(current, previous, count - 1);
        let front = changed_among(current, previous, count - 1);
        let whole = changed_among(current, previous, count);
        assert forall|i: int|
            0 <= i < count && #[trigger] current.differs(previous, i) implies whole.contains(
            current.fields()[i],
        ) by {
            if i < count - 1 {
                let j = choose|j: int| 0 <= j < front.len() && front[j] == current.fields()[i];
                assert(whole[j] == current.fields()[i]);
            } else {
                assert(whole[whole.len() - 1] == current.fields()[i]);
            }
        }
        assert forall|x: (Seq<char>, UiInputValue)| #[trigger] whole.contains(x) implies exists|
            i: int,
        |
            0 <= i < count && #[trigger] current.differs(previous, i) && current.fields()[i]
                == x by {
            let j = choose|j: int| 0 <= j < whole.len() && whole[j] == x;
            if j < front.len() {
                assert(front[j] == x);
                assert(front.contains(x));
            } else {
                assert(current.differs(previous, count - 1));
            }
        }
    }
}

/// The status variables go by their names: the health and the mana as numbers, the
/// level as a natural number.
pub proof fn law_status_fields_have_names(vars: CharacterStatusVars)
    ensures
        vars.fields().len() == 3,
        vars.fields()[0] == ("health"@, UiInputValue::F32 { value: vars.health }),
        vars.fields()[1] == ("mana"@, UiInputValue::F32 { value: vars.mana }),
        vars.fields()[2] == ("level"@, UiInputValue::U32 { value: vars.level }),
{
}

/// Writing a value under a key sets the variable of that name and no other, and is
/// refused where the name is unknown or the kind is another.
pub proof fn law_assignment_sets_one_variable(
    vars: CharacterStatusVars,
    key: Seq<char>,
    value: UiInputValue,
)
    ensures
        ({
            let (w, refused) = written_back(vars, seq![(key, value)]);
            let known = key == "health"@ || key == "mana"@ || key == "level"@;
            &&& !known ==> refused == Some(VarErrorView::UnknownKey(key)) && w == vars
            &&& key == "health"@ && value is F32 ==> refused is None && w == (CharacterStatusVars {
                health: value->F32_value,
                ..vars
            })
            &&& key == "mana"@ && value is F32 ==> refused is None && w == (CharacterStatusVars {
                mana: value->F32_value,
                ..vars
            })
            &&& key == "level"@ && value is U32 ==> refused is None && w == (CharacterStatusVars {
                level: value->U32_value,
                ..vars
            })
            &&& (key == "health"@ || key == "mana"@) && !(value is F32) || key == "level"@ && !(
            value is U32) ==> refused == Some(VarErrorView::TypeMismatch(key)) && w == vars
        }),
{
    lemma_status_keys();
    let change = seq![(key, value)];
    assert(change.drop_first() =~= Seq::<(Seq<char>, UiInputValue)>::empty());
    reveal_with_fuel(written_back, 2);
    let keys = CharacterStatusVars::keys();
    assert(keys[0] == "health"@ && keys[1] == "mana"@ && keys[2] == "level"@);
}

/// Changes are written back one after another, up to the first refusal.
pub proof fn law_changes_are_written_in_order<V: NuiFlowFields>(
    vars: V,
    changes: Seq<(Seq<char>, UiInputValue)>,
    later: Seq<(Seq<char>, UiInputValue)>,
)
    ensures
        ({
            let (w, refused) = written_back(vars, changes);
            &&& refused is Some ==> written_back(vars, changes + later) == (w, refused)
            &&& refused is None ==> written_back(vars, changes + later) == written_back(w, later)
        }),
    decreases changes.len(),
{
    if changes.len() == 0 {
        assert(changes + later =~= later);
    } else {
        assert((changes + later).drop_first() =~= changes.drop_first() + later);
        match vars.assigned(changes[0].0, changes[0].1) {
            Some(next) => {
                law_changes_are_written_in_order(next, changes.drop_first(), later);
            },
            None => {},
        }
    }
}

/// Each frame of a flow takes the next number, and no two numbers below the last
/// share a name.
pub proof fn law_frames_have_names_of_their_own(label: Seq<char>, m: u64, n: u64)
    ensures
        n < u64::MAX ==> next_sequence(n) == n + 1,
        next_sequence(u64::MAX) == u64::MAX,
        flow_request_id(label, m) == flow_request_id(label, n) ==> m == n,
        text::has_prefix(flow_request_id(label, n), "nui-flow:"@),
{
    let front = "nui-flow:"@ + label + ":"@;
    let (x, y) = (text::decimal(m as nat), text::decimal(n as nat));
    assert((front + x).skip(front.len() as int) =~= x);
    assert((front + y).skip(front.len() as int) =~= y);
    if x == y {
        text::law_decimals_differ(m as nat, n as nat);
    }
    assert(front + y =~= "nui-flow:"@ + (label + ":"@ + y));
    text::law_prefix_is_the_beginning(front + y, "nui-flow:"@);
}

/// A row of an instance stands under its anchor and holds under each key the value
/// of that variable.
pub proof fn law_row_holds_the_variables(anchor: Seq<char>, vars: CharacterStatusVars)
    ensures
        ({
            let row = template_row(anchor, vars.fields());
            &&& row.stable_row_key == anchor
            &&& forall|k: Seq<char>| #[trigger]
                row.values.contains_key(k) <==> k == "health"@ || k == "mana"@ || k == "level"@
            &&& row.values["health"@] == (UiInputValue::F32 { value: vars.health })
            &&& row.values["mana"@] == (UiInputValue::F32 { value: vars.mana })
            &&& row.values["level"@] == (UiInputValue::U32 { value: vars.level })
            &&& row.values.dom().finite()
        }),
{
    lemma_status_keys();
    let fields = vars.fields();
    let row = template_row(anchor, fields);
    assert(fields[0].0 == "health"@ && fields[1].0 == "mana"@ && fields[2].0 == "level"@);
    input_map::law_last_value_of_a_key_counts(fields, "health"@, 0);
    input_map::law_last_value_of_a_key_counts(fields, "mana"@, 1);
    input_map::law_last_value_of_a_key_counts(fields, "level"@, 2);
    assert forall|k: Seq<char>| #[trigger]
        row.values.contains_key(k) <==> k == "health"@ || k == "mana"@ || k == "level"@ by {
        input_map::law_last_value_of_a_key_counts(fields, k, 0);
    }
}

/// A frame takes the next number of its flow, for the program and the revision that
/// the flow is at, and carries the changes as they are under one name. The program
/// and the revision of the flow stay.
pub proof fn law_next_frame_follows_the_flow(
    before: NuiFlowIdentity,
    after: NuiFlowIdentity,
    frame: UiInputFrame,
    label: Seq<char>,
    changes: Seq<(Seq<char>, UiInputValue)>,
)
    requires
        identity_advanced(before, after),
        frame_carries(frame, after, label, changes),
        before.request_sequence < u64::MAX,
    ensures
        after.request_sequence == before.request_sequence + 1,
        after.program_revision == before.program_revision,
        after.expected_input_revision == before.expected_input_revision,
        frame.program_revision == before.program_revision,
        frame.expected_input_revision == before.expected_input_revision,
        frame.request_id@ == "nui-flow:"@ + label + ":"@ + text::decimal(
            (before.request_sequence + 1) as nat,
        ),
        frame.idempotency_key@ == frame.request_id@,
        frame.changes@.len() == changes.len(),
        forall|i: int|
            0 <= i < changes.len() ==> (#[trigger] frame.changes@[i]).key@ == changes[i].0
                && frame.changes@[i].value == changes[i].1,
{
    assert(changes_view(frame.changes@) == changes);
    assert forall|i: int| 0 <= i < changes.len() implies (#[trigger] frame.changes@[i]).key@
        == changes[i].0 && frame.changes@[i].value == changes[i].1 by {
        assert(changes_view(frame.changes@)[i] == frame.changes@[i]@);
    }
}

} // verus!
