//! The user interfaces that a host attaches to its screen and to its world.

use vstd::prelude::*;
use vstd::string::*;

use crate::flow;
use crate::flow::{CharacterStatusVars, NuiFlowIdentity, NuiFlowVars, UiRepeatRow};
use crate::revision;
use crate::scalar::Scalar32;

verus! {

broadcast use vstd::string::group_string_axioms;

/// An object of the host that intents may name.
#[derive(Clone, Debug)]
pub struct Neon3HostObject {
    pub object_id: String,
}

/// Marks the character that the user walks.
#[derive(Clone, Copy, Debug)]
pub struct Neon3WalkableCharacter;

/// How a world panel takes part in scene occlusion.
#[derive(Clone, Copy, Debug, PartialEq, Eq, Structural)]
pub enum WorldUiOcclusion {
    /// Never depth-tested: the panel is always drawn on top of scene geometry.
    AlwaysVisible,
    /// Depth-tested against scene depth: pixels behind nearer geometry are
    /// discarded.
    DepthTested,
}

impl Default for WorldUiOcclusion {
    fn default() -> (r: Self)
        ensures
            r == WorldUiOcclusion::AlwaysVisible,
    {
        WorldUiOcclusion::AlwaysVisible
    }
}

impl WorldUiOcclusion {
    /// The protocol name of the policy.
    pub open spec fn name(self) -> Seq<char> {
        match self {
            WorldUiOcclusion::AlwaysVisible => "always_visible"@,
            WorldUiOcclusion::DepthTested => "depth_tested"@,
        }
    }

    /// The protocol name of the policy.
    pub fn as_str(&self) -> (r: &'static str)
        ensures
            r@ == self.name(),
    {
        match self {
            WorldUiOcclusion::AlwaysVisible => "always_visible",
            WorldUiOcclusion::DepthTested => "depth_tested",
        }
    }
}

/// The state of a fixed-screen interface. It has no world anchor.
pub struct NeonScreenUi<V: NuiFlowVars> {
    pub flow: String,
    pub vars: V,
    pub identity: NuiFlowIdentity,
    /// The variables of the last submission.
    pub sent: Option<V>,
    pub visible: bool,
    pub selected_object: Option<String>,
}

impl<V: NuiFlowVars> NeonScreenUi<V> {
    /// A visible interface of which nothing was submitted yet.
    pub fn new(flow: String, vars: V, identity: NuiFlowIdentity) -> (r: Self)
        ensures
            r.flow == flow,
            r.vars == vars,
            r.identity == identity,
            r.sent is None,
            r.visible,
            r.selected_object is None,
    {
        NeonScreenUi { flow, vars, identity, sent: None, visible: true, selected_object: None }
    }
}

/// One instance of a world-space interface. Many instances share one flow
/// template, and each has its own variables and anchor. An instance becomes
/// one template row, keyed by its anchor.
pub struct NeonWorldUi<V: NuiFlowVars> {
    /// The name of the flow source that the instances share.
    pub flow: String,
    pub vars: V,
    pub identity: NuiFlowIdentity,
    /// The stable key of the instance.
    pub anchor: String,
    /// The offset of the anchor point from the entity.
    pub offset: [Scalar32; 3],
    /// The variables of the last submission.
    pub sent: Option<V>,
    pub visible: bool,
    pub occlusion: WorldUiOcclusion,
}

impl<V: NuiFlowVars> NeonWorldUi<V> {
    /// The key of the row that the instance becomes.
    pub fn stable_row_key(&self) -> (r: String)
        ensures
            r@ == self.anchor@,
    {
        self.anchor.clone()
    }

    /// The row of the instance, whether or not it is visible.
    pub open spec fn row(self) -> flow::RowView {
        flow::template_row(self.anchor@, self.vars.fields())
    }

    /// The full template row of a visible instance.
    pub fn row_snapshot(&self) -> (r: Option<UiRepeatRow>)
        ensures
            r is Some <==> self.visible,
            r matches Some(row) ==> row@ == self.row(),
    {
        if self.visible {
            Some(self.vars.row_snapshot(self.anchor.as_str()))
        } else {
            None
        }
    }
}

/// The rows of the visible instances, in their order.
pub open spec fn visible_rows<V: NuiFlowVars>(world_uis: Seq<&NeonWorldUi<V>>) -> Seq<
    flow::RowView,
>
    decreases world_uis.len(),
{
    if world_uis.len() == 0 {
        Seq::empty()
    } else if world_uis.last().visible {
        visible_rows(world_uis.drop_last()).push(world_uis.last().row())
    } else {
        visible_rows(world_uis.drop_last())
    }
}

/// Collects the rows of the visible instances.
pub fn collect_world_ui_rows<V: NuiFlowVars>(world_uis: &[&NeonWorldUi<V>]) -> (rows: Vec<
    UiRepeatRow,
>)
    ensures
        flow::rows_view(rows@) == visible_rows(world_uis@),
{
    let mut rows: Vec<UiRepeatRow> = Vec::new();
    let ghost all = world_uis@;
    let mut i: usize = 0;
    assert(all.take(0) =~= Seq::<&NeonWorldUi<V>>::empty());
    assert(flow::rows_view(rows@) =~= Seq::<flow::RowView>::empty());
    while i < world_uis.len()
        invariant
            i <= world_uis.len(),
            all == world_uis@,
            flow::rows_view(rows@) == visible_rows(all.take(i as int)),
        decreases world_uis.len() - i,
    {
        let ghost before = rows@;
        assert(all.take(i + 1).drop_last() =~= all.take(i as int));
        if let Some(row) = world_uis[i].row_snapshot() {
            rows.push(row);
            assert(flow::rows_view(rows@) =~= flow::rows_view(before).push(all[i as int].row()));
        }
        i += 1;
    }
    assert(all.take(i as int) =~= all);
    rows
}

/// The host side of the character status flow.
pub struct CharacterStatusBridge {
    pub identity: NuiFlowIdentity,
    pub current: CharacterStatusVars,
    pub sent: Option<CharacterStatusVars>,
    /// Whether the runtime accepted the flow source.
    pub flow_ready: bool,
    /// Whether an input frame is on its way.
    pub input_pending: bool,
}

impl Default for CharacterStatusBridge {
    /// The bridge before the flow was accepted.
    fn default() -> (r: Self)
        ensures
            revision::program_revision_view(r.identity.program_revision) == (
            revision::ProgramRevisionView {
                program_id: "character.player.main.status"@,
                revision: 1,
                schema_version: 1,
                capabilities: Seq::empty(),
            }),
            r.identity.expected_input_revision == 0,
            r.identity.request_sequence == 0,
            // 82, 64
            r.current == (CharacterStatusVars {
                health: Scalar32 { bits: 0x42a4_0000 },
                mana: Scalar32 { bits: 0x4280_0000 },
                level: 12,
            }),
            r.sent is None,
            !r.flow_ready,
            !r.input_pending,
    {
        let program_revision = revision::new_program_revision(
            "character.player.main.status".to_owned(),
            1,
            Vec::new(),
        );
        assert(revision::program_revision_view(program_revision).capabilities =~= Seq::empty());
        CharacterStatusBridge {
            identity: NuiFlowIdentity {
                program_revision,
                expected_input_revision: 0,
                request_sequence: 0,
            },
            current: CharacterStatusVars {
                health: Scalar32 { bits: 0x42a4_0000 },
                mana: Scalar32 { bits: 0x4280_0000 },
                level: 12,
            },
            sent: None,
            flow_ready: false,
            input_pending: false,
        }
    }
}

/// The rows of several instances are the rows of the first ones, then those of the
/// others. A visible instance has its own row, one that is not visible has none.
pub proof fn law_visible_instances_have_rows<V: NuiFlowVars>(
    first: Seq<&NeonWorldUi<V>>,
    others: Seq<&NeonWorldUi<V>>,
    one: &NeonWorldUi<V>,
)
    ensures
        visible_rows(first + others) == visible_rows(first) + visible_rows(others),
        one.visible ==> visible_rows(seq![one]) == seq![one.row()],
        !one.visible ==> visible_rows(seq![one]).len() == 0,
        visible_rows(Seq::<&NeonWorldUi<V>>::empty()).len() == 0,
        one.row().stable_row_key == one.anchor@,
    decreases others.len(),
{
    reveal_with_fuel(visible_rows, 2);
    assert(seq![one].drop_last() =~= Seq::<&NeonWorldUi<V>>::empty());
    assert(visible_rows(Seq::<&NeonWorldUi<V>>::empty()) =~= Seq::<flow::RowView>::empty());
    if one.visible {
        assert(visible_rows(seq![one]) =~= seq![one.row()]);
    }
    if others.len() == 0 {
        assert(first + others =~= first);
        assert(visible_rows(first) + visible_rows(others) =~= visible_rows(first));
    } else {
        law_visible_instances_have_rows(first, others.drop_last(), one);
        assert((first + others).drop_last() =~= first + others.drop_last());
        assert((first + others).last() == others.last());
        assert(visible_rows(first + others) =~= visible_rows(first) + visible_rows(others));
    }
}

/// The two ways in which a panel is hidden have names of their own.
pub proof fn law_occlusion_names_differ(a: WorldUiOcclusion, b: WorldUiOcclusion)
    requires
        a.name() == b.name(),
    ensures
        a == b,
{
    reveal_strlit("always_visible");
    reveal_strlit("depth_tested");
    assert("always_visible"@.len() != "depth_tested"@.len());
}

} // verus!
