//! Program revisions: which upload of a UI program an input belongs to.
//!
//! The host carries revisions from replies to requests without looking inside,
//! so it keeps the type of the UI schema itself.

use vstd::prelude::*;

use crate::json;

verus! {

/// Who is responsible for a program capability.
pub enum CapabilityOwner {
    UiRuntime,
    WgpuRuntime,
    SharedContract,
}

/// How settled a program capability is.
pub enum CapabilityStatus {
    Experimental,
    Supported,
    Deprecated,
}

/// What a program capability holds.
pub struct CapabilityView {
    pub name: Seq<char>,
    pub version: u16,
    pub owner: CapabilityOwner,
    pub status: CapabilityStatus,
}

/// What a program revision holds.
pub struct ProgramRevisionView {
    pub program_id: Seq<char>,
    pub revision: u64,
    pub schema_version: u16,
    pub capabilities: Seq<CapabilityView>,
}

/// The JSON form of a capability.
pub open spec fn capability_json(c: CapabilityView) -> json::JsonView {
    json::JsonView::Members(
        map![
            "name"@ => json::JsonView::Text(c.name),
            "version"@ => json::JsonView::Number(json::JsonNumber::Natural(c.version as u64)),
            "owner"@ => json::JsonView::Text(match c.owner {
                CapabilityOwner::UiRuntime => "ui_runtime"@,
                CapabilityOwner::WgpuRuntime => "wgpu_runtime"@,
                CapabilityOwner::SharedContract => "shared_contract"@,
            }),
            "status"@ => json::JsonView::Text(match c.status {
                CapabilityStatus::Experimental => "experimental"@,
                CapabilityStatus::Supported => "supported"@,
                CapabilityStatus::Deprecated => "deprecated"@,
            }),
        ],
    )
}

/// The JSON form of a program revision.
pub open spec fn program_revision_json(r: ProgramRevisionView) -> json::JsonView {
    json::JsonView::Members(
        map![
            "program_id"@ => json::JsonView::Text(r.program_id),
            "revision"@ => json::JsonView::Number(json::JsonNumber::Natural(r.revision)),
            "schema_version"@ => json::JsonView::Number(
                json::JsonNumber::Natural(r.schema_version as u64),
            ),
            "capabilities"@ => json::JsonView::Items(
                r.capabilities.map_values(|c: CapabilityView| capability_json(c)),
            ),
        ],
    )
}

/// `neon_ui::UiProgramRevision`, the identity of one UI program upload.
#[verifier::external_type_specification]
#[verifier::external_body]
pub struct ExUiProgramRevision(neon_ui::UiProgramRevision);

/// What a `neon_ui::UiProgramRevision` holds.
pub uninterp spec fn program_revision_view(
    revision: neon_ui::UiProgramRevision,
) -> ProgramRevisionView;

/// What `serde_json::from_value` reads as a `neon_ui::UiProgramRevision` from a
/// JSON value, where it finds one.
pub uninterp spec fn decoded_program_revision(value: json::JsonView) -> Option<
    ProgramRevisionView,
>;

/// `neon_ui::UiProgramCapability`, a capability that a UI program declares.
#[verifier::external_type_specification]
#[verifier::external_body]
pub struct ExUiProgramCapability(neon_ui::UiProgramCapability);

/// What a `neon_ui::UiProgramCapability` holds.
pub uninterp spec fn capability_view(capability: neon_ui::UiProgramCapability) -> CapabilityView;

/// An optional program revision by what it holds.
pub open spec fn program_revision_view_opt(revision: Option<neon_ui::UiProgramRevision>) -> Option<
    ProgramRevisionView,
> {
    match revision {
        Some(r) => Some(program_revision_view(r)),
        None => None,
    }
}

/// The `Clone` implementation of `neon_ui::UiProgramRevision` makes a deep
/// copy, which is the same revision.
pub assume_specification[ <neon_ui::UiProgramRevision as Clone>::clone ](
    value: &neon_ui::UiProgramRevision,
) -> (r: neon_ui::UiProgramRevision)
    ensures
        r == *value,
;

/// Builds a `neon_ui::UiProgramRevision` of the schema version that
/// `neon_ui::UI_PROGRAM_SCHEMA_VERSION` states, with those capabilities.
#[verifier::external_body]
pub(crate) fn new_program_revision(
    program_id: String,
    revision: u64,
    capabilities: Vec<neon_ui::UiProgramCapability>,
) -> (r: neon_ui::UiProgramRevision)
    ensures
        program_revision_view(r) == (ProgramRevisionView {
            program_id: program_id@,
            revision,
            schema_version: 1,
            capabilities: capabilities@.map_values(
                |c: neon_ui::UiProgramCapability| capability_view(c),
            ),
        }),
{
    neon_ui::UiProgramRevision {
        program_id,
        revision: neon_protocol::Revision(revision),
        schema_version: neon_ui::UI_PROGRAM_SCHEMA_VERSION,
        capabilities,
    }
}

/// Calls `serde_json::from_value` for a `neon_ui::UiProgramRevision`. What it
/// reads depends on the JSON value alone, and the JSON form of a revision is
/// read as that revision.
#[verifier::external_body]
pub(crate) fn decode_program_revision(value: &serde_json::Value) -> (r: Option<
    neon_ui::UiProgramRevision,
>)
    ensures
        program_revision_view_opt(r) == decoded_program_revision(json::json_view(*value)),
        forall|v: ProgramRevisionView|
            json::json_view(*value) == #[trigger] program_revision_json(v)
                ==> program_revision_view_opt(r) == Some(v),
{
    serde_json::from_value(value.clone()).ok()
}

/// Calls `serde_json::to_value` on a `neon_ui::UiProgramRevision`. The type
/// holds texts, numbers and lists of those alone, so the call succeeds.
#[verifier::external_body]
pub(crate) fn encode_program_revision(
    revision: &neon_ui::UiProgramRevision,
) -> (r: serde_json::Value)
    ensures
        json::json_view(r) == program_revision_json(program_revision_view(*revision)),
{
    serde_json::to_value(revision).unwrap_or_default()
}

/// A program is written under its names: its identity, its revision, its schema and
/// its capabilities in their order, each with its own name, version,
/// owner and status.
pub proof fn law_program_is_written_by_name(r: ProgramRevisionView, i: int)
    ensures
        ({
            let written = program_revision_json(r);
            let listed = written.member("capabilities"@)->0;
            &&& written.text_member("program_id"@) == Some(r.program_id)
            &&& written.natural_member("revision"@) == Some(r.revision)
            &&& written.natural_member("schema_version"@) == Some(r.schema_version as u64)
            &&& written.member("capabilities"@) is Some && listed is Items
            &&& listed->Items_0.len() == r.capabilities.len()
            &&& 0 <= i < r.capabilities.len() ==> {
                &&& listed->Items_0[i].text_member("name"@) == Some(r.capabilities[i].name)
                &&& listed->Items_0[i].natural_member("version"@) == Some(
                    r.capabilities[i].version as u64,
                )
                &&& r.capabilities[i].owner is UiRuntime ==> listed->Items_0[i].text_member(
                    "owner"@,
                ) == Some("ui_runtime"@)
                &&& r.capabilities[i].owner is WgpuRuntime ==> listed->Items_0[i].text_member(
                    "owner"@,
                ) == Some("wgpu_runtime"@)
                &&& r.capabilities[i].owner is SharedContract ==> listed->Items_0[i].text_member(
                    "owner"@,
                ) == Some("shared_contract"@)
                &&& r.capabilities[i].status is Experimental ==> listed->Items_0[i].text_member(
                    "status"@,
                ) == Some("experimental"@)
                &&& r.capabilities[i].status is Supported ==> listed->Items_0[i].text_member(
                    "status"@,
                ) == Some("supported"@)
                &&& r.capabilities[i].status is Deprecated ==> listed->Items_0[i].text_member(
                    "status"@,
                ) == Some("deprecated"@)
            }
        }),
{
    reveal_strlit("program_id");
    reveal_strlit("revision");
    reveal_strlit("schema_version");
    reveal_strlit("capabilities");
    assert("program_id"@.len() == 10 && "revision"@.len() == 8 && "schema_version"@.len() == 14
        && "capabilities"@.len() == 12);
    reveal_strlit("name");
    reveal_strlit("version");
    reveal_strlit("owner");
    reveal_strlit("status");
    assert("name"@.len() == 4 && "version"@.len() == 7 && "owner"@.len() == 5 && "status"@.len()
        == 6);
}

} // verus!
