//! Configuration and state of the session with the Neon3 services.

use vstd::prelude::*;
use vstd::string::*;

use crate::flow::UiRepeatRow;

verus! {

broadcast use vstd::string::group_string_axioms;

pub const SCREEN_SURFACE_ID: &'static str = "case.bevy.screen.ui";

pub const COLOR_TARGET_ID: &'static str = "case.bevy.screen.ui.color";

pub const WORLD_SURFACE_ID: &'static str = "case.bevy.world.ui";

pub const WORLD_COLOR_TARGET_ID: &'static str = "case.bevy.world.ui.color";

/// How many texels of the shared surface stand for one logical pixel along an
/// edge.
pub const UI_BACKING_SCALE: u32 = 2;

/// The world space that the host publishes its camera and anchors in.
pub const WORLD_SPACE_ID: &'static str = "case.bevy.world.main";

/// Who runs the Neon3 services.
#[derive(Clone, Copy, Debug, PartialEq, Eq, Structural)]
pub enum Neon3ServiceMode {
    /// The host starts and owns the local Neon services.
    AutoHeadless,
    /// The host starts a visible Neon WGPU window and the UI forwarder.
    AutoWindowed,
    /// The application is embedding or supervising Neon services itself.
    External,
}

impl Default for Neon3ServiceMode {
    fn default() -> (r: Self)
        ensures
            r == Neon3ServiceMode::AutoHeadless,
    {
        Neon3ServiceMode::AutoHeadless
    }
}

/// How the host reaches and drives the services. Endpoints are socket
/// addresses in their textual form.
#[derive(Clone, Debug)]
pub struct Neon3BevyConfig {
    pub wgpu_endpoint: String,
    pub ui_endpoint: String,
    pub eventd_endpoint: Option<String>,
    pub session_id: String,
    pub surface_size: [u32; 2],
    pub ui_sources: Vec<String>,
    pub world_ui: bool,
    pub service_mode: Neon3ServiceMode,
    pub auto_start_services: bool,
}

impl Neon3BevyConfig {
    /// The standard configuration for the given flow sources.
    pub fn with_ui_sources(ui_sources: Vec<String>) -> (r: Self)
        ensures
            r.wgpu_endpoint@ == "127.0.0.1:39103"@,
            r.ui_endpoint@ == "127.0.0.1:39102"@,
            r.eventd_endpoint is None,
            r.session_id@ == "bevy-nui-host"@,
            r.surface_size@ == seq![2560u32, 1440u32],
            r.ui_sources == ui_sources,
            !r.world_ui,
            r.service_mode == Neon3ServiceMode::AutoHeadless,
            r.auto_start_services,
    {
        let surface_size: [u32; 2] = [1280 * UI_BACKING_SCALE, 720 * UI_BACKING_SCALE];
        assert(surface_size@ =~= seq![2560u32, 1440u32]);
        Neon3BevyConfig {
            wgpu_endpoint: "127.0.0.1:39103".to_owned(),
            ui_endpoint: "127.0.0.1:39102".to_owned(),
            eventd_endpoint: None,
            session_id: "bevy-nui-host".to_owned(),
            surface_size,
            ui_sources,
            world_ui: false,
            service_mode: Neon3ServiceMode::AutoHeadless,
            auto_start_services: true,
        }
    }

    /// Whether the host starts the services itself.
    pub open spec fn owns_services(self) -> bool {
        self.auto_start_services && self.service_mode != Neon3ServiceMode::External
    }

    /// Whether the host starts the services itself.
    pub fn starts_services(&self) -> (r: bool)
        ensures
            r == self.owns_services(),
    {
        self.auto_start_services && self.service_mode != Neon3ServiceMode::External
    }
}

/// What the host knows about its session.
#[derive(Debug)]
pub struct Neon3Session {
    pub config: Neon3BevyConfig,
    pub surface_id: String,
    pub color_target_id: String,
    pub generation: u64,
    pub producer_epoch: u64,
    pub frame_sequence: u64,
    /// One sequence is shared by a camera frame and its anchor batch. It moves
    /// on only when a complete world snapshot changed.
    pub world_frame_sequence: u64,
    pub connected: bool,
    pub last_error: Option<String>,
    pub acquire_requested: bool,
    pub surface_acquired: bool,
    pub world_surface_acquired: bool,
    pub world_ui_snapshot: Option<Vec<UiRepeatRow>>,
}

impl Neon3Session {
    /// The session before any request was answered.
    pub fn new(config: Neon3BevyConfig) -> (r: Self)
        ensures
            r.config == config,
            r.surface_id@ == SCREEN_SURFACE_ID@,
            r.color_target_id@ == COLOR_TARGET_ID@,
            r.generation == 0,
            r.producer_epoch == 1,
            r.frame_sequence == 0,
            r.world_frame_sequence == 0,
            !r.connected,
            r.last_error is None,
            !r.acquire_requested,
            !r.surface_acquired,
            !r.world_surface_acquired,
            r.world_ui_snapshot is None,
    {
        Neon3Session {
            config,
            surface_id: SCREEN_SURFACE_ID.to_owned(),
            color_target_id: COLOR_TARGET_ID.to_owned(),
            generation: 0,
            producer_epoch: 1,
            frame_sequence: 0,
            world_frame_sequence: 0,
            connected: false,
            last_error: None,
            acquire_requested: false,
            surface_acquired: false,
            world_surface_acquired: false,
            world_ui_snapshot: None,
        }
    }

    /// Whether the host may publish its camera and world anchors.
    pub open spec fn publishes_world(self) -> bool {
        self.surface_acquired && self.world_surface_acquired && self.config.world_ui
    }

    /// Whether the host may publish its camera and world anchors.
    pub fn world_is_published(&self) -> (r: bool)
        ensures
            r == self.publishes_world(),
    {
        self.surface_acquired && self.world_surface_acquired && self.config.world_ui
    }
}

/// World data is published exactly where both surfaces are there and the host shows
/// world interfaces.
pub proof fn law_world_needs_both_surfaces(session: Neon3Session)
    ensures
        session.publishes_world() <==> {
            &&& session.surface_acquired
            &&& session.world_surface_acquired
            &&& session.config.world_ui
        },
{
}

/// The host starts services exactly where it is to and nobody else supervises them.
pub proof fn law_supervised_services_are_not_started(config: Neon3BevyConfig)
    ensures
        config.service_mode == Neon3ServiceMode::External ==> !config.owns_services(),
        !config.auto_start_services ==> !config.owns_services(),
        config.auto_start_services && config.service_mode != Neon3ServiceMode::External
            ==> config.owns_services(),
{
}

} // verus!
