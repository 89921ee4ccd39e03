//! Failures of the import of shared textures.

use vstd::prelude::*;
use vstd::string::*;

verus! {

broadcast use vstd::string::group_string_axioms;

/// Why a shared texture could not be used.
#[derive(Debug)]
pub enum ImportError {
    NotDx12,
    HalDeviceUnavailable,
    OpenSharedHandle(String),
    WaitExternalFence(String),
}

impl ImportError {
    /// The message for the failure.
    pub fn message(&self) -> (r: String)
        ensures
            r@ == match self {
                ImportError::NotDx12 => "Bevy RenderDevice is not using DX12"@,
                ImportError::HalDeviceUnavailable => "Bevy DX12 HAL device is unavailable"@,
                ImportError::OpenSharedHandle(error) => "open shared D3D12 texture: "@ + error@,
                ImportError::WaitExternalFence(error) => "wait external D3D12 fence: "@ + error@,
            },
    {
        match self {
            ImportError::NotDx12 => "Bevy RenderDevice is not using DX12".to_owned(),
            ImportError::HalDeviceUnavailable => "Bevy DX12 HAL device is unavailable".to_owned(),
            ImportError::OpenSharedHandle(error) => "open shared D3D12 texture: ".to_owned().concat(
                error.as_str(),
            ),
            ImportError::WaitExternalFence(error) => "wait external D3D12 fence: ".to_owned().concat(
                error.as_str(),
            ),
        }
    }
}

} // verus!
