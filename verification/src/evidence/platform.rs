//! Hardware platforms that can produce execution evidence.
use super::ExecutionEvidence;
use vstd::prelude::*;
use vstd::string::StringExecFns;

verus! {

#[derive(Debug, Clone, PartialEq, Eq)]
pub enum PlatformIntegrityError {
    /// The current platform does not support the requested hardware
    /// integrity feature (not running inside an AWS Nitro Enclave or an SGX
    /// environment).
    UnsupportedPlatform,
    /// An error occurred when communicating with the hardware API.
    HardwareApiError(String),
    /// The underlying key material is unavailable for signing.
    KeyMaterialUnavailable,
}

impl PlatformIntegrityError {
    /// A human-readable description of the error.
    pub fn message(&self) -> (r: String)
        ensures
            match self {
                PlatformIntegrityError::UnsupportedPlatform => r@
                    == "Platform integration is unavailable on this hardware"@,
                PlatformIntegrityError::HardwareApiError(msg) => r@ == "Hardware API error: "@
                    + msg@,
                PlatformIntegrityError::KeyMaterialUnavailable => r@
                    == "Platform key material is unavailable"@,
            },
    {
        match self {
            PlatformIntegrityError::UnsupportedPlatform => {
                "Platform integration is unavailable on this hardware".to_owned()
            },
            PlatformIntegrityError::HardwareApiError(msg) => {
                let mut s = "Hardware API error: ".to_owned();
                s.append(msg.as_str());
                s
            },
            PlatformIntegrityError::KeyMaterialUnavailable => {
                "Platform key material is unavailable".to_owned()
            },
        }
    }
}

/// A source of execution evidence backed by a native platform API.
pub trait PlatformIntegrityProvider {
    /// Generates cryptographically secure execution evidence using the
    /// native platform APIs.
    ///
    /// If the platform is unavailable, this must return
    /// `Err(PlatformIntegrityError::UnsupportedPlatform)` and must not fake
    /// or simulate the evidence.
    ///
    /// # Errors
    /// Returns `PlatformIntegrityError` if the hardware is missing or the API
    /// fails.
    fn generate_evidence(&self) -> Result<ExecutionEvidence, PlatformIntegrityError>;
}

/// Calls `std::path::Path::exists` on `path`. Whether a device node exists
/// depends on the machine, so nothing is stated of the result.
#[verifier::external_body]
fn device_exists(path: &str) -> bool {
    std::path::Path::new(path).exists()
}

/// What a provider whose driver is not linked answers: unsupported without
/// its device, and otherwise a hardware API error naming what is missing.
pub fn unlinked_platform_outcome(device_present: bool, missing: &str) -> (r: Result<
    ExecutionEvidence,
    PlatformIntegrityError,
>)
    ensures
        !device_present ==> r == Err::<ExecutionEvidence, PlatformIntegrityError>(
            PlatformIntegrityError::UnsupportedPlatform,
        ),
        device_present ==> (r matches Err(PlatformIntegrityError::HardwareApiError(m)) && m@
            == missing@),
{
    if !device_present {
        return Err(PlatformIntegrityError::UnsupportedPlatform);
    }
    Err(PlatformIntegrityError::HardwareApiError(missing.to_owned()))
}

/// The device through which AWS Nitro Enclaves are reached: the Nitro
/// Secure Module.
pub fn nsm_device_path() -> (r: &'static str)
    ensures
        r@ == "/dev/nsm"@,
{
    let r = "/dev/nsm";
    proof {
        reveal_strlit("/dev/nsm");
    }
    r
}

/// The device through which Intel SGX enclaves are reached.
pub fn sgx_device_path() -> (r: &'static str)
    ensures
        r@ == "/dev/sgx_enclave"@,
{
    let r = "/dev/sgx_enclave";
    proof {
        reveal_strlit("/dev/sgx_enclave");
    }
    r
}

/// AWS Nitro Enclaves, reached through the Nitro Secure Module device
/// (`nsm_device_path`). The device is probed on the file system: without
/// it the platform is unsupported; with it, the driver is not linked.
pub struct AwsNitroProvider;

impl PlatformIntegrityProvider for AwsNitroProvider {
    fn generate_evidence(&self) -> (r: Result<ExecutionEvidence, PlatformIntegrityError>)
        ensures
            r == Err::<ExecutionEvidence, PlatformIntegrityError>(
                PlatformIntegrityError::UnsupportedPlatform,
            ) || (r matches Err(PlatformIntegrityError::HardwareApiError(m)) && m@
                == "NSM driver library not linked"@),
    {
        let present = device_exists(nsm_device_path());
        unlinked_platform_outcome(present, "NSM driver library not linked")
    }
}

/// Intel SGX, reached through the enclave device (`sgx_device_path`). The
/// device is probed on the file system: without it the platform is
/// unsupported; with it, the SDK is not linked.
pub struct IntelSgxProvider;

impl PlatformIntegrityProvider for IntelSgxProvider {
    fn generate_evidence(&self) -> (r: Result<ExecutionEvidence, PlatformIntegrityError>)
        ensures
            r == Err::<ExecutionEvidence, PlatformIntegrityError>(
                PlatformIntegrityError::UnsupportedPlatform,
            ) || (r matches Err(PlatformIntegrityError::HardwareApiError(m)) && m@
                == "SGX SDK not linked"@),
    {
        let present = device_exists(sgx_device_path());
        unlinked_platform_outcome(present, "SGX SDK not linked")
    }
}

} // verus!
