//! The numbers of the sampling engine's interface: its result codes
//! and the selectors of its settings.

use vstd::prelude::*;
use crate::model::{Distribution, TargetFormat};

verus! {

/// The sampling engine finished without error.
pub const RESULT_SUCCESS: i32 = 0;

/// The engine could not initialise Vulkan.
pub const RESULT_VULKAN_INITIALIZATION_FAILED: i32 = 1;

/// A Vulkan call failed while the engine was running.
pub const RESULT_VULKAN_ERROR: i32 = 2;

/// The engine could not open the input panorama.
pub const RESULT_INPUT_PANORAMA_FILE_NOT_FOUND: i32 = 3;

/// The engine could not open one of its shader files.
pub const RESULT_SHADER_FILE_NOT_FOUND: i32 = 4;

/// The engine could not compile one of its shaders.
pub const RESULT_SHADER_COMPILATION_FAILED: i32 = 5;

/// The engine could not open some other file.
pub const RESULT_FILE_NOT_FOUND: i32 = 6;

/// The engine rejected one of its arguments.
pub const RESULT_INVALID_ARGUMENT: i32 = 7;

/// The engine failed to write the KTX container.
pub const RESULT_KTX_ERROR: i32 = 8;

/// The engine failed inside its image codec.
pub const RESULT_STB_ERROR: i32 = 9;

/// The engine filters with the Lambertian distribution.
pub const DISTRIBUTION_LAMBERTIAN: u32 = 0;

/// The engine filters with the GGX distribution.
pub const DISTRIBUTION_GGX: u32 = 1;

/// The engine filters with the Charlie distribution.
pub const DISTRIBUTION_CHARLIE: u32 = 2;

/// The engine does not filter.
pub const DISTRIBUTION_NONE: u32 = 3;

/// Four 8-bit channels, normalised.
pub const FORMAT_R8G8B8A8_UNORM: i32 = 37;

/// Four 16-bit floating-point channels.
pub const FORMAT_R16G16B16A16_SFLOAT: i32 = 97;

/// Four 32-bit floating-point channels.
pub const FORMAT_R32G32B32A32_SFLOAT: i32 = 109;

/// Three 9-bit channels with a shared exponent of 5 bits.
pub const FORMAT_B9G9R9E5_UFLOAT: i32 = 123;

/// The number that the engine takes for a distribution, or for none.
pub open spec fn selector_of(distribution: Option<Distribution>) -> u32 {
    match distribution {
        None => DISTRIBUTION_NONE,
        Some(Distribution::Lambertian) => DISTRIBUTION_LAMBERTIAN,
        Some(Distribution::Ggx) => DISTRIBUTION_GGX,
        Some(Distribution::Charlie) => DISTRIBUTION_CHARLIE,
    }
}

/// The number that the engine takes for a pixel format.
pub open spec fn format_selector_of(format: TargetFormat) -> i32 {
    match format {
        TargetFormat::R8G8B8A8Unorm => FORMAT_R8G8B8A8_UNORM,
        TargetFormat::R9G9B9E5Ufloat => FORMAT_B9G9R9E5_UFLOAT,
        TargetFormat::R16G16B16A16Sfloat => FORMAT_R16G16B16A16_SFLOAT,
        TargetFormat::R32G32B32A32Sfloat => FORMAT_R32G32B32A32_SFLOAT,
    }
}

/// The selectors keep the settings apart: two distributions, or two
/// formats, never share a number.
pub proof fn lemma_selectors_differ(
    first: Option<Distribution>,
    second: Option<Distribution>,
    one: TargetFormat,
    other: TargetFormat,
)
    ensures
        selector_of(first) == selector_of(second) ==> first == second,
        format_selector_of(one) == format_selector_of(other) ==> one == other,
{
}

/// The number that the engine takes for a distribution, or for none.
pub fn distribution_selector(distribution: Option<Distribution>) -> (number: u32)
    ensures
        number == selector_of(distribution),
{
    match distribution {
        None => DISTRIBUTION_NONE,
        Some(Distribution::Lambertian) => DISTRIBUTION_LAMBERTIAN,
        Some(Distribution::Ggx) => DISTRIBUTION_GGX,
        Some(Distribution::Charlie) => DISTRIBUTION_CHARLIE,
    }
}

/// The number that the engine takes for a pixel format.
pub fn format_selector(format: TargetFormat) -> (number: i32)
    ensures
        number == format_selector_of(format),
{
    match format {
        TargetFormat::R8G8B8A8Unorm => FORMAT_R8G8B8A8_UNORM,
        TargetFormat::R9G9B9E5Ufloat => FORMAT_B9G9R9E5_UFLOAT,
        TargetFormat::R16G16B16A16Sfloat => FORMAT_R16G16B16A16_SFLOAT,
        TargetFormat::R32G32B32A32Sfloat => FORMAT_R32G32B32A32_SFLOAT,
    }
}

} // verus!
