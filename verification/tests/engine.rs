use ibl_sampler::engine::{
    distribution_selector, format_selector, DISTRIBUTION_CHARLIE, DISTRIBUTION_GGX,
    DISTRIBUTION_LAMBERTIAN, DISTRIBUTION_NONE, FORMAT_B9G9R9E5_UFLOAT,
    FORMAT_R16G16B16A16_SFLOAT, FORMAT_R32G32B32A32_SFLOAT, FORMAT_R8G8B8A8_UNORM,
    RESULT_STB_ERROR, RESULT_SUCCESS, RESULT_VULKAN_INITIALIZATION_FAILED,
};
use ibl_sampler::model::{Distribution, TargetFormat};

#[test]
fn result_codes_count_up_from_success() {
    assert_eq!(RESULT_SUCCESS, 0);
    assert_eq!(RESULT_VULKAN_INITIALIZATION_FAILED, 1);
    assert_eq!(RESULT_STB_ERROR, 9);
}

#[test]
fn every_distribution_has_its_selector() {
    assert_eq!(distribution_selector(None), DISTRIBUTION_NONE);
    assert_eq!(distribution_selector(Some(Distribution::Lambertian)), DISTRIBUTION_LAMBERTIAN);
    assert_eq!(distribution_selector(Some(Distribution::Ggx)), DISTRIBUTION_GGX);
    assert_eq!(distribution_selector(Some(Distribution::Charlie)), DISTRIBUTION_CHARLIE);
    assert_eq!(
        [
            distribution_selector(Some(Distribution::Lambertian)),
            distribution_selector(Some(Distribution::Ggx)),
            distribution_selector(Some(Distribution::Charlie)),
            distribution_selector(None),
        ],
        [0, 1, 2, 3]
    );
}

#[test]
fn every_format_has_its_selector() {
    assert_eq!(format_selector(TargetFormat::R8G8B8A8Unorm), FORMAT_R8G8B8A8_UNORM);
    assert_eq!(format_selector(TargetFormat::R9G9B9E5Ufloat), FORMAT_B9G9R9E5_UFLOAT);
    assert_eq!(format_selector(TargetFormat::R16G16B16A16Sfloat), FORMAT_R16G16B16A16_SFLOAT);
    assert_eq!(format_selector(TargetFormat::R32G32B32A32Sfloat), FORMAT_R32G32B32A32_SFLOAT);
    assert_eq!(
        [
            format_selector(TargetFormat::R8G8B8A8Unorm),
            format_selector(TargetFormat::R16G16B16A16Sfloat),
            format_selector(TargetFormat::R32G32B32A32Sfloat),
            format_selector(TargetFormat::R9G9B9E5Ufloat),
        ],
        [37, 97, 109, 123]
    );
}
