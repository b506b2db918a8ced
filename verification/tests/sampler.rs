use ibl_sampler::error::OutputError;
use ibl_sampler::model::{Distribution, Output, OutputPath, TargetFormat};
use ibl_sampler::sampler::{check_interop_text, SamplerCall};

fn unfiltered(path: &str) -> Output {
    let mut output = Output::default_for_index(0);
    output.out_cubemap = OutputPath { path: path.to_string(), automatic_filename: true };
    output
}

fn filtered(path: &str, lut: &str, distribution: Distribution) -> Output {
    let mut output = unfiltered(path);
    output.set_distribution(Some(distribution), 1);
    output.filter_settings.as_mut().unwrap().out_lut =
        OutputPath { path: lut.to_string(), automatic_filename: false };
    output
}

#[test]
fn unfiltered_call_has_no_lut_and_no_samples() {
    let output = unfiltered("out/sky_cubemap.ktx2");
    let call = SamplerCall::prepare(&output, &"/tmp/sky.hdr".to_string());
    assert_eq!(
        call,
        Ok(SamplerCall {
            input_path: "/tmp/sky.hdr".to_string(),
            cubemap_path: "out/sky_cubemap.ktx2".to_string(),
            lut_path: None,
            distribution: None,
            cubemap_resolution: 0,
            mip_level_count: 0,
            sample_count: 0,
            target_format: TargetFormat::R16G16B16A16Sfloat,
            lod_bias_bits: 0,
            debug_output: true,
        })
    );
}

#[test]
fn filtered_call_carries_the_filter_settings() {
    let mut output = filtered("c.ktx2", "l.png", Distribution::Ggx);
    output.cubemap_resolution = Some(512);
    output.mip_level_count = Some(5);
    output.target_format = TargetFormat::R32G32B32A32Sfloat;
    output.lod_bias_bits = 1.5f32.to_bits();
    output.filter_settings.as_mut().unwrap().sample_count = 64;
    let call = SamplerCall::prepare(&output, &"in.hdr".to_string());
    assert_eq!(
        call,
        Ok(SamplerCall {
            input_path: "in.hdr".to_string(),
            cubemap_path: "c.ktx2".to_string(),
            lut_path: Some("l.png".to_string()),
            distribution: Some(Distribution::Ggx),
            cubemap_resolution: 512,
            mip_level_count: 5,
            sample_count: 64,
            target_format: TargetFormat::R32G32B32A32Sfloat,
            lod_bias_bits: 0x3fc0_0000,
            debug_output: true,
        })
    );
    let call = call.unwrap();
    assert_eq!(f32::from_bits(call.lod_bias_bits), 1.5);
}

#[test]
fn default_filter_settings_sample_count_reaches_the_call() {
    let mut output = Output::default_for_index(3);
    output.out_cubemap.path = "c.ktx2".to_string();
    output.filter_settings.as_mut().unwrap().out_lut.path = "l.png".to_string();
    let call = SamplerCall::prepare(&output, &"in.hdr".to_string()).unwrap();
    assert_eq!(call.sample_count, 1024);
    assert_eq!(call.distribution, Some(Distribution::Charlie));
}

#[test]
fn cubemap_path_with_nul_is_refused() {
    let output = unfiltered("out\0.ktx2");
    assert_eq!(
        SamplerCall::prepare(&output, &"in.hdr".to_string()),
        Err(OutputError::OutputCubemapPathNotValidUTF8)
    );
}

#[test]
fn lut_path_with_nul_is_refused() {
    let output = filtered("c.ktx2", "l\0.png", Distribution::Lambertian);
    assert_eq!(
        SamplerCall::prepare(&output, &"in.hdr".to_string()),
        Err(OutputError::OutputLutPathNotValidUTF8)
    );
}

#[test]
fn cubemap_path_is_checked_before_lut_path() {
    let output = filtered("c\0.ktx2", "l\0.png", Distribution::Lambertian);
    assert_eq!(
        SamplerCall::prepare(&output, &"in.hdr".to_string()),
        Err(OutputError::OutputCubemapPathNotValidUTF8)
    );
}

#[test]
fn unfiltered_output_needs_no_lut_path() {
    let output = unfiltered("c.ktx2");
    assert!(output.filter_settings.is_none());
    assert!(SamplerCall::prepare(&output, &"in.hdr".to_string()).is_ok());
}

#[test]
fn input_path_with_nul_is_refused_first() {
    let output = unfiltered("c\0.ktx2");
    assert_eq!(
        SamplerCall::prepare(&output, &"in\0.hdr".to_string()),
        Err(OutputError::FailedToReencodeInput)
    );
}

#[test]
fn interop_text_has_no_nul() {
    assert!(check_interop_text(""));
    assert!(check_interop_text("/tmp/\u{e9}t\u{e9}.hdr"));
    assert!(!check_interop_text("\0"));
    assert!(!check_interop_text("abc\0"));
}
