use ibl_sampler::engine::{
    RESULT_FILE_NOT_FOUND, RESULT_INPUT_PANORAMA_FILE_NOT_FOUND, RESULT_INVALID_ARGUMENT,
    RESULT_KTX_ERROR, RESULT_SHADER_COMPILATION_FAILED, RESULT_SHADER_FILE_NOT_FOUND,
    RESULT_STB_ERROR, RESULT_SUCCESS, RESULT_VULKAN_ERROR, RESULT_VULKAN_INITIALIZATION_FAILED,
};
use ibl_sampler::error::OutputError;
use ibl_sampler::sampler::sample_outcome;

#[test]
fn every_failure_code_has_its_own_error() {
    assert_eq!(
        OutputError::from_code(RESULT_VULKAN_INITIALIZATION_FAILED),
        OutputError::VulkanInitializationFailed
    );
    assert_eq!(OutputError::from_code(RESULT_VULKAN_ERROR), OutputError::VulkanError);
    assert_eq!(
        OutputError::from_code(RESULT_INPUT_PANORAMA_FILE_NOT_FOUND),
        OutputError::InputPanoramaFileNotFound
    );
    assert_eq!(OutputError::from_code(RESULT_SHADER_FILE_NOT_FOUND), OutputError::ShaderFileNotFound);
    assert_eq!(
        OutputError::from_code(RESULT_SHADER_COMPILATION_FAILED),
        OutputError::ShaderCompilationFailed
    );
    assert_eq!(OutputError::from_code(RESULT_FILE_NOT_FOUND), OutputError::FileNotFound);
    assert_eq!(OutputError::from_code(RESULT_INVALID_ARGUMENT), OutputError::InvalidArgument);
    assert_eq!(OutputError::from_code(RESULT_KTX_ERROR), OutputError::KtxError);
    assert_eq!(OutputError::from_code(RESULT_STB_ERROR), OutputError::StbError);
}

#[test]
fn failure_codes_map_to_distinct_errors() {
    let codes = [
        RESULT_VULKAN_INITIALIZATION_FAILED,
        RESULT_VULKAN_ERROR,
        RESULT_INPUT_PANORAMA_FILE_NOT_FOUND,
        RESULT_SHADER_FILE_NOT_FOUND,
        RESULT_SHADER_COMPILATION_FAILED,
        RESULT_FILE_NOT_FOUND,
        RESULT_INVALID_ARGUMENT,
        RESULT_KTX_ERROR,
        RESULT_STB_ERROR,
    ];
    for a in 0..codes.len() {
        for b in 0..codes.len() {
            if a != b {
                assert_ne!(codes[a], codes[b]);
                assert_ne!(OutputError::from_code(codes[a]), OutputError::from_code(codes[b]));
            }
        }
    }
}

#[test]
fn unknown_codes_are_invalid_arguments() {
    for code in [10, 11, 100, -1, -7, i32::MAX, i32::MIN] {
        assert_eq!(OutputError::from_code(code), OutputError::InvalidArgument);
    }
    assert_eq!(OutputError::from_code(RESULT_SUCCESS), OutputError::InvalidArgument);
}

#[test]
fn success_code_is_the_only_success() {
    assert_eq!(sample_outcome(RESULT_SUCCESS), Ok(()));
    assert_eq!(sample_outcome(0), Ok(()));
    assert_eq!(sample_outcome(RESULT_KTX_ERROR), Err(OutputError::KtxError));
    assert_eq!(sample_outcome(RESULT_SHADER_FILE_NOT_FOUND), Err(OutputError::ShaderFileNotFound));
    assert_eq!(sample_outcome(-3), Err(OutputError::InvalidArgument));
    assert_eq!(sample_outcome(12345), Err(OutputError::InvalidArgument));
}

#[test]
fn default_error_is_the_cubemap_path_error() {
    assert_eq!(OutputError::default(), OutputError::OutputCubemapPathNotValidUTF8);
}

#[test]
fn error_clone_keeps_the_reason() {
    let error = OutputError::FailedToLoadInput("no such file".to_string());
    assert_eq!(error.clone(), error);
    assert_eq!(OutputError::StbError.clone(), OutputError::StbError);
    assert_ne!(error, OutputError::FailedToLoadInput("other".to_string()));
}

#[test]
fn conversion_from_a_code_is_the_same_mapping() {
    for code in -3..15 {
        assert_eq!(OutputError::from(code), OutputError::from_code(code));
    }
    assert_eq!(OutputError::from(RESULT_SHADER_FILE_NOT_FOUND), OutputError::ShaderFileNotFound);
    let error: OutputError = RESULT_STB_ERROR.into();
    assert_eq!(error, OutputError::StbError);
}
