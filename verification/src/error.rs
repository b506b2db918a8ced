//! The structured errors of a run, and the error behind each result
//! code of the sampling engine.

use vstd::prelude::*;
use crate::engine::{
    RESULT_FILE_NOT_FOUND, RESULT_INPUT_PANORAMA_FILE_NOT_FOUND, RESULT_INVALID_ARGUMENT,
    RESULT_KTX_ERROR, RESULT_SHADER_COMPILATION_FAILED, RESULT_SHADER_FILE_NOT_FOUND,
    RESULT_STB_ERROR, RESULT_VULKAN_ERROR, RESULT_VULKAN_INITIALIZATION_FAILED,
};

verus! {

/// Why a run failed.
#[derive(Debug, PartialEq, Eq)]
pub enum OutputError {
    VulkanInitializationFailed,
    VulkanError,
    InputPanoramaFileNotFound,
    ShaderFileNotFound,
    ShaderCompilationFailed,
    FileNotFound,
    InvalidArgument,
    KtxError,
    StbError,
    /// The cubemap path cannot be handed to the engine.
    OutputCubemapPathNotValidUTF8,
    /// The lookup-table path cannot be handed to the engine.
    OutputLutPathNotValidUTF8,
    /// The input image could not be loaded; the text says why.
    FailedToLoadInput(String),
    /// The input image could not be written out for the engine.
    FailedToReencodeInput,
}

/// Why the input image could not be written out for the engine. Each
/// of these ends a run as [`OutputError::FailedToReencodeInput`].
#[derive(Clone, Copy, Debug, PartialEq, Eq, Structural)]
pub enum ReencodeFailure {
    /// The image could not be brought within the size bound.
    Resize,
    /// The temporary file could not be created or kept.
    TempFile,
    /// The encoder failed, or one of its chunks could not be written.
    Encode,
    /// The path of the temporary file cannot be handed to the engine.
    PathEncoding,
}

/// Whether `code` is one of the engine's failure codes.
pub open spec fn is_failure_code(code: i32) -> bool {
    RESULT_VULKAN_INITIALIZATION_FAILED <= code <= RESULT_STB_ERROR
}

/// The error that the engine's result code `code` stands for.
pub open spec fn error_for_code(code: i32) -> OutputError {
    if code == RESULT_VULKAN_INITIALIZATION_FAILED {
        OutputError::VulkanInitializationFailed
    } else if code == RESULT_VULKAN_ERROR {
        OutputError::VulkanError
    } else if code == RESULT_INPUT_PANORAMA_FILE_NOT_FOUND {
        OutputError::InputPanoramaFileNotFound
    } else if code == RESULT_SHADER_FILE_NOT_FOUND {
        OutputError::ShaderFileNotFound
    } else if code == RESULT_SHADER_COMPILATION_FAILED {
        OutputError::ShaderCompilationFailed
    } else if code == RESULT_FILE_NOT_FOUND {
        OutputError::FileNotFound
    } else if code == RESULT_KTX_ERROR {
        OutputError::KtxError
    } else if code == RESULT_STB_ERROR {
        OutputError::StbError
    } else {
        OutputError::InvalidArgument
    }
}

/// The failure code that the engine reports an error by; nothing for
/// the errors that arise outside the engine.
pub open spec fn code_of(error: OutputError) -> Option<i32> {
    match error {
        OutputError::VulkanInitializationFailed => Some(RESULT_VULKAN_INITIALIZATION_FAILED),
        OutputError::VulkanError => Some(RESULT_VULKAN_ERROR),
        OutputError::InputPanoramaFileNotFound => Some(RESULT_INPUT_PANORAMA_FILE_NOT_FOUND),
        OutputError::ShaderFileNotFound => Some(RESULT_SHADER_FILE_NOT_FOUND),
        OutputError::ShaderCompilationFailed => Some(RESULT_SHADER_COMPILATION_FAILED),
        OutputError::FileNotFound => Some(RESULT_FILE_NOT_FOUND),
        OutputError::InvalidArgument => Some(RESULT_INVALID_ARGUMENT),
        OutputError::KtxError => Some(RESULT_KTX_ERROR),
        OutputError::StbError => Some(RESULT_STB_ERROR),
        _ => None,
    }
}

/// The mapping of result codes is total and keeps the failure codes
/// apart: each failure code stands for the one error that is reported
/// by it, two failure codes never stand for the same error, and every
/// other code stands for an invalid argument.
pub proof fn lemma_result_codes(code: i32, other: i32)
    ensures
        is_failure_code(code) ==> code_of(error_for_code(code)) == Some(code),
        is_failure_code(code) && is_failure_code(other) && code != other ==> error_for_code(code)
            != error_for_code(other),
        !is_failure_code(code) ==> error_for_code(code) == OutputError::InvalidArgument,
        code_of(error_for_code(code)).is_some(),
{
}

impl Clone for OutputError {
    fn clone(&self) -> (copy: Self)
        ensures
            copy == *self,
    {
        match self {
            OutputError::VulkanInitializationFailed => OutputError::VulkanInitializationFailed,
            OutputError::VulkanError => OutputError::VulkanError,
            OutputError::InputPanoramaFileNotFound => OutputError::InputPanoramaFileNotFound,
            OutputError::ShaderFileNotFound => OutputError::ShaderFileNotFound,
            OutputError::ShaderCompilationFailed => OutputError::ShaderCompilationFailed,
            OutputError::FileNotFound => OutputError::FileNotFound,
            OutputError::InvalidArgument => OutputError::InvalidArgument,
            OutputError::KtxError => OutputError::KtxError,
            OutputError::StbError => OutputError::StbError,
            OutputError::OutputCubemapPathNotValidUTF8 => OutputError::OutputCubemapPathNotValidUTF8,
            OutputError::OutputLutPathNotValidUTF8 => OutputError::OutputLutPathNotValidUTF8,
            OutputError::FailedToLoadInput(reason) => OutputError::FailedToLoadInput(reason.clone()),
            OutputError::FailedToReencodeInput => OutputError::FailedToReencodeInput,
        }
    }
}

impl From<i32> for OutputError {
    fn from(code: i32) -> (error: OutputError) {
        OutputError::from_code(code)
    }
}

impl vstd::std_specs::convert::FromSpecImpl<i32> for OutputError {
    open spec fn obeys_from_spec() -> bool {
        true
    }

    open spec fn from_spec(code: i32) -> OutputError {
        error_for_code(code)
    }
}

impl Default for OutputError {
    fn default() -> (error: Self)
        ensures
            error == OutputError::OutputCubemapPathNotValidUTF8,
    {
        OutputError::OutputCubemapPathNotValidUTF8
    }
}

impl OutputError {
    /// The error behind a result code of the sampling engine. Every code has an
    /// error; a code that the engine does not define is an invalid argument.
    pub fn from_code(code: i32) -> (error: OutputError)
        ensures
            error == error_for_code(code),
    {
        if code == RESULT_VULKAN_INITIALIZATION_FAILED {
            OutputError::VulkanInitializationFailed
        } else if code == RESULT_VULKAN_ERROR {
            OutputError::VulkanError
        } else if code == RESULT_INPUT_PANORAMA_FILE_NOT_FOUND {
            OutputError::InputPanoramaFileNotFound
        } else if code == RESULT_SHADER_FILE_NOT_FOUND {
            OutputError::ShaderFileNotFound
        } else if code == RESULT_SHADER_COMPILATION_FAILED {
            OutputError::ShaderCompilationFailed
        } else if code == RESULT_FILE_NOT_FOUND {
            OutputError::FileNotFound
        } else if code == RESULT_KTX_ERROR {
            OutputError::KtxError
        } else if code == RESULT_STB_ERROR {
            OutputError::StbError
        } else {
            OutputError::InvalidArgument
        }
    }
}

} // verus!
