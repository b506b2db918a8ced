//! The call protocol of the sampling engine: what one call is made of,
//! which outputs are refused before any call, and what a result code
//! means.

use vstd::prelude::*;
use crate::engine::RESULT_SUCCESS;
use crate::error::{error_for_code, OutputError};
use crate::model::{Distribution, Output, TargetFormat};
use crate::text::contains_char;

verus! {

/// Whether `text` can be handed to the engine as a terminated string:
/// it holds no NUL character.
pub open spec fn is_interop_text(text: Seq<char>) -> bool {
    !text.contains('\0')
}

/// Whether `text` can be handed to the engine as a terminated string.
pub fn check_interop_text(text: &str) -> (valid: bool)
    ensures
        valid == is_interop_text(text@),
{
    !contains_char(text, '\0')
}

/// The arguments of one call of the sampling engine. An unfiltered
/// cubemap has no distribution and no lookup table, and its sample
/// count is zero. A resolution or mip level count of zero leaves the
/// choice to the engine.
#[derive(Debug, PartialEq, Eq)]
pub struct SamplerCall {
    pub input_path: String,
    pub cubemap_path: String,
    pub lut_path: Option<String>,
    pub distribution: Option<Distribution>,
    pub cubemap_resolution: u32,
    pub mip_level_count: u32,
    pub sample_count: u32,
    pub target_format: TargetFormat,
    pub lod_bias_bits: u32,
    pub debug_output: bool,
}

impl SamplerCall {
    /// Whether every path of the call can be handed to the engine.
    pub open spec fn well_formed(&self) -> bool {
        &&& is_interop_text(self.input_path@)
        &&& is_interop_text(self.cubemap_path@)
        &&& match self.lut_path {
            Some(path) => is_interop_text(path@),
            None => true,
        }
    }
}

/// The number behind an optional setting: zero where it is left open.
pub open spec fn or_zero(setting: Option<u32>) -> u32 {
    match setting {
        Some(value) => value,
        None => 0,
    }
}

/// The call that produces `output` from the image at `input_path`, or
/// the error that refuses it before any call: an input path, a cubemap
/// path or, for a filtered output, a lookup-table path that cannot be
/// handed to the engine, in this order.
pub open spec fn call_for(output: Output, input_path: String) -> Result<SamplerCall, OutputError> {
    if !is_interop_text(input_path@) {
        Err(OutputError::FailedToReencodeInput)
    } else if !is_interop_text(output.out_cubemap.path@) {
        Err(OutputError::OutputCubemapPathNotValidUTF8)
    } else {
        match output.filter_settings {
            None => Ok(
                SamplerCall {
                    input_path,
                    cubemap_path: output.out_cubemap.path,
                    lut_path: None,
                    distribution: None,
                    cubemap_resolution: or_zero(output.cubemap_resolution),
                    mip_level_count: or_zero(output.mip_level_count),
                    sample_count: 0,
                    target_format: output.target_format,
                    lod_bias_bits: output.lod_bias_bits,
                    debug_output: true,
                },
            ),
            Some(settings) => if !is_interop_text(settings.out_lut.path@) {
                Err(OutputError::OutputLutPathNotValidUTF8)
            } else {
                Ok(
                    SamplerCall {
                        input_path,
                        cubemap_path: output.out_cubemap.path,
                        lut_path: Some(settings.out_lut.path),
                        distribution: Some(settings.distribution),
                        cubemap_resolution: or_zero(output.cubemap_resolution),
                        mip_level_count: or_zero(output.mip_level_count),
                        sample_count: settings.sample_count,
                        target_format: output.target_format,
                        lod_bias_bits: output.lod_bias_bits,
                        debug_output: true,
                    },
                )
            },
        }
    }
}

/// Every call that is put together can be handed to the engine.
pub proof fn lemma_call_is_well_formed(output: Output, input_path: String)
    ensures
        call_for(output, input_path) matches Ok(call) ==> call.well_formed(),
{
}

/// What a result code of the engine means for the output: success for
/// the success code, else the error that the code stands for.
pub open spec fn outcome_of(code: i32) -> Result<(), OutputError> {
    if code == RESULT_SUCCESS {
        Ok(())
    } else {
        Err(error_for_code(code))
    }
}

fn number_or_zero(setting: Option<u32>) -> (value: u32)
    ensures
        value == or_zero(setting),
{
    match setting {
        Some(value) => value,
        None => 0,
    }
}

impl SamplerCall {
    /// Puts together the call that produces `output` from the image at
    /// `input_path`, or refuses the output before any call is made.
    pub fn prepare(output: &Output, input_path: &String) -> (call: Result<SamplerCall, OutputError>)
        ensures
            call == call_for(*output, *input_path),
            call matches Ok(call) ==> call.well_formed(),
    {
        if !check_interop_text(input_path.as_str()) {
            return Err(OutputError::FailedToReencodeInput);
        }
        if !check_interop_text(output.out_cubemap.path.as_str()) {
            return Err(OutputError::OutputCubemapPathNotValidUTF8);
        }
        match &output.filter_settings {
            None => Ok(
                SamplerCall {
                    input_path: input_path.clone(),
                    cubemap_path: output.out_cubemap.path.clone(),
                    lut_path: None,
                    distribution: None,
                    cubemap_resolution: number_or_zero(output.cubemap_resolution),
                    mip_level_count: number_or_zero(output.mip_level_count),
                    sample_count: 0,
                    target_format: output.target_format,
                    lod_bias_bits: output.lod_bias_bits,
                    debug_output: true,
                },
            ),
            Some(settings) => {
                if !check_interop_text(settings.out_lut.path.as_str()) {
                    return Err(OutputError::OutputLutPathNotValidUTF8);
                }
                Ok(
                    SamplerCall {
                        input_path: input_path.clone(),
                        cubemap_path: output.out_cubemap.path.clone(),
                        lut_path: Some(settings.out_lut.path.clone()),
                        distribution: Some(settings.distribution),
                        cubemap_resolution: number_or_zero(output.cubemap_resolution),
                        mip_level_count: number_or_zero(output.mip_level_count),
                        sample_count: settings.sample_count,
                        target_format: output.target_format,
                        lod_bias_bits: output.lod_bias_bits,
                        debug_output: true,
                    },
                )
            },
        }
    }
}

/// What the result code of one call of the engine means for the output.
pub fn sample_outcome(code: i32) -> (outcome: Result<(), OutputError>)
    ensures
        outcome == outcome_of(code),
{
    if code == RESULT_SUCCESS {
        Ok(())
    } else {
        Err(OutputError::from(code))
    }
}

} // verus!
