//! The job model: one input image and the outputs wanted from it.

use vstd::prelude::*;

verus! {

/// How many outputs a fresh job asks for.
pub const DEFAULT_OUTPUT_COUNT: usize = 3;

/// The size bound of a fresh job.
pub const DEFAULT_MAX_IMAGE_SIZE: u32 = 4096;

/// The sample count of fresh filter settings.
pub const DEFAULT_SAMPLE_COUNT: u32 = 1024;

/// The filter kernel applied to a filtered cubemap.
#[derive(Clone, Copy, Debug, PartialEq, Eq, Structural)]
pub enum Distribution {
    /// Diffuse irradiance.
    Lambertian,
    /// Specular reflection.
    Ggx,
    /// Sheen.
    Charlie,
}

/// The pixel format of a cubemap.
#[derive(Clone, Copy, Debug, PartialEq, Eq, Structural)]
pub enum TargetFormat {
    R8G8B8A8Unorm,
    R9G9B9E5Ufloat,
    R16G16B16A16Sfloat,
    R32G32B32A32Sfloat,
}

/// Where an artifact is written, and whether that place was derived
/// from the input path or chosen by the caller.
#[derive(Debug, PartialEq, Eq)]
pub struct OutputPath {
    pub path: String,
    pub automatic_filename: bool,
}

/// What a filtered output needs beyond the cubemap itself.
#[derive(Debug, PartialEq, Eq)]
pub struct FilterSettings {
    pub distribution: Distribution,
    pub out_lut: OutputPath,
    pub sample_count: u32,
}

/// One requested cubemap. Without filter settings it is unfiltered.
/// `lod_bias_bits` holds the bias as the bit pattern of a 32-bit float.
#[derive(Debug, PartialEq, Eq)]
pub struct Output {
    pub out_cubemap: OutputPath,
    pub mip_level_count: Option<u32>,
    pub cubemap_resolution: Option<u32>,
    pub target_format: TargetFormat,
    pub lod_bias_bits: u32,
    pub filter_settings: Option<FilterSettings>,
}

/// One input image and the outputs wanted from it.
#[derive(Debug, PartialEq, Eq)]
pub struct Job {
    pub input_path: String,
    pub max_image_size: u32,
    pub outputs: Vec<Output>,
}

/// The mathematical value of an [`OutputPath`].
pub struct OutputPathView {
    pub path: Seq<char>,
    pub automatic_filename: bool,
}

/// The mathematical value of a [`FilterSettings`].
pub struct FilterSettingsView {
    pub distribution: Distribution,
    pub out_lut: OutputPathView,
    pub sample_count: u32,
}

/// The mathematical value of an [`Output`].
pub struct OutputView {
    pub out_cubemap: OutputPathView,
    pub mip_level_count: Option<u32>,
    pub cubemap_resolution: Option<u32>,
    pub target_format: TargetFormat,
    pub lod_bias_bits: u32,
    pub filter_settings: Option<FilterSettingsView>,
}

/// The mathematical value of a [`Job`].
pub struct JobView {
    pub input_path: Seq<char>,
    pub max_image_size: u32,
    pub outputs: Seq<OutputView>,
}

impl View for OutputPath {
    type V = OutputPathView;

    open spec fn view(&self) -> OutputPathView {
        OutputPathView { path: self.path@, automatic_filename: self.automatic_filename }
    }
}

impl View for FilterSettings {
    type V = FilterSettingsView;

    open spec fn view(&self) -> FilterSettingsView {
        FilterSettingsView {
            distribution: self.distribution,
            out_lut: self.out_lut@,
            sample_count: self.sample_count,
        }
    }
}

impl View for Output {
    type V = OutputView;

    open spec fn view(&self) -> OutputView {
        OutputView {
            out_cubemap: self.out_cubemap@,
            mip_level_count: self.mip_level_count,
            cubemap_resolution: self.cubemap_resolution,
            target_format: self.target_format,
            lod_bias_bits: self.lod_bias_bits,
            filter_settings: match self.filter_settings {
                Some(settings) => Some(settings@),
                None => None,
            },
        }
    }
}

/// The values of a sequence of outputs, one for one.
pub open spec fn output_views(outputs: Seq<Output>) -> Seq<OutputView> {
    Seq::new(outputs.len(), |i: int| outputs[i]@)
}

impl View for Job {
    type V = JobView;

    open spec fn view(&self) -> JobView {
        JobView {
            input_path: self.input_path@,
            max_image_size: self.max_image_size,
            outputs: output_views(self.outputs@),
        }
    }
}

/// An automatic path that has not been derived yet.
pub open spec fn fresh_output_path() -> OutputPathView {
    OutputPathView { path: Seq::empty(), automatic_filename: true }
}

/// The distribution that the output at `index` starts with.
pub open spec fn default_distribution(index: usize) -> Distribution {
    if index == 2 {
        Distribution::Ggx
    } else if index == 3 {
        Distribution::Charlie
    } else {
        Distribution::Lambertian
    }
}

/// The filter settings that the output at `index` starts with.
pub open spec fn default_filter_settings(index: usize) -> FilterSettingsView {
    FilterSettingsView {
        distribution: default_distribution(index),
        out_lut: fresh_output_path(),
        sample_count: DEFAULT_SAMPLE_COUNT,
    }
}

/// The output that a job starts with at `index`: the first is unfiltered,
/// the others are filtered.
pub open spec fn default_output(index: usize) -> OutputView {
    OutputView {
        out_cubemap: fresh_output_path(),
        mip_level_count: None,
        cubemap_resolution: None,
        target_format: TargetFormat::R16G16B16A16Sfloat,
        lod_bias_bits: 0,
        filter_settings: if index == 0 {
            None
        } else {
            Some(default_filter_settings(index))
        },
    }
}

/// The job that the application starts with.
pub open spec fn default_job() -> JobView {
    JobView {
        input_path: Seq::empty(),
        max_image_size: DEFAULT_MAX_IMAGE_SIZE,
        outputs: Seq::new(DEFAULT_OUTPUT_COUNT as nat, |i: int| default_output(i as usize)),
    }
}

impl Default for Distribution {
    fn default() -> (distribution: Self)
        ensures
            distribution == Distribution::Lambertian,
    {
        Distribution::Lambertian
    }
}

impl Default for TargetFormat {
    fn default() -> (format: Self)
        ensures
            format == TargetFormat::R16G16B16A16Sfloat,
    {
        TargetFormat::R16G16B16A16Sfloat
    }
}

impl OutputPath {
    /// An automatic path that has not been derived yet.
    pub fn new() -> (path: OutputPath)
        ensures
            path@ == fresh_output_path(),
    {
        OutputPath { path: String::new(), automatic_filename: true }
    }
}

impl FilterSettings {
    /// The filter settings that the output at `index` starts with.
    pub fn default_for_index(index: usize) -> (settings: FilterSettings)
        ensures
            settings@ == default_filter_settings(index),
    {
        let distribution = if index == 2 {
            Distribution::Ggx
        } else if index == 3 {
            Distribution::Charlie
        } else {
            Distribution::Lambertian
        };
        FilterSettings {
            distribution,
            out_lut: OutputPath::new(),
            sample_count: DEFAULT_SAMPLE_COUNT,
        }
    }
}

impl Output {
    /// The output that a job starts with at `index`.
    pub fn default_for_index(index: usize) -> (output: Output)
        ensures
            output@ == default_output(index),
    {
        Output {
            out_cubemap: OutputPath::new(),
            mip_level_count: None,
            cubemap_resolution: None,
            target_format: TargetFormat::R16G16B16A16Sfloat,
            lod_bias_bits: 0,
            filter_settings: if index == 0 {
                None
            } else {
                Some(FilterSettings::default_for_index(index))
            },
        }
    }

    /// The distribution of this output, if it is filtered.
    pub fn distribution(&self) -> (distribution: Option<Distribution>)
        ensures
            distribution == output_distribution(self@),
    {
        match &self.filter_settings {
            Some(settings) => Some(settings.distribution),
            None => None,
        }
    }
}

/// The distribution of an output, if it is filtered.
pub open spec fn output_distribution(output: OutputView) -> Option<Distribution> {
    match output.filter_settings {
        Some(settings) => Some(settings.distribution),
        None => None,
    }
}

impl Default for Job {
    fn default() -> (job: Self)
        ensures
            job@ == default_job(),
    {
        let mut outputs: Vec<Output> = Vec::new();
        let mut index: usize = 0;
        while index < DEFAULT_OUTPUT_COUNT
            invariant
                index <= DEFAULT_OUTPUT_COUNT,
                outputs@.len() == index,
                forall|i: int| 0 <= i < index ==> (#[trigger] outputs@[i])@ == default_output(i as usize),
            decreases DEFAULT_OUTPUT_COUNT - index,
        {
            outputs.push(Output::default_for_index(index));
            index = index + 1;
        }
        let job = Job { input_path: String::new(), max_image_size: DEFAULT_MAX_IMAGE_SIZE, outputs };
        assert(job@.outputs =~= default_job().outputs);
        job
    }
}

impl Clone for OutputPath {
    fn clone(&self) -> (copy: Self)
        ensures
            copy == *self,
    {
        OutputPath { path: self.path.clone(), automatic_filename: self.automatic_filename }
    }
}

impl Clone for FilterSettings {
    fn clone(&self) -> (copy: Self)
        ensures
            copy == *self,
    {
        FilterSettings {
            distribution: self.distribution,
            out_lut: self.out_lut.clone(),
            sample_count: self.sample_count,
        }
    }
}

impl Clone for Output {
    fn clone(&self) -> (copy: Self)
        ensures
            copy == *self,
    {
        Output {
            out_cubemap: self.out_cubemap.clone(),
            mip_level_count: self.mip_level_count,
            cubemap_resolution: self.cubemap_resolution,
            target_format: self.target_format,
            lod_bias_bits: self.lod_bias_bits,
            filter_settings: match &self.filter_settings {
                Some(settings) => Some(settings.clone()),
                None => None,
            },
        }
    }
}

impl Clone for Job {
    fn clone(&self) -> (copy: Self)
        ensures
            copy.input_path == self.input_path,
            copy.max_image_size == self.max_image_size,
            copy.outputs@ == self.outputs@,
            copy@ == self@,
    {
        let mut outputs: Vec<Output> = Vec::new();
        let mut index: usize = 0;
        while index < self.outputs.len()
            invariant
                index <= self.outputs.len(),
                outputs@ == self.outputs@.subrange(0, index as int),
            decreases self.outputs.len() - index,
        {
            outputs.push(self.outputs[index].clone());
            assert(outputs@ =~= self.outputs@.subrange(0, index as int + 1));
            index = index + 1;
        }
        assert(outputs@ =~= self.outputs@);
        Job { input_path: self.input_path.clone(), max_image_size: self.max_image_size, outputs }
    }
}

impl Output {
    /// Makes the output unfiltered, or filtered with `distribution` and
    /// the other settings that the output at `index` starts with.
    pub fn set_distribution(&mut self, distribution: Option<Distribution>, index: usize)
        ensures
            final(self)@ == (OutputView {
                filter_settings: match distribution {
                    Some(distribution) => Some(
                        FilterSettingsView { distribution, ..default_filter_settings(index) },
                    ),
                    None => None,
                },
                ..old(self)@
            }),
    {
        self.filter_settings = match distribution {
            Some(distribution) => {
                let mut settings = FilterSettings::default_for_index(index);
                settings.distribution = distribution;
                Some(settings)
            },
            None => None,
        };
    }
}

impl Job {
    /// Appends the output that a job starts with at the next index.
    pub fn add_output(&mut self)
        ensures
            final(self)@ == (JobView {
                outputs: old(self)@.outputs.push(default_output(old(self).outputs.len())),
                ..old(self)@
            }),
    {
        let index: usize = self.outputs.len();
        self.outputs.push(Output::default_for_index(index));
        assert(self@.outputs =~= old(self)@.outputs.push(default_output(index)));
    }

    /// Removes the output at `index`. The first output stays: a job
    /// that has an output keeps one.
    pub fn remove_output(&mut self, index: usize) -> (removed: bool)
        ensures
            removed == (0 < index < old(self).outputs.len()),
            removed ==> final(self)@ == (JobView {
                outputs: old(self)@.outputs.remove(index as int),
                ..old(self)@
            }),
            !removed ==> *final(self) == *old(self),
    {
        if 0 < index && index < self.outputs.len() {
            self.outputs.remove(index);
            assert(self@.outputs =~= old(self)@.outputs.remove(index as int));
            true
        } else {
            false
        }
    }
}

} // verus!
