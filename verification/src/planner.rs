//! The output path planner: derives the automatic paths of a job from
//! its input path and the role of each output, and leaves alone every
//! path that the caller chose.

use vstd::prelude::*;
use crate::model::{
    output_distribution, output_views, Distribution, FilterSettingsView, Job, JobView, Output,
    OutputPathView, OutputView,
};
use crate::paths::{
    candidate_path, create_output_path, file_stem, file_stem_of, first_free, fresh_path,
    lemma_candidates_differ, lemma_first_free, numbering, parent, parent_of, text_of, text_views,
    Target, UsedPaths,
};

verus! {

/// The suffix that names the role of an output.
pub open spec fn role_suffix(distribution: Option<Distribution>) -> Seq<char> {
    match distribution {
        None => "cubemap"@,
        Some(Distribution::Lambertian) => "diffuse"@,
        Some(Distribution::Ggx) => "specular"@,
        Some(Distribution::Charlie) => "charlie"@,
    }
}

/// The suffix that names the lookup table of an output.
pub open spec fn lut_suffix(distribution: Option<Distribution>) -> Seq<char> {
    role_suffix(distribution) + "_lut"@
}

/// The paths of `output` that the caller chose, the cubemap's first.
pub open spec fn manual_paths_of(output: OutputView) -> Seq<Seq<char>> {
    let cubemap = if output.out_cubemap.automatic_filename {
        Seq::empty()
    } else {
        seq![output.out_cubemap.path]
    };
    match output.filter_settings {
        Some(settings) => if settings.out_lut.automatic_filename {
            cubemap
        } else {
            cubemap.push(settings.out_lut.path)
        },
        None => cubemap,
    }
}

/// The paths of `outputs` that the caller chose, in order.
pub open spec fn manual_paths(outputs: Seq<OutputView>) -> Seq<Seq<char>>
    decreases outputs.len(),
{
    if outputs.len() == 0 {
        Seq::empty()
    } else {
        manual_paths(outputs.drop_last()) + manual_paths_of(outputs.last())
    }
}

/// The directory of the first of `paths` that lies in one.
pub open spec fn first_parent(paths: Seq<Seq<char>>) -> Option<Seq<char>>
    decreases paths.len(),
{
    if paths.len() == 0 {
        None
    } else {
        match parent(paths[0]) {
            Some(dir) => Some(dir),
            None => first_parent(paths.drop_first()),
        }
    }
}

/// The directory that the automatic paths of `job` go to: that of the
/// first path that the caller chose, else that of the input.
pub open spec fn output_dir(job: JobView) -> Option<Seq<char>> {
    match first_parent(manual_paths(job.outputs)) {
        Some(dir) => Some(dir),
        None => parent(job.input_path),
    }
}

/// An output with its automatic paths derived, and the paths in use
/// after it.
pub struct PlannedOutput {
    pub output: OutputView,
    pub used: Set<Seq<char>>,
}

/// The first outputs of a job with their automatic paths derived, and
/// the paths in use after them.
pub struct PlannedOutputs {
    pub outputs: Seq<OutputView>,
    pub used: Set<Seq<char>>,
}

/// The cubemap of an output as an artifact to be named.
pub open spec fn cubemap_target(output: OutputView, dir: Seq<char>, stem: Seq<char>) -> Target {
    Target { dir, stem, suffix: role_suffix(output_distribution(output)), is_lut: false }
}

/// The lookup table of an output as an artifact to be named.
pub open spec fn lut_target(output: OutputView, dir: Seq<char>, stem: Seq<char>) -> Target {
    Target { dir, stem, suffix: lut_suffix(output_distribution(output)), is_lut: true }
}

/// The paths in use once the cubemap of `output` has its path.
pub open spec fn used_after_cubemap(
    output: OutputView,
    used: Set<Seq<char>>,
    dir: Seq<char>,
    stem: Seq<char>,
) -> Set<Seq<char>> {
    if output.out_cubemap.automatic_filename {
        used.insert(fresh_path(used, cubemap_target(output, dir, stem)))
    } else {
        used
    }
}

/// Derives the automatic paths of one output: the cubemap's first, then
/// the lookup table's.
pub open spec fn plan_output(
    output: OutputView,
    used: Set<Seq<char>>,
    dir: Seq<char>,
    stem: Seq<char>,
) -> PlannedOutput {
    let out_cubemap = if output.out_cubemap.automatic_filename {
        OutputPathView {
            path: fresh_path(used, cubemap_target(output, dir, stem)),
            automatic_filename: true,
        }
    } else {
        output.out_cubemap
    };
    let middle = used_after_cubemap(output, used, dir, stem);
    match output.filter_settings {
        Some(settings) => if settings.out_lut.automatic_filename {
            let path = fresh_path(middle, lut_target(output, dir, stem));
            PlannedOutput {
                output: OutputView {
                    out_cubemap,
                    filter_settings: Some(
                        FilterSettingsView {
                            out_lut: OutputPathView { path, automatic_filename: true },
                            ..settings
                        },
                    ),
                    ..output
                },
                used: middle.insert(path),
            }
        } else {
            PlannedOutput { output: OutputView { out_cubemap, ..output }, used: middle }
        },
        None => PlannedOutput { output: OutputView { out_cubemap, ..output }, used: middle },
    }
}

/// Derives the automatic paths of the first `count` outputs in order,
/// starting from the paths in `seed`.
pub open spec fn plan_prefix(
    outputs: Seq<OutputView>,
    dir: Seq<char>,
    stem: Seq<char>,
    seed: Set<Seq<char>>,
    count: nat,
) -> PlannedOutputs
    decreases count,
{
    if count == 0 {
        PlannedOutputs { outputs: Seq::empty(), used: seed }
    } else {
        let before = plan_prefix(outputs, dir, stem, seed, (count - 1) as nat);
        let here = plan_output(outputs[count - 1], before.used, dir, stem);
        PlannedOutputs { outputs: before.outputs.push(here.output), used: here.used }
    }
}

/// The job with every automatic path derived anew. Every path that the
/// caller chose counts as in use from the start. Where neither such a
/// path nor the input lies in a directory, the job stays as it is.
pub open spec fn planned(job: JobView) -> JobView {
    match output_dir(job) {
        None => job,
        Some(dir) => JobView {
            outputs: plan_prefix(
                job.outputs,
                dir,
                file_stem(job.input_path),
                manual_paths(job.outputs).to_set(),
                job.outputs.len(),
            ).outputs,
            ..job
        },
    }
}

fn role_suffix_text(distribution: Option<Distribution>) -> (suffix: &'static str)
    ensures
        suffix@ == role_suffix(distribution),
{
    match distribution {
        None => "cubemap",
        Some(Distribution::Lambertian) => "diffuse",
        Some(Distribution::Ggx) => "specular",
        Some(Distribution::Charlie) => "charlie",
    }
}

fn collect_manual_paths(outputs: &Vec<Output>) -> (paths: Vec<String>)
    ensures
        text_views(paths@) == manual_paths(output_views(outputs@)),
{
    let mut paths: Vec<String> = Vec::new();
    let mut index: usize = 0;
    assert(output_views(outputs@).subrange(0, 0).len() == 0);
    assert(text_views(paths@) =~= manual_paths(output_views(outputs@).subrange(0, 0)));
    while index < outputs.len()
        invariant
            index <= outputs.len(),
            text_views(paths@) == manual_paths(output_views(outputs@).subrange(0, index as int)),
        decreases outputs.len() - index,
    {
        let ghost before = text_views(paths@);
        let ghost views = output_views(outputs@);
        let output = &outputs[index];
        if !output.out_cubemap.automatic_filename {
            paths.push(output.out_cubemap.path.clone());
        }
        match &output.filter_settings {
            Some(settings) => {
                if !settings.out_lut.automatic_filename {
                    paths.push(settings.out_lut.path.clone());
                }
            },
            None => {},
        }
        proof {
            let longer = views.subrange(0, index as int + 1);
            assert(longer.drop_last() =~= views.subrange(0, index as int));
            assert(longer.last() == outputs@[index as int]@);
            assert(text_views(paths@) =~= before + manual_paths_of(outputs@[index as int]@));
        }
        index = index + 1;
    }
    assert(output_views(outputs@).subrange(0, index as int) =~= output_views(outputs@));
    paths
}

fn seed_of(paths: &Vec<String>) -> (used: UsedPaths)
    ensures
        used@ == text_views(paths@).to_set(),
        used@.finite(),
{
    let ghost texts = text_views(paths@);
    let mut used = UsedPaths::new();
    let mut index: usize = 0;
    assert(texts.subrange(0, 0).to_set() =~= Set::<Seq<char>>::empty());
    while index < paths.len()
        invariant
            index <= paths.len(),
            texts == text_views(paths@),
            used@ == texts.subrange(0, index as int).to_set(),
            used@.finite(),
        decreases paths.len() - index,
    {
        proof {
            let shorter = texts.subrange(0, index as int);
            let longer = texts.subrange(0, index as int + 1);
            assert(longer =~= shorter.push(texts[index as int]));
            assert forall|text: Seq<char>| longer.to_set().contains(text) implies shorter.to_set().insert(
                texts[index as int],
            ).contains(text) by {
                let place = choose|i: int| 0 <= i < longer.len() && longer[i] == text;
                if place < shorter.len() {
                    assert(shorter[place] == text);
                }
            }
            assert forall|text: Seq<char>|
                shorter.to_set().insert(texts[index as int]).contains(
                    text,
                ) implies longer.to_set().contains(text) by {
                if text == texts[index as int] {
                    assert(longer[index as int] == text);
                } else {
                    let place = choose|i: int| 0 <= i < shorter.len() && shorter[i] == text;
                    assert(longer[place] == text);
                }
            }
            assert(longer.to_set() =~= shorter.to_set().insert(texts[index as int]));
        }
        used.insert(paths[index].clone());
        index = index + 1;
    }
    assert(texts.subrange(0, index as int) =~= texts);
    used
}

fn first_parent_of(paths: &Vec<String>) -> (dir: Option<String>)
    ensures
        text_of(dir) == first_parent(text_views(paths@)),
{
    let ghost texts = text_views(paths@);
    let mut index: usize = 0;
    assert(texts.subrange(0, texts.len() as int) =~= texts);
    while index < paths.len()
        invariant
            index <= paths.len(),
            texts == text_views(paths@),
            first_parent(texts) == first_parent(texts.subrange(index as int, texts.len() as int)),
        decreases paths.len() - index,
    {
        let ghost rest = texts.subrange(index as int, texts.len() as int);
        proof {
            assert(rest[0] == paths@[index as int]@);
            assert(rest.drop_first() =~= texts.subrange(index as int + 1, texts.len() as int));
        }
        let dir = parent_of(paths[index].as_str());
        if dir.is_some() {
            return dir;
        }
        index = index + 1;
    }
    None
}

impl Job {
    /// Derives every automatic path of the job anew from the input path
    /// and the role of each output. Paths that the caller chose stay as
    /// they are and count as in use from the start. Every derived path
    /// differs from every other path of the job.
    pub fn update_output_paths(&mut self)
        ensures
            final(self)@ == planned(old(self)@),
            output_dir(old(self)@).is_some() ==> derived_paths_distinct(final(self)@.outputs),
    {
        let manual = collect_manual_paths(&self.outputs);
        let mut used = seed_of(&manual);
        let ghost seed = used@;
        let ghost start = self@;
        let dir = match first_parent_of(&manual) {
            Some(dir) => dir,
            None => match parent_of(self.input_path.as_str()) {
                Some(dir) => dir,
                None => {
                    return ;
                },
            },
        };
        let stem = file_stem_of(self.input_path.as_str());
        let count: usize = self.outputs.len();
        let mut index: usize = 0;
        while index < count
            invariant
                index <= count,
                count == self.outputs@.len(),
                start.outputs.len() == count,
                self.input_path@ == start.input_path,
                self.max_image_size == start.max_image_size,
                forall|i: int| index <= i < count ==> (#[trigger] self.outputs@[i])@ == start.outputs[i],
                forall|i: int|
                    0 <= i < index ==> (#[trigger] self.outputs@[i])@ == plan_prefix(
                        start.outputs,
                        dir@,
                        stem@,
                        seed,
                        index as nat,
                    ).outputs[i],
                plan_prefix(start.outputs, dir@, stem@, seed, index as nat).outputs.len() == index,
                used@ == plan_prefix(start.outputs, dir@, stem@, seed, index as nat).used,
                used@.finite(),
            decreases count - index,
        {
            let ghost before = plan_prefix(start.outputs, dir@, stem@, seed, index as nat);
            let ghost output = start.outputs[index as int];
            let role = self.outputs[index].distribution();
            let suffix = role_suffix_text(role);
            if self.outputs[index].out_cubemap.automatic_filename {
                let path = create_output_path(dir.as_str(), stem.as_str(), suffix, &mut used, false);
                match path {
                    Some(path) => {
                        self.outputs[index].out_cubemap.path = path;
                    },
                    None => {},
                }
            }
            assert(used@ == used_after_cubemap(output, before.used, dir@, stem@));
            let automatic_lut = match &self.outputs[index].filter_settings {
                Some(settings) => settings.out_lut.automatic_filename,
                None => false,
            };
            if automatic_lut {
                let lut_role = crate::text::concat_text(suffix, "_lut");
                let path = create_output_path(dir.as_str(), stem.as_str(), lut_role.as_str(), &mut used, true);
                match path {
                    Some(path) => {
                        match &mut self.outputs[index].filter_settings {
                            Some(settings) => {
                                settings.out_lut.path = path;
                            },
                            None => {},
                        }
                    },
                    None => {},
                }
            }
            proof {
                let after = plan_prefix(start.outputs, dir@, stem@, seed, (index + 1) as nat);
                let here = plan_output(output, before.used, dir@, stem@);
                assert(after.outputs == before.outputs.push(here.output));
                assert(self.outputs@[index as int]@ == here.output);
                assert(used@ == here.used);
            }
            index = index + 1;
        }
        proof {
            let done = plan_prefix(start.outputs, dir@, stem@, seed, count as nat);
            assert(self@.outputs =~= done.outputs);
            lemma_planned_paths_distinct(start);
        }
    }
}

/// A path without its text where it is automatic: what the planner
/// reads of it.
pub open spec fn blank_if_automatic(path: OutputPathView) -> OutputPathView {
    if path.automatic_filename {
        OutputPathView { path: Seq::empty(), automatic_filename: true }
    } else {
        path
    }
}

/// What the planner reads of an output: all of it but the text of its
/// automatic paths.
pub open spec fn planning_input(output: OutputView) -> OutputView {
    OutputView {
        out_cubemap: blank_if_automatic(output.out_cubemap),
        filter_settings: match output.filter_settings {
            Some(settings) => Some(
                FilterSettingsView { out_lut: blank_if_automatic(settings.out_lut), ..settings },
            ),
            None => None,
        },
        ..output
    }
}

/// Whether `output` has the artifact of the given kind.
pub open spec fn has_slot(output: OutputView, is_lut: bool) -> bool {
    is_lut ==> output.filter_settings.is_some()
}

/// The path of the artifact of the given kind.
pub open spec fn slot(output: OutputView, is_lut: bool) -> OutputPathView {
    if is_lut {
        output.filter_settings.unwrap().out_lut
    } else {
        output.out_cubemap
    }
}

/// Whether every automatic path differs from every other path of the
/// outputs, automatic or chosen.
pub open spec fn derived_paths_distinct(outputs: Seq<OutputView>) -> bool {
    forall|i: int, a: bool, j: int, b: bool|
        0 <= i < outputs.len() && 0 <= j < outputs.len() && (i != j || a != b) && has_slot(
            outputs[i],
            a,
        ) && has_slot(outputs[j], b) && (#[trigger] slot(outputs[i], a)).automatic_filename
            ==> slot(outputs[i], a).path != (#[trigger] slot(outputs[j], b)).path
}

/// Planning an output gives the same result for two outputs that differ
/// only in the text of their automatic paths, and the result differs
/// from the output only there.
proof fn lemma_plan_output_reads_input(
    first: OutputView,
    second: OutputView,
    used: Set<Seq<char>>,
    dir: Seq<char>,
    stem: Seq<char>,
)
    requires
        planning_input(first) == planning_input(second),
    ensures
        plan_output(first, used, dir, stem) == plan_output(second, used, dir, stem),
        planning_input(plan_output(first, used, dir, stem).output) == planning_input(first),
        manual_paths_of(first) == manual_paths_of(second),
{
    let one = planning_input(first);
    let other = planning_input(second);
    assert(one.out_cubemap == other.out_cubemap);
    assert(one.filter_settings == other.filter_settings);
    assert(one.mip_level_count == other.mip_level_count);
    assert(one.cubemap_resolution == other.cubemap_resolution);
    assert(one.target_format == other.target_format);
    assert(one.lod_bias_bits == other.lod_bias_bits);
}

/// Planning keeps the number of outputs and changes of each output only
/// the text of its automatic paths; the paths in the seed stay in use.
proof fn lemma_plan_prefix_keeps(
    outputs: Seq<OutputView>,
    dir: Seq<char>,
    stem: Seq<char>,
    seed: Set<Seq<char>>,
    count: nat,
)
    requires
        count <= outputs.len(),
    ensures
        plan_prefix(outputs, dir, stem, seed, count).outputs.len() == count,
        forall|i: int|
            0 <= i < count ==> planning_input(
                #[trigger] plan_prefix(outputs, dir, stem, seed, count).outputs[i],
            ) == planning_input(outputs[i]),
        forall|path: Seq<char>|
            seed.contains(path) ==> plan_prefix(outputs, dir, stem, seed, count).used.contains(path),
        seed.finite() ==> plan_prefix(outputs, dir, stem, seed, count).used.finite(),
    decreases count,
{
    if count > 0 {
        let before = plan_prefix(outputs, dir, stem, seed, (count - 1) as nat);
        lemma_plan_prefix_keeps(outputs, dir, stem, seed, (count - 1) as nat);
        let output = outputs[count - 1];
        let here = plan_output(output, before.used, dir, stem);
        lemma_plan_output_reads_input(output, output, before.used, dir, stem);
        lemma_plan_output_grows(output, before.used, dir, stem);
        let after = plan_prefix(outputs, dir, stem, seed, count);
        assert(after.outputs == before.outputs.push(here.output));
        assert forall|i: int| 0 <= i < count implies planning_input(#[trigger] after.outputs[i])
            == planning_input(outputs[i]) by {
            if i < count - 1 {
                assert(after.outputs[i] == before.outputs[i]);
            }
        }
    }
}

/// Planning an output keeps every path that is in use, and finitely
/// many paths in use stay finitely many.
proof fn lemma_plan_output_grows(
    output: OutputView,
    used: Set<Seq<char>>,
    dir: Seq<char>,
    stem: Seq<char>,
)
    ensures
        forall|path: Seq<char>|
            used.contains(path) ==> plan_output(output, used, dir, stem).used.contains(path),
        used.finite() ==> plan_output(output, used, dir, stem).used.finite(),
        used.finite() ==> used_after_cubemap(output, used, dir, stem).finite(),
{
}

/// Two sequences of outputs that differ only in the text of their
/// automatic paths are planned alike.
proof fn lemma_plan_prefix_reads_input(
    first: Seq<OutputView>,
    second: Seq<OutputView>,
    dir: Seq<char>,
    stem: Seq<char>,
    seed: Set<Seq<char>>,
    count: nat,
)
    requires
        first.len() == second.len(),
        count <= first.len(),
        forall|i: int| 0 <= i < first.len() ==> planning_input(first[i]) == planning_input(second[i]),
    ensures
        plan_prefix(first, dir, stem, seed, count) == plan_prefix(second, dir, stem, seed, count),
    decreases count,
{
    if count > 0 {
        lemma_plan_prefix_reads_input(first, second, dir, stem, seed, (count - 1) as nat);
        let before = plan_prefix(first, dir, stem, seed, (count - 1) as nat);
        lemma_plan_output_reads_input(first[count - 1], second[count - 1], before.used, dir, stem);
    }
}

/// Two sequences of outputs that differ only in the text of their
/// automatic paths hold the same chosen paths.
proof fn lemma_manual_paths_read_input(first: Seq<OutputView>, second: Seq<OutputView>)
    requires
        first.len() == second.len(),
        forall|i: int| 0 <= i < first.len() ==> planning_input(first[i]) == planning_input(second[i]),
    ensures
        manual_paths(first) == manual_paths(second),
    decreases first.len(),
{
    if first.len() > 0 {
        lemma_manual_paths_read_input(first.drop_last(), second.drop_last());
        lemma_plan_output_reads_input(first.last(), second.last(), Set::empty(), Seq::empty(), Seq::empty());
    }
}

/// The planner is idempotent: planning a planned job changes nothing.
pub proof fn lemma_planning_idempotent(job: JobView)
    ensures
        planned(planned(job)) == planned(job),
{
    match output_dir(job) {
        None => {},
        Some(dir) => {
            let stem = file_stem(job.input_path);
            let seed = manual_paths(job.outputs).to_set();
            let count = job.outputs.len();
            let once = planned(job);
            lemma_plan_prefix_keeps(job.outputs, dir, stem, seed, count);
            lemma_manual_paths_read_input(once.outputs, job.outputs);
            assert(output_dir(once) == Some(dir));
            lemma_plan_prefix_reads_input(once.outputs, job.outputs, dir, stem, seed, count);
        },
    }
}

/// Every path that the caller chose is among the chosen paths.
proof fn lemma_manual_paths_hold(outputs: Seq<OutputView>, index: int, is_lut: bool)
    requires
        0 <= index < outputs.len(),
        has_slot(outputs[index], is_lut),
        !slot(outputs[index], is_lut).automatic_filename,
    ensures
        manual_paths(outputs).contains(slot(outputs[index], is_lut).path),
    decreases outputs.len(),
{
    let path = slot(outputs[index], is_lut).path;
    let earlier = manual_paths(outputs.drop_last());
    let last = manual_paths_of(outputs.last());
    if index < outputs.len() - 1 {
        lemma_manual_paths_hold(outputs.drop_last(), index, is_lut);
        let place = choose|i: int| 0 <= i < earlier.len() && earlier[i] == path;
        assert((earlier + last)[place] == path);
    } else {
        let place = if is_lut {
            last.len() - 1
        } else {
            0
        };
        assert(last[place] == path);
        assert((earlier + last)[earlier.len() + place] == path);
    }
}

/// Whether the automatic paths planned so far are in use, are none of
/// the seed, and differ from one another.
spec fn planned_apart(done: PlannedOutputs, seed: Set<Seq<char>>) -> bool {
    &&& forall|i: int, a: bool|
        0 <= i < done.outputs.len() && has_slot(done.outputs[i], a) && (#[trigger] slot(
            done.outputs[i],
            a,
        )).automatic_filename ==> done.used.contains(slot(done.outputs[i], a).path)
            && !seed.contains(slot(done.outputs[i], a).path)
    &&& forall|i: int, a: bool, j: int, b: bool|
        0 <= i < done.outputs.len() && 0 <= j < done.outputs.len() && (i != j || a != b)
            && has_slot(done.outputs[i], a) && has_slot(done.outputs[j], b) && (#[trigger] slot(
            done.outputs[i],
            a,
        )).automatic_filename && (#[trigger] slot(done.outputs[j], b)).automatic_filename
            ==> slot(done.outputs[i], a).path != slot(done.outputs[j], b).path
}

/// The automatic paths that planning derives are none of the seed and
/// differ from one another.
proof fn lemma_plan_prefix_apart(
    outputs: Seq<OutputView>,
    dir: Seq<char>,
    stem: Seq<char>,
    seed: Set<Seq<char>>,
    count: nat,
)
    requires
        count <= outputs.len(),
        seed.finite(),
    ensures
        planned_apart(plan_prefix(outputs, dir, stem, seed, count), seed),
    decreases count,
{
    if count > 0 {
        let before = plan_prefix(outputs, dir, stem, seed, (count - 1) as nat);
        let after = plan_prefix(outputs, dir, stem, seed, count);
        lemma_plan_prefix_apart(outputs, dir, stem, seed, (count - 1) as nat);
        lemma_plan_prefix_keeps(outputs, dir, stem, seed, (count - 1) as nat);
        lemma_plan_prefix_keeps(outputs, dir, stem, seed, count);
        let output = outputs[count - 1];
        let here = plan_output(output, before.used, dir, stem);
        let middle = used_after_cubemap(output, before.used, dir, stem);
        lemma_plan_output_grows(output, before.used, dir, stem);
        lemma_first_free(before.used, cubemap_target(output, dir, stem));
        lemma_first_free(middle, lut_target(output, dir, stem));
        assert(after.outputs == before.outputs.push(here.output));
        assert(after.used == here.used);
        let last = count - 1;
        assert forall|i: int| 0 <= i < last implies after.outputs[i] == before.outputs[i] by {}
        assert(after.outputs[last] == here.output);
        // What the new output adds is in use and is new.
        assert forall|a: bool|
            has_slot(here.output, a) && (#[trigger] slot(here.output, a)).automatic_filename implies {
            &&& here.used.contains(slot(here.output, a).path)
            &&& !before.used.contains(slot(here.output, a).path)
        } by {}
        assert forall|i: int, a: bool|
            0 <= i < after.outputs.len() && has_slot(after.outputs[i], a) && (#[trigger] slot(
                after.outputs[i],
                a,
            )).automatic_filename implies after.used.contains(slot(after.outputs[i], a).path)
            && !seed.contains(slot(after.outputs[i], a).path) by {
            if i < last {
                assert(slot(before.outputs[i], a).automatic_filename);
            }
        }
        assert forall|i: int, a: bool, j: int, b: bool|
            0 <= i < after.outputs.len() && 0 <= j < after.outputs.len() && (i != j || a != b)
                && has_slot(after.outputs[i], a) && has_slot(after.outputs[j], b) && (#[trigger] slot(
                after.outputs[i],
                a,
            )).automatic_filename && (#[trigger] slot(
                after.outputs[j],
                b,
            )).automatic_filename implies slot(after.outputs[i], a).path != slot(
            after.outputs[j],
            b,
        ).path by {
            if i < last && j < last {
                assert(slot(before.outputs[i], a).automatic_filename);
                assert(slot(before.outputs[j], b).automatic_filename);
            } else if i < last {
                assert(slot(before.outputs[i], a).automatic_filename);
                assert(slot(here.output, b).automatic_filename);
            } else if j < last {
                assert(slot(before.outputs[j], b).automatic_filename);
                assert(slot(here.output, a).automatic_filename);
            } else {
                assert(slot(here.output, a).automatic_filename);
                assert(slot(here.output, b).automatic_filename);
            }
        }
    }
}

/// Within one planning pass every derived path differs from every other
/// path of the job, derived or chosen.
pub proof fn lemma_planned_paths_distinct(job: JobView)
    requires
        output_dir(job).is_some(),
    ensures
        derived_paths_distinct(planned(job).outputs),
{
    let dir = output_dir(job).unwrap();
    let stem = file_stem(job.input_path);
    let seed = manual_paths(job.outputs).to_set();
    let count = job.outputs.len();
    let done = plan_prefix(job.outputs, dir, stem, seed, count);
    lemma_plan_prefix_apart(job.outputs, dir, stem, seed, count);
    lemma_plan_prefix_keeps(job.outputs, dir, stem, seed, count);
    lemma_manual_paths_read_input(done.outputs, job.outputs);
    assert forall|i: int, a: bool, j: int, b: bool|
        0 <= i < done.outputs.len() && 0 <= j < done.outputs.len() && (i != j || a != b)
            && has_slot(done.outputs[i], a) && has_slot(done.outputs[j], b) && (#[trigger] slot(
            done.outputs[i],
            a,
        )).automatic_filename implies slot(done.outputs[i], a).path != (#[trigger] slot(
        done.outputs[j],
        b,
    )).path by {
        if !slot(done.outputs[j], b).automatic_filename {
            lemma_manual_paths_hold(done.outputs, j, b);
        }
    }
}

/// An artifact of `output` as an artifact to be named.
pub open spec fn slot_target(output: OutputView, is_lut: bool, dir: Seq<char>, stem: Seq<char>) -> Target {
    if is_lut {
        lut_target(output, dir, stem)
    } else {
        cubemap_target(output, dir, stem)
    }
}

/// The paths in use when the planner names an artifact of the output
/// at `index`.
pub open spec fn used_before(job: JobView, index: int, is_lut: bool) -> Set<Seq<char>> {
    let dir = output_dir(job).unwrap();
    let stem = file_stem(job.input_path);
    let before = plan_prefix(
        job.outputs,
        dir,
        stem,
        manual_paths(job.outputs).to_set(),
        index as nat,
    ).used;
    if is_lut {
        used_after_cubemap(job.outputs[index], before, dir, stem)
    } else {
        before
    }
}

/// The attempt whose path the planner gives to an automatic artifact of
/// the output at `index`.
pub open spec fn slot_attempt(job: JobView, index: int, is_lut: bool) -> nat {
    first_free(
        used_before(job, index, is_lut),
        slot_target(job.outputs[index], is_lut, output_dir(job).unwrap(), file_stem(job.input_path)),
    )
}

/// The output at `index` is planned from the paths in use after the
/// outputs before it.
proof fn lemma_plan_prefix_at(
    outputs: Seq<OutputView>,
    dir: Seq<char>,
    stem: Seq<char>,
    seed: Set<Seq<char>>,
    count: nat,
    index: int,
)
    requires
        0 <= index < count <= outputs.len(),
    ensures
        plan_prefix(outputs, dir, stem, seed, count).outputs.len() == count,
        plan_prefix(outputs, dir, stem, seed, count).outputs[index] == plan_output(
            outputs[index],
            plan_prefix(outputs, dir, stem, seed, index as nat).used,
            dir,
            stem,
        ).output,
        forall|path: Seq<char>|
            plan_output(
                outputs[index],
                plan_prefix(outputs, dir, stem, seed, index as nat).used,
                dir,
                stem,
            ).used.contains(path) ==> plan_prefix(outputs, dir, stem, seed, count).used.contains(path),
    decreases count,
{
    lemma_plan_prefix_keeps(outputs, dir, stem, seed, count);
    lemma_plan_prefix_keeps(outputs, dir, stem, seed, (count - 1) as nat);
    let after = plan_prefix(outputs, dir, stem, seed, count);
    let before = plan_prefix(outputs, dir, stem, seed, (count - 1) as nat);
    let here = plan_output(outputs[index], plan_prefix(outputs, dir, stem, seed, index as nat).used, dir, stem);
    assert(after.used == plan_output(outputs[count - 1], before.used, dir, stem).used);
    if index < count - 1 {
        lemma_plan_prefix_at(outputs, dir, stem, seed, (count - 1) as nat, index);
        lemma_plan_output_grows(outputs[count - 1], before.used, dir, stem);
        assert(after.outputs[index] == before.outputs[index]);
        assert forall|path: Seq<char>| here.used.contains(path) implies after.used.contains(path) by {
            assert(before.used.contains(path));
        }
    }
}

/// The planner gives an automatic artifact the path of its attempt.
proof fn lemma_slot_path(job: JobView, index: int, is_lut: bool)
    requires
        output_dir(job).is_some(),
        0 <= index < job.outputs.len(),
        has_slot(job.outputs[index], is_lut),
        slot(job.outputs[index], is_lut).automatic_filename,
    ensures
        has_slot(planned(job).outputs[index], is_lut),
        slot(planned(job).outputs[index], is_lut).path == candidate_path(
            slot_target(
                job.outputs[index],
                is_lut,
                output_dir(job).unwrap(),
                file_stem(job.input_path),
            ),
            slot_attempt(job, index, is_lut),
        ),
{
    let dir = output_dir(job).unwrap();
    let stem = file_stem(job.input_path);
    lemma_plan_prefix_at(
        job.outputs,
        dir,
        stem,
        manual_paths(job.outputs).to_set(),
        job.outputs.len(),
        index,
    );
}

/// The collision law: of two automatic artifacts of one kind and one
/// role, the later gets a later attempt than the earlier. So it carries
/// a number, and the two paths differ.
pub proof fn lemma_colliding_outputs_numbered(job: JobView, first: int, second: int, is_lut: bool)
    requires
        output_dir(job).is_some(),
        0 <= first < second < job.outputs.len(),
        has_slot(job.outputs[first], is_lut),
        has_slot(job.outputs[second], is_lut),
        slot(job.outputs[first], is_lut).automatic_filename,
        slot(job.outputs[second], is_lut).automatic_filename,
        output_distribution(job.outputs[first]) == output_distribution(job.outputs[second]),
    ensures
        slot_attempt(job, first, is_lut) < slot_attempt(job, second, is_lut),
        numbering(slot_attempt(job, second, is_lut)).len() > 0,
        slot(planned(job).outputs[first], is_lut).path != slot(
            planned(job).outputs[second],
            is_lut,
        ).path,
{
    let dir = output_dir(job).unwrap();
    let stem = file_stem(job.input_path);
    let seed = manual_paths(job.outputs).to_set();
    let target = slot_target(job.outputs[first], is_lut, dir, stem);
    assert(target == slot_target(job.outputs[second], is_lut, dir, stem));
    let early = used_before(job, first, is_lut);
    let late = used_before(job, second, is_lut);
    let a = slot_attempt(job, first, is_lut);
    let b = slot_attempt(job, second, is_lut);
    lemma_plan_prefix_keeps(job.outputs, dir, stem, seed, first as nat);
    lemma_plan_prefix_keeps(job.outputs, dir, stem, seed, second as nat);
    lemma_plan_output_grows(
        job.outputs[first],
        plan_prefix(job.outputs, dir, stem, seed, first as nat).used,
        dir,
        stem,
    );
    lemma_plan_output_grows(
        job.outputs[second],
        plan_prefix(job.outputs, dir, stem, seed, second as nat).used,
        dir,
        stem,
    );
    lemma_first_free(early, target);
    lemma_first_free(late, target);
    lemma_slot_path(job, first, is_lut);
    lemma_slot_path(job, second, is_lut);
    // Whatever is in use after the earlier output is in use before the later.
    let first_before = plan_prefix(job.outputs, dir, stem, seed, first as nat).used;
    let first_done = plan_output(job.outputs[first], first_before, dir, stem);
    let second_before = plan_prefix(job.outputs, dir, stem, seed, second as nat).used;
    lemma_plan_prefix_at(job.outputs, dir, stem, seed, second as nat, first);
    let taken = candidate_path(target, a);
    assert(first_done.used.contains(taken));
    assert(second_before.contains(taken));
    assert(late.contains(taken));
    if b <= a {
        if b < a {
            assert(early.contains(candidate_path(target, b)));
            assert(first_done.used.contains(candidate_path(target, b)));
            assert(second_before.contains(candidate_path(target, b)));
        }
        assert(late.contains(candidate_path(target, b)));
    }
    lemma_candidates_differ(target, a, b);
}

/// Planning changes nothing but the text of automatic paths: the
/// input, the size bound, the number of outputs, every setting, every
/// flag and every path that the caller chose stay as they are.
pub proof fn lemma_planning_keeps(job: JobView)
    ensures
        planned(job).input_path == job.input_path,
        planned(job).max_image_size == job.max_image_size,
        planned(job).outputs.len() == job.outputs.len(),
        forall|i: int|
            0 <= i < job.outputs.len() ==> planning_input(#[trigger] planned(job).outputs[i])
                == planning_input(job.outputs[i]),
        forall|i: int, is_lut: bool|
            0 <= i < job.outputs.len() && has_slot(job.outputs[i], is_lut) && !slot(
                job.outputs[i],
                is_lut,
            ).automatic_filename ==> #[trigger] slot(planned(job).outputs[i], is_lut) == slot(
                job.outputs[i],
                is_lut,
            ),
{
    match output_dir(job) {
        None => {},
        Some(dir) => {
            let stem = file_stem(job.input_path);
            let seed = manual_paths(job.outputs).to_set();
            lemma_plan_prefix_keeps(job.outputs, dir, stem, seed, job.outputs.len());
            assert forall|i: int, is_lut: bool|
                0 <= i < job.outputs.len() && has_slot(job.outputs[i], is_lut) && !slot(
                    job.outputs[i],
                    is_lut,
                ).automatic_filename implies #[trigger] slot(planned(job).outputs[i], is_lut)
                == slot(job.outputs[i], is_lut) by {
                let before = planning_input(job.outputs[i]);
                let after = planning_input(planned(job).outputs[i]);
                assert(before == after);
                assert(before.out_cubemap == after.out_cubemap);
                assert(before.filter_settings == after.filter_settings);
            }
        },
    }
}

} // verus!
