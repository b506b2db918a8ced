use ibl_sampler::engine::{RESULT_KTX_ERROR, RESULT_SHADER_FILE_NOT_FOUND, RESULT_SUCCESS};
use ibl_sampler::error::{OutputError, ReencodeFailure};
use ibl_sampler::model::{Job, Output, OutputPath};
use ibl_sampler::orchestrator::{
    Action, Event, InputReencodingStatus, Orchestrator, OutputProgress, Step,
};
use ibl_sampler::sampler::SamplerCall;

fn planned_job(count: usize) -> Job {
    let mut outputs = Vec::new();
    for index in 0..count {
        outputs.push(Output::default_for_index(index));
    }
    let mut job = Job { input_path: "sky.hdr".to_string(), max_image_size: 4096, outputs };
    job.update_output_paths();
    job
}

fn in_progress(status: InputReencodingStatus, finished: usize, count: usize) -> OutputProgress {
    OutputProgress::InProgress {
        input_reencoding_status: status,
        outputs_finished: finished,
        output_count: count,
    }
}

fn written() -> Event {
    Event::InputWritten("/tmp/sky.hdr".to_string())
}

/// Runs a job against the given result codes, one for each call of the
/// engine, and returns all that was published and the calls that were made.
fn drive(job: Job, codes: &[i32]) -> (Orchestrator, Vec<OutputProgress>, Vec<SamplerCall>) {
    let mut orchestrator = Orchestrator::new();
    let mut published = Vec::new();
    let mut calls = Vec::new();
    let mut next_code = 0;
    let mut step = orchestrator.start(job);
    loop {
        published.extend(step.published);
        let event = match step.action {
            Action::Idle => break,
            Action::LoadInput => Event::InputLoaded,
            Action::ResizeInput => Event::InputResized,
            Action::WriteInput => written(),
            Action::Sample(call) => {
                calls.push(call);
                let code = codes[next_code];
                next_code += 1;
                Event::Sampled(code)
            }
        };
        step = orchestrator.advance(event);
    }
    (orchestrator, published, calls)
}

#[test]
fn new_orchestrator_has_not_started() {
    let orchestrator = Orchestrator::new();
    assert_eq!(orchestrator.progress, OutputProgress::NotStartedYet);
    assert!(orchestrator.job.outputs.is_empty());
    assert_eq!(orchestrator.job.input_path, "");
    assert_eq!(orchestrator.job.max_image_size, 0);
    assert_eq!(orchestrator.input_path, "");
}

#[test]
fn successful_run_of_one_output() {
    let (orchestrator, published, calls) = drive(planned_job(1), &[RESULT_SUCCESS]);
    assert_eq!(
        published,
        vec![
            in_progress(InputReencodingStatus::Loading, 0, 1),
            in_progress(InputReencodingStatus::Resizing, 0, 1),
            in_progress(InputReencodingStatus::Writing, 0, 1),
            in_progress(InputReencodingStatus::Reencoded, 0, 1),
            OutputProgress::Succeeded { output_count: 1 },
        ]
    );
    assert_eq!(orchestrator.progress, OutputProgress::Succeeded { output_count: 1 });
    assert_eq!(calls.len(), 1);
    assert_eq!(calls[0].input_path, "/tmp/sky.hdr");
    assert_eq!(calls[0].cubemap_path, "sky_cubemap.ktx2");
}

#[test]
fn successful_run_of_three_outputs() {
    let job = planned_job(3);
    let (orchestrator, published, calls) = drive(job.clone(), &[0, 0, 0]);
    assert_eq!(
        published,
        vec![
            in_progress(InputReencodingStatus::Loading, 0, 3),
            in_progress(InputReencodingStatus::Resizing, 0, 3),
            in_progress(InputReencodingStatus::Writing, 0, 3),
            in_progress(InputReencodingStatus::Reencoded, 0, 3),
            in_progress(InputReencodingStatus::Reencoded, 1, 3),
            in_progress(InputReencodingStatus::Reencoded, 2, 3),
            OutputProgress::Succeeded { output_count: 3 },
        ]
    );
    assert_eq!(orchestrator.job, job);
    assert_eq!(orchestrator.input_path, "/tmp/sky.hdr");
    assert_eq!(calls.len(), 3);
    for index in 0..3 {
        assert_eq!(
            Ok(&calls[index]),
            SamplerCall::prepare(&job.outputs[index], &"/tmp/sky.hdr".to_string()).as_ref()
        );
    }
    assert_eq!(calls[1].cubemap_path, "sky_diffuse.ktx2");
    assert_eq!(calls[1].lut_path, Some("sky_diffuse_lut.png".to_string()));
    assert_eq!(calls[2].cubemap_path, "sky_specular.ktx2");
}

#[test]
fn failing_output_ends_the_run_at_its_index() {
    let (orchestrator, published, calls) = drive(planned_job(4), &[0, 0, RESULT_KTX_ERROR]);
    assert_eq!(
        published,
        vec![
            in_progress(InputReencodingStatus::Loading, 0, 4),
            in_progress(InputReencodingStatus::Resizing, 0, 4),
            in_progress(InputReencodingStatus::Writing, 0, 4),
            in_progress(InputReencodingStatus::Reencoded, 0, 4),
            in_progress(InputReencodingStatus::Reencoded, 1, 4),
            in_progress(InputReencodingStatus::Reencoded, 2, 4),
            OutputProgress::Failed { which_failed: 2, error: OutputError::KtxError },
        ]
    );
    assert_eq!(
        orchestrator.progress,
        OutputProgress::Failed { which_failed: 2, error: OutputError::KtxError }
    );
    assert_eq!(calls.len(), 3);
}

#[test]
fn shader_file_not_found_fails_the_output() {
    let (orchestrator, published, _) = drive(planned_job(2), &[RESULT_SHADER_FILE_NOT_FOUND]);
    assert_eq!(
        orchestrator.progress,
        OutputProgress::Failed { which_failed: 0, error: OutputError::ShaderFileNotFound }
    );
    assert_eq!(published.len(), 5);
    let (orchestrator, _, _) = drive(planned_job(2), &[0, RESULT_SHADER_FILE_NOT_FOUND]);
    assert_eq!(
        orchestrator.progress,
        OutputProgress::Failed { which_failed: 1, error: OutputError::ShaderFileNotFound }
    );
}

#[test]
fn unknown_result_code_fails_as_invalid_argument() {
    let (orchestrator, _, _) = drive(planned_job(1), &[77]);
    assert_eq!(
        orchestrator.progress,
        OutputProgress::Failed { which_failed: 0, error: OutputError::InvalidArgument }
    );
}

#[test]
fn nothing_is_published_after_a_failure() {
    let (mut orchestrator, _, _) = drive(planned_job(3), &[0, RESULT_KTX_ERROR]);
    let terminal = orchestrator.progress.clone();
    for event in [
        Event::Sampled(0),
        Event::InputLoaded,
        Event::InputResized,
        written(),
        Event::InputLoadFailed("late".to_string()),
        Event::ReencodeFailed(ReencodeFailure::Encode),
    ] {
        let step = orchestrator.advance(event);
        assert_eq!(step, Step { published: vec![], action: Action::Idle });
        assert_eq!(orchestrator.progress, terminal);
    }
}

#[test]
fn nothing_is_published_after_success() {
    let (mut orchestrator, _, _) = drive(planned_job(1), &[0]);
    let step = orchestrator.advance(Event::Sampled(RESULT_KTX_ERROR));
    assert_eq!(step, Step { published: vec![], action: Action::Idle });
    assert_eq!(orchestrator.progress, OutputProgress::Succeeded { output_count: 1 });
}

#[test]
fn refused_cubemap_path_fails_without_a_call() {
    let mut job = planned_job(3);
    job.outputs[1].out_cubemap = OutputPath { path: "bad\0path".to_string(), automatic_filename: false };
    let (orchestrator, published, calls) = drive(job, &[0]);
    assert_eq!(calls.len(), 1);
    assert_eq!(
        published,
        vec![
            in_progress(InputReencodingStatus::Loading, 0, 3),
            in_progress(InputReencodingStatus::Resizing, 0, 3),
            in_progress(InputReencodingStatus::Writing, 0, 3),
            in_progress(InputReencodingStatus::Reencoded, 0, 3),
            in_progress(InputReencodingStatus::Reencoded, 1, 3),
            OutputProgress::Failed {
                which_failed: 1,
                error: OutputError::OutputCubemapPathNotValidUTF8
            },
        ]
    );
    assert_eq!(
        orchestrator.progress,
        OutputProgress::Failed { which_failed: 1, error: OutputError::OutputCubemapPathNotValidUTF8 }
    );
}

#[test]
fn refused_lut_path_of_the_first_output_fails_at_once() {
    let mut job = planned_job(2);
    job.outputs.remove(0);
    job.outputs[0].filter_settings.as_mut().unwrap().out_lut.path = "\0".to_string();
    let (orchestrator, published, calls) = drive(job, &[]);
    assert!(calls.is_empty());
    assert_eq!(published.len(), 5);
    assert_eq!(published[3], in_progress(InputReencodingStatus::Reencoded, 0, 1));
    assert_eq!(
        orchestrator.progress,
        OutputProgress::Failed { which_failed: 0, error: OutputError::OutputLutPathNotValidUTF8 }
    );
}

#[test]
fn load_failure_fails_the_first_output_with_its_reason() {
    let mut orchestrator = Orchestrator::new();
    let step = orchestrator.start(planned_job(2));
    assert_eq!(step.action, Action::LoadInput);
    let step = orchestrator.advance(Event::InputLoadFailed("file not found".to_string()));
    let failure = OutputProgress::Failed {
        which_failed: 0,
        error: OutputError::FailedToLoadInput("file not found".to_string()),
    };
    assert_eq!(step, Step { published: vec![failure.clone()], action: Action::Idle });
    assert_eq!(orchestrator.progress, failure);
}

#[test]
fn resize_failure_fails_the_first_output() {
    let mut orchestrator = Orchestrator::new();
    orchestrator.start(planned_job(2));
    orchestrator.advance(Event::InputLoaded);
    let step = orchestrator.advance(Event::ReencodeFailed(ReencodeFailure::Resize));
    let failure =
        OutputProgress::Failed { which_failed: 0, error: OutputError::FailedToReencodeInput };
    assert_eq!(step, Step { published: vec![failure.clone()], action: Action::Idle });
}

#[test]
fn every_write_failure_is_a_failure_to_reencode() {
    for failure in [ReencodeFailure::TempFile, ReencodeFailure::Encode, ReencodeFailure::PathEncoding] {
        let mut orchestrator = Orchestrator::new();
        orchestrator.start(planned_job(2));
        orchestrator.advance(Event::InputLoaded);
        let step = orchestrator.advance(Event::InputResized);
        assert_eq!(step.action, Action::WriteInput);
        let step = orchestrator.advance(Event::ReencodeFailed(failure));
        assert_eq!(
            step.published,
            vec![OutputProgress::Failed {
                which_failed: 0,
                error: OutputError::FailedToReencodeInput
            }]
        );
        assert_eq!(step.action, Action::Idle);
    }
}

#[test]
fn written_path_with_nul_is_a_failure_to_reencode() {
    let mut orchestrator = Orchestrator::new();
    orchestrator.start(planned_job(1));
    orchestrator.advance(Event::InputLoaded);
    orchestrator.advance(Event::InputResized);
    let step = orchestrator.advance(Event::InputWritten("/tmp/a\0b.hdr".to_string()));
    assert_eq!(
        step.published,
        vec![OutputProgress::Failed { which_failed: 0, error: OutputError::FailedToReencodeInput }]
    );
    assert_eq!(step.action, Action::Idle);
    assert_eq!(orchestrator.input_path, "");
}

#[test]
fn events_out_of_turn_change_nothing() {
    let mut orchestrator = Orchestrator::new();
    orchestrator.start(planned_job(2));
    let before = orchestrator.progress.clone();
    for event in [
        Event::InputResized,
        written(),
        Event::Sampled(0),
        Event::ReencodeFailed(ReencodeFailure::Encode),
    ] {
        let step = orchestrator.advance(event);
        assert_eq!(step, Step { published: vec![], action: Action::Idle });
        assert_eq!(orchestrator.progress, before);
    }
    orchestrator.advance(Event::InputLoaded);
    let step = orchestrator.advance(Event::InputLoadFailed("late".to_string()));
    assert_eq!(step, Step { published: vec![], action: Action::Idle });
    assert_eq!(orchestrator.progress, in_progress(InputReencodingStatus::Resizing, 0, 2));
}

#[test]
fn job_without_outputs_starts_nothing() {
    let mut orchestrator = Orchestrator::new();
    let step = orchestrator.start(planned_job(0));
    assert_eq!(step, Step { published: vec![], action: Action::Idle });
    assert_eq!(orchestrator.progress, OutputProgress::NotStartedYet);
}

#[test]
fn no_second_run_while_one_is_under_way() {
    let mut orchestrator = Orchestrator::new();
    let first = planned_job(2);
    orchestrator.start(first.clone());
    orchestrator.advance(Event::InputLoaded);
    let step = orchestrator.start(planned_job(1));
    assert_eq!(step, Step { published: vec![], action: Action::Idle });
    assert_eq!(orchestrator.job, first);
    assert_eq!(orchestrator.progress, in_progress(InputReencodingStatus::Resizing, 0, 2));
}

#[test]
fn new_run_starts_after_a_terminal_state() {
    let (mut orchestrator, _, _) = drive(planned_job(2), &[RESULT_KTX_ERROR]);
    let step = orchestrator.start(planned_job(1));
    assert_eq!(
        step,
        Step {
            published: vec![in_progress(InputReencodingStatus::Loading, 0, 1)],
            action: Action::LoadInput
        }
    );
    assert_eq!(orchestrator.job.outputs.len(), 1);
}

#[test]
fn progress_clone_is_equal() {
    let failure = OutputProgress::Failed {
        which_failed: 3,
        error: OutputError::FailedToLoadInput("x".to_string()),
    };
    assert_eq!(failure.clone(), failure);
    assert_eq!(OutputProgress::NotStartedYet.clone(), OutputProgress::NotStartedYet);
    let running = in_progress(InputReencodingStatus::Writing, 0, 2);
    assert_eq!(running.clone(), running);
    assert_eq!(
        OutputProgress::Succeeded { output_count: 2 }.clone(),
        OutputProgress::Succeeded { output_count: 2 }
    );
}
