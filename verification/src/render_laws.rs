//! What holds of every run of the render state machine of
//! [`crate::renderer`], whatever answers the caller hands back.

use vstd::prelude::*;
use crate::commands::{conversion_command, spectrogram_command};
use crate::number::is_float_literal;
use crate::paths::with_extension_of;
use crate::renderer::{
    in_spectrogram_phase, in_video_phase, initial, next, pending, probed_duration, ActionView, EventView, RenderJobView,
    RenderStateView,
};

verus! {

/// The state reached from `s` by the answers `events`, in order.
pub open spec fn run(s: RenderStateView, events: Seq<EventView>) -> RenderStateView
    decreases events.len(),
{
    if events.len() == 0 {
        s
    } else {
        run(next(s, events[0]), events.drop_first())
    }
}

/// The state of a render after its first `i` answers.
pub open spec fn state_at(job: RenderJobView, events: Seq<EventView>, i: int) -> RenderStateView {
    run(initial(job), events.take(i))
}

proof fn lemma_run_push(s: RenderStateView, events: Seq<EventView>, e: EventView)
    ensures
        run(s, events.push(e)) == next(run(s, events), e),
    decreases events.len(),
{
    if events.len() == 0 {
        assert(events.push(e).drop_first() =~= Seq::<EventView>::empty());
        assert(events.push(e)[0] == e);
        assert(run(next(s, e), Seq::<EventView>::empty()) == next(s, e));
    } else {
        assert(events.push(e).drop_first() =~= events.drop_first().push(e));
        assert(events.push(e)[0] == events[0]);
        lemma_run_push(next(s, events[0]), events.drop_first(), e);
    }
}

/// One more answer moves a render one step on.
pub proof fn lemma_state_at_step(job: RenderJobView, events: Seq<EventView>, i: int)
    requires
        0 <= i < events.len(),
    ensures
        state_at(job, events, i + 1) == next(state_at(job, events, i), events[i]),
{
    assert(events.take(i + 1) =~= events.take(i).push(events[i]));
    lemma_run_push(initial(job), events.take(i), events[i]);
}

/// A set of states can only be entered by an answer `trigger` allows: then a
/// run that starts outside it and ends inside it has such a step.
proof fn lemma_entered_by(
    job: RenderJobView,
    events: Seq<EventView>,
    target: spec_fn(RenderStateView) -> bool,
    trigger: spec_fn(RenderStateView, EventView) -> bool,
    n: int,
)
    requires
        forall|s: RenderStateView, e: EventView|
            #[trigger] target(next(s, e)) && !target(s) ==> trigger(s, e),
        !target(initial(job)),
        0 <= n <= events.len(),
        target(state_at(job, events, n)),
    ensures
        exists|i: int| 0 <= i < n && #[trigger] trigger(state_at(job, events, i), events[i]),
    decreases n,
{
    assert(events.take(0) =~= Seq::<EventView>::empty());
    if n > 0 {
        lemma_state_at_step(job, events, n - 1);
        let before = state_at(job, events, n - 1);
        if target(before) {
            lemma_entered_by(job, events, target, trigger, n - 1);
            let i = choose|i: int| 0 <= i < n - 1 && #[trigger] trigger(state_at(job, events, i), events[i]);
            assert(trigger(state_at(job, events, i), events[i]));
        } else {
            assert(target(next(before, events[n - 1])));
            assert(trigger(state_at(job, events, n - 1), events[n - 1]));
        }
    }
}

/// The render is over, or about to be, and it succeeded.
pub open spec fn succeeded(s: RenderStateView) -> bool {
    match s {
        RenderStateView::Finished { success } => success,
        RenderStateView::DeletingImage { success, .. } => success,
        _ => false,
    }
}

/// FFprobe's output holds a valid duration.
pub open spec fn reports_duration(e: EventView) -> bool {
    match e {
        EventView::Captured { stdout } => probed_duration(stdout) is Some,
        _ => false,
    }
}

pub open spec fn past_render(s: RenderStateView) -> bool {
    s is Rendering || succeeded(s)
}

pub open spec fn past_probe(s: RenderStateView) -> bool {
    s is Probing || past_render(s)
}

/// The WAV file is being deleted after SoX drew the spectrogram.
pub open spec fn drew(s: RenderStateView) -> bool {
    match s {
        RenderStateView::DeletingWav { drawn, .. } => drawn,
        _ => false,
    }
}

pub open spec fn past_drawing(s: RenderStateView) -> bool {
    ||| drew(s)
    ||| s is CheckingImage
    ||| past_probe(s)
}

/// A render that ends in success has seen SoX report that it drew the
/// spectrogram, the image found to exist, FFprobe report a valid duration,
/// and FFmpeg report that it rendered the video.
pub proof fn lemma_success_needs_image_duration_and_video(job: RenderJobView, events: Seq<EventView>)
    requires
        run(initial(job), events) == (RenderStateView::Finished { success: true }),
    ensures
        exists|i: int|
            0 <= i < events.len() && #[trigger] state_at(job, events, i) is Drawing
                && events[i] == (EventView::Exited { success: true }),
        exists|i: int|
            0 <= i < events.len() && #[trigger] state_at(job, events, i) is CheckingImage
                && events[i] == (EventView::Exists { found: true }),
        exists|i: int|
            0 <= i < events.len() && #[trigger] state_at(job, events, i) is Probing
                && reports_duration(events[i]),
        exists|i: int|
            0 <= i < events.len() && #[trigger] state_at(job, events, i) is Rendering
                && events[i] == (EventView::Exited { success: true }),
{
    let n = events.len() as int;
    assert(events.take(n) =~= events);
    let t1 = |s: RenderStateView| succeeded(s);
    let g1 = |s: RenderStateView, e: EventView|
        s is Rendering && e == (EventView::Exited { success: true });
    lemma_entered_by(job, events, t1, g1, n);
    let t2 = |s: RenderStateView| past_render(s);
    let g2 = |s: RenderStateView, e: EventView|
        s is Probing && reports_duration(e);
    lemma_entered_by(job, events, t2, g2, n);
    let t3 = |s: RenderStateView| past_probe(s);
    let g3 = |s: RenderStateView, e: EventView|
        s is CheckingImage && e == (EventView::Exists { found: true });
    lemma_entered_by(job, events, t3, g3, n);
    let t4 = |s: RenderStateView| past_drawing(s);
    let g4 = |s: RenderStateView, e: EventView|
        s is Drawing && e == (EventView::Exited { success: true });
    lemma_entered_by(job, events, t4, g4, n);
    let i4 = choose|i: int| 0 <= i < n && #[trigger] g4(state_at(job, events, i), events[i]);
    assert(state_at(job, events, i4) is Drawing);
    let i1 = choose|i: int| 0 <= i < n && #[trigger] g1(state_at(job, events, i), events[i]);
    let i2 = choose|i: int| 0 <= i < n && #[trigger] g2(state_at(job, events, i), events[i]);
    let i3 = choose|i: int| 0 <= i < n && #[trigger] g3(state_at(job, events, i), events[i]);
    assert(state_at(job, events, i1) is Rendering);
    assert(state_at(job, events, i2) is Probing);
    assert(state_at(job, events, i3) is CheckingImage);
}


/// The temporary image of a state, if its image is one.
pub open spec fn temp_image(image: Seq<char>, image_is_temp: bool) -> Set<Seq<char>> {
    if image_is_temp {
        set![image]
    } else {
        Set::empty()
    }
}

/// The temporary files that a state has created and not yet deleted.
pub open spec fn held_temp_files(s: RenderStateView) -> Set<Seq<char>> {
    match s {
        RenderStateView::AwaitingWavFile { image, image_is_temp } => temp_image(image, image_is_temp),
        RenderStateView::Converting { image, image_is_temp, wav } => temp_image(
            image,
            image_is_temp,
        ).insert(wav),
        RenderStateView::Drawing { image, image_is_temp, wav } => temp_image(
            image,
            image_is_temp,
        ).insert(wav),
        RenderStateView::DeletingWav { image, image_is_temp, wav, .. } => temp_image(
            image,
            image_is_temp,
        ).insert(wav),
        RenderStateView::CheckingImage { image, image_is_temp } => temp_image(image, image_is_temp),
        RenderStateView::Probing { image, image_is_temp } => temp_image(image, image_is_temp),
        RenderStateView::Rendering { image, image_is_temp, .. } => temp_image(image, image_is_temp),
        RenderStateView::DeletingImage { image, .. } => set![image],
        _ => Set::empty(),
    }
}

/// Short of giving up, a step gains only the temporary file that the answer
/// names, and loses a temporary file only by deleting it: the pending action
/// deletes it and the answer confirms that.
pub proof fn lemma_temp_files_leave_only_by_deletion(job: RenderJobView, s: RenderStateView, e: EventView)
    requires
        !(next(s, e) is Aborted),
    ensures
        forall|p: Seq<char>|
            #[trigger] held_temp_files(next(s, e)).contains(p) ==> held_temp_files(s).contains(p)
                || e == (EventView::TempFileCreated { path: p }),
        forall|p: Seq<char>|
            #[trigger] held_temp_files(s).contains(p) && !held_temp_files(next(s, e)).contains(p)
                ==> pending(job, s) == (ActionView::DeleteTempFile { path: p }) && e
                == EventView::Deleted,
{
}

/// A finished render holds no temporary file.
pub proof fn lemma_finished_holds_no_temp_file(success: bool)
    ensures
        held_temp_files(RenderStateView::Finished { success }) == Set::<Seq<char>>::empty(),
{
}

proof fn lemma_aborted_stays(job: RenderJobView, events: Seq<EventView>, k: int, m: int)
    requires
        0 <= k <= m <= events.len(),
        state_at(job, events, k) is Aborted,
    ensures
        state_at(job, events, m) is Aborted,
    decreases m - k,
{
    if k < m {
        lemma_state_at_step(job, events, k);
        lemma_aborted_stays(job, events, k + 1, m);
    }
}

proof fn lemma_held_until_deleted(job: RenderJobView, events: Seq<EventView>, k: int, p: Seq<char>)
    requires
        0 <= k <= events.len(),
        held_temp_files(state_at(job, events, k)).contains(p),
        state_at(job, events, events.len() as int) is Finished,
    ensures
        exists|j: int|
            k <= j < events.len() && pending(job, #[trigger] state_at(job, events, j))
                == (ActionView::DeleteTempFile { path: p }) && events[j] == EventView::Deleted,
    decreases events.len() - k,
{
    let n = events.len() as int;
    if k == n {
        assert(held_temp_files(state_at(job, events, k)) == Set::<Seq<char>>::empty());
    } else {
        lemma_state_at_step(job, events, k);
        let s = state_at(job, events, k);
        let e = events[k];
        if next(s, e) is Aborted {
            lemma_aborted_stays(job, events, k + 1, n);
        } else {
            lemma_temp_files_leave_only_by_deletion(job, s, e);
            if held_temp_files(next(s, e)).contains(p) {
                lemma_held_until_deleted(job, events, k + 1, p);
                let j = choose|j: int|
                    k + 1 <= j < n && pending(job, #[trigger] state_at(job, events, j))
                        == (ActionView::DeleteTempFile { path: p }) && events[j] == EventView::Deleted;
                assert(pending(job, state_at(job, events, j)) == (ActionView::DeleteTempFile {
                    path: p,
                }));
            } else {
                assert(pending(job, state_at(job, events, k)) == (ActionView::DeleteTempFile {
                    path: p,
                }));
            }
        }
    }
}

/// Every temporary file that a finished render created (the answer to a
/// request for one) was deleted later in that render.
pub proof fn lemma_temp_files_deleted(job: RenderJobView, events: Seq<EventView>, i: int, p: Seq<char>)
    requires
        run(initial(job), events) is Finished,
        0 <= i < events.len(),
        pending(job, state_at(job, events, i)) is CreateTempFile,
        events[i] == (EventView::TempFileCreated { path: p }),
    ensures
        exists|j: int|
            i < j < events.len() && pending(job, #[trigger] state_at(job, events, j))
                == (ActionView::DeleteTempFile { path: p }) && events[j] == EventView::Deleted,
{
    let n = events.len() as int;
    assert(events.take(n) =~= events);
    lemma_state_at_step(job, events, i);
    lemma_held_until_deleted(job, events, i + 1, p);
}

/// The image's path, and whether it is temporary, for states that have one.
pub open spec fn image_of(s: RenderStateView) -> Option<(Seq<char>, bool)> {
    match s {
        RenderStateView::AwaitingWavFile { image, image_is_temp } => Some((image, image_is_temp)),
        RenderStateView::Converting { image, image_is_temp, .. } => Some((image, image_is_temp)),
        RenderStateView::Drawing { image, image_is_temp, .. } => Some((image, image_is_temp)),
        RenderStateView::DeletingWav { image, image_is_temp, .. } => Some((image, image_is_temp)),
        RenderStateView::CheckingImage { image, image_is_temp } => Some((image, image_is_temp)),
        RenderStateView::Probing { image, image_is_temp } => Some((image, image_is_temp)),
        RenderStateView::Rendering { image, image_is_temp, .. } => Some((image, image_is_temp)),
        RenderStateView::DeletingImage { image, .. } => Some((image, true)),
        _ => None,
    }
}

/// With `keep_img`, the image is the audio's path with the extension `png`,
/// is not temporary, and no temporary image is asked for or deleted.
pub open spec fn keeps_image(job: RenderJobView, s: RenderStateView) -> bool {
    job.keep_img ==> {
        &&& !(s is AwaitingImageFile)
        &&& !(s is DeletingImage)
        &&& image_of(s) matches Some(im) ==> im == (with_extension_of(job.audio_path, "png"@), false)
    }
}

/// With `keep_img`, every state of a render keeps the spectrogram next to
/// the audio, under the audio's name with the extension `png`, and never
/// deletes it.
pub proof fn lemma_kept_image_stays(job: RenderJobView, events: Seq<EventView>, i: int)
    requires
        0 <= i <= events.len(),
    ensures
        keeps_image(job, state_at(job, events, i)),
    decreases i,
{
    if i == 0 {
        assert(events.take(0) =~= Seq::<EventView>::empty());
    } else {
        lemma_kept_image_stays(job, events, i - 1);
        lemma_state_at_step(job, events, i - 1);
    }
}

/// The spectrogram is drawn from the audio converted to WAV: SoX is only
/// asked to run right after the conversion, and it reads the file that the
/// conversion wrote.
pub proof fn lemma_spectrogram_drawn_from_conversion(job: RenderJobView, s: RenderStateView, e: EventView)
    requires
        next(s, e) matches RenderStateView::Drawing { .. },
        !(s is Drawing),
    ensures
        ({
            let t = next(s, e);
            &&& pending(job, s) == (ActionView::Run {
                command: conversion_command(job.audio_path, t->Drawing_wav),
            })
            &&& pending(job, t) == (ActionView::Run {
                command: spectrogram_command(t->Drawing_wav, t->Drawing_image),
            })
        }),
{
}

/// FFmpeg renders only with a duration that FFprobe's output gave: a
/// non-empty floating-point literal.
pub proof fn lemma_rendering_has_valid_duration(job: RenderJobView, events: Seq<EventView>, i: int)
    requires
        0 <= i <= events.len(),
        state_at(job, events, i) matches RenderStateView::Rendering { .. },
    ensures
        ({
            let d = state_at(job, events, i)->Rendering_duration;
            d.len() > 0 && is_float_literal(d)
        }),
    decreases i,
{
    if i == 0 {
        assert(events.take(0) =~= Seq::<EventView>::empty());
    } else {
        lemma_state_at_step(job, events, i - 1);
        let s = state_at(job, events, i - 1);
        if s is Rendering {
            lemma_rendering_has_valid_duration(job, events, i - 1);
        }
    }
}


/// The answer is of the kind that the action asks for.
pub open spec fn answers(a: ActionView, e: EventView) -> bool {
    match a {
        ActionView::CreateTempFile { .. } => e is TempFileCreated || e is TempFileFailed,
        ActionView::Run { .. } => e is Exited || e is LaunchFailed,
        ActionView::Capture { .. } => e is Captured || e is LaunchFailed,
        ActionView::CheckExists { .. } => e is Exists,
        ActionView::DeleteTempFile { .. } => e is Deleted,
        _ => false,
    }
}

/// The render is over: it finished or gave up.
pub open spec fn is_over(s: RenderStateView) -> bool {
    s is Finished || s is Aborted
}

/// At most how many answers a state still needs before the render is over.
pub open spec fn steps_left(s: RenderStateView) -> nat {
    match s {
        RenderStateView::AwaitingImageFile => 9,
        RenderStateView::AwaitingWavFile { .. } => 8,
        RenderStateView::Converting { .. } => 7,
        RenderStateView::Drawing { .. } => 6,
        RenderStateView::DeletingWav { .. } => 5,
        RenderStateView::CheckingImage { .. } => 4,
        RenderStateView::Probing { .. } => 3,
        RenderStateView::Rendering { .. } => 2,
        RenderStateView::DeletingImage { .. } => 1,
        _ => 0,
    }
}

/// Every answer of the kind asked for brings a render closer to its end, and
/// only an ended render asks for no answer.
pub proof fn lemma_answer_moves_on(job: RenderJobView, s: RenderStateView, e: EventView)
    ensures
        is_over(s) <==> steps_left(s) == 0,
        is_over(s) ==> next(s, e) == s,
        !is_over(s) && answers(pending(job, s), e) ==> steps_left(next(s, e)) < steps_left(s),
{
}

/// A render comes to an end: answered as it asks, it has finished or given
/// up after at most nine answers.
pub proof fn lemma_render_ends(job: RenderJobView, events: Seq<EventView>, k: int)
    requires
        0 <= k <= events.len(),
        forall|i: int|
            0 <= i < k ==> answers(pending(job, #[trigger] state_at(job, events, i)), events[i]),
    ensures
        steps_left(state_at(job, events, k)) + k <= 9 || is_over(state_at(job, events, k)),
        k >= 9 ==> is_over(state_at(job, events, k)),
    decreases k,
{
    if k == 0 {
        assert(events.take(0) =~= Seq::<EventView>::empty());
    } else {
        lemma_render_ends(job, events, k - 1);
        lemma_state_at_step(job, events, k - 1);
        lemma_answer_moves_on(job, state_at(job, events, k - 1), events[k - 1]);
    }
}


/// Once chosen, a render's image stays the same: the file SoX is asked to
/// write is the one whose existence is checked, the one FFmpeg reads, and the
/// one deleted when temporary.
pub proof fn lemma_image_fixed(s: RenderStateView, e: EventView)
    requires
        image_of(s) is Some,
        image_of(next(s, e)) is Some,
    ensures
        image_of(next(s, e)) == image_of(s),
{
}

/// The spectrogram's phase ends by handing its image to the existence check
/// when SoX drew it, by failing the render when SoX did not, or by giving up;
/// the video's phase ends with the outcome of the render.
pub proof fn lemma_phase_hand_over(s: RenderStateView, e: EventView)
    ensures
        in_spectrogram_phase(s) && !in_spectrogram_phase(next(s, e)) ==> {
            ||| next(s, e) is CheckingImage && drew(s)
            ||| next(s, e) is Aborted
            ||| !succeeded(next(s, e)) && (next(s, e) is DeletingImage || next(s, e) is Finished)
        },
        in_video_phase(s) && !in_video_phase(next(s, e)) ==> next(s, e) is DeletingImage || next(
            s,
            e,
        ) is Finished,
        !in_spectrogram_phase(s) ==> !in_spectrogram_phase(next(s, e)),
{
}


/// FFmpeg's report decides the outcome of the render: after FFmpeg exits with
/// status `success`, and after the deletion of a temporary image, the render
/// finishes with that same `success`, whether the image is kept or not.
pub proof fn lemma_outcome_is_ffmpeg_status(
    image: Seq<char>,
    image_is_temp: bool,
    duration: Seq<char>,
    success: bool,
)
    ensures
        ({
            let after = next(
                RenderStateView::Rendering { image, image_is_temp, duration },
                EventView::Exited { success },
            );
            &&& !image_is_temp ==> after == (RenderStateView::Finished { success })
            &&& image_is_temp ==> after == (RenderStateView::DeletingImage { image, success })
                && next(after, EventView::Deleted) == (RenderStateView::Finished { success })
        }),
{
}

/// The answers of a render in which every step succeeds: the temporary files
/// are created, FFmpeg converts, SoX draws, the WAV file is deleted, the image
/// exists, FFprobe prints `stdout`, FFmpeg renders, and a temporary image is
/// deleted.
pub open spec fn all_succeed(
    keep_img: bool,
    image: Seq<char>,
    wav: Seq<char>,
    stdout: Seq<u8>,
) -> Seq<EventView> {
    let middle = seq![
        EventView::TempFileCreated { path: wav },
        EventView::Exited { success: true },
        EventView::Exited { success: true },
        EventView::Deleted,
        EventView::Exists { found: true },
        EventView::Captured { stdout },
        EventView::Exited { success: true },
    ];
    if keep_img {
        middle
    } else {
        seq![EventView::TempFileCreated { path: image }] + middle + seq![EventView::Deleted]
    }
}

proof fn lemma_run_first(s: RenderStateView, e: EventView, rest: Seq<EventView>)
    ensures
        run(s, seq![e] + rest) == run(next(s, e), rest),
{
    assert((seq![e] + rest)[0] == e);
    assert((seq![e] + rest).drop_first() =~= rest);
}

/// A render in which every step succeeds, and FFprobe prints a valid
/// duration, finishes with success.
pub proof fn lemma_success_when_all_succeed(
    job: RenderJobView,
    image: Seq<char>,
    wav: Seq<char>,
    stdout: Seq<u8>,
)
    requires
        probed_duration(stdout) is Some,
    ensures
        run(initial(job), all_succeed(job.keep_img, image, wav, stdout)) == (RenderStateView::Finished {
            success: true,
        }),
{
    let tail = seq![
        EventView::Exited { success: true },
        EventView::Exited { success: true },
        EventView::Deleted,
        EventView::Exists { found: true },
        EventView::Captured { stdout },
        EventView::Exited { success: true },
    ];
    let last: Seq<EventView> = if job.keep_img {
        Seq::empty()
    } else {
        seq![EventView::Deleted]
    };
    let evs = seq![EventView::TempFileCreated { path: wav }] + (seq![
        EventView::Exited { success: true },
    ] + (seq![EventView::Exited { success: true }] + (seq![EventView::Deleted] + (seq![
        EventView::Exists { found: true },
    ] + (seq![EventView::Captured { stdout }] + (seq![EventView::Exited { success: true }]
        + last))))));
    let s1 = if job.keep_img {
        initial(job)
    } else {
        next(initial(job), EventView::TempFileCreated { path: image })
    };
    let s2 = next(s1, EventView::TempFileCreated { path: wav });
    let s3 = next(s2, EventView::Exited { success: true });
    let s4 = next(s3, EventView::Exited { success: true });
    let s5 = next(s4, EventView::Deleted);
    let s6 = next(s5, EventView::Exists { found: true });
    let s7 = next(s6, EventView::Captured { stdout });
    let s8 = next(s7, EventView::Exited { success: true });
    lemma_run_first(s1, EventView::TempFileCreated { path: wav }, evs.drop_first());
    assert(evs == seq![EventView::TempFileCreated { path: wav }] + evs.drop_first());
    lemma_run_first(s2, EventView::Exited { success: true }, evs.skip(2));
    assert(evs.drop_first() =~= seq![EventView::Exited { success: true }] + evs.skip(2));
    lemma_run_first(s3, EventView::Exited { success: true }, evs.skip(3));
    assert(evs.skip(2) =~= seq![EventView::Exited { success: true }] + evs.skip(3));
    lemma_run_first(s4, EventView::Deleted, evs.skip(4));
    assert(evs.skip(3) =~= seq![EventView::Deleted] + evs.skip(4));
    lemma_run_first(s5, EventView::Exists { found: true }, evs.skip(5));
    assert(evs.skip(4) =~= seq![EventView::Exists { found: true }] + evs.skip(5));
    lemma_run_first(s6, EventView::Captured { stdout }, evs.skip(6));
    assert(evs.skip(5) =~= seq![EventView::Captured { stdout }] + evs.skip(6));
    lemma_run_first(s7, EventView::Exited { success: true }, last);
    assert(evs.skip(6) =~= seq![EventView::Exited { success: true }] + last);
    if job.keep_img {
        assert(s8 == (RenderStateView::Finished { success: true }));
        assert(all_succeed(job.keep_img, image, wav, stdout) =~= evs);
    } else {
        lemma_run_first(s8, EventView::Deleted, Seq::empty());
        assert(last =~= seq![EventView::Deleted] + Seq::<EventView>::empty());
        let all = seq![EventView::TempFileCreated { path: image }] + evs;
        lemma_run_first(initial(job), EventView::TempFileCreated { path: image }, evs);
        assert(all_succeed(job.keep_img, image, wav, stdout) =~= all);
    }
}

} // verus!
