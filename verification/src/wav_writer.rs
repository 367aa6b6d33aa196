//! What goes into a recording: nothing until the first frame that is not
//! silent, and from then on everything.

use crate::engine::SampleRate;
use crate::sample::StereoSample;
use vstd::prelude::*;

verus! {

/// The bits that a recorded sample takes.
pub const BITS_PER_SAMPLE: u16 = 32;

/// What the recorder can be asked to do.
#[derive(Debug)]
pub enum WavWriterInput {
    /// Start a new recording for this sample rate and number of channels.
    Reset(SampleRate, u16),
    /// Take these frames.
    Frames(Vec<StereoSample>),
    /// Finish the recording and stop.
    Quit,
}

/// A [`WavWriterInput`] by its contents.
pub enum WavWriterInputView {
    Reset(SampleRate, u16),
    Frames(Seq<StereoSample>),
    Quit,
}

impl View for WavWriterInput {
    type V = WavWriterInputView;

    open spec fn view(&self) -> WavWriterInputView {
        match *self {
            WavWriterInput::Reset(rate, channels) => WavWriterInputView::Reset(rate, channels),
            WavWriterInput::Frames(frames) => WavWriterInputView::Frames(frames@),
            WavWriterInput::Quit => WavWriterInputView::Quit,
        }
    }
}

/// What the recorder reports.
#[derive(Debug)]
pub enum WavWriterEvent {
    /// The recording could not be started; the text says why.
    Error(String),
}

/// The format of a recording: 32-bit floating-point samples.
#[derive(Clone, Copy, Debug, PartialEq, Eq, Structural)]
pub struct WavFormat {
    pub channels: u16,
    pub sample_rate: u32,
    pub bits_per_sample: u16,
}

/// Something the recorder wants done with the file.
#[derive(Debug)]
pub enum WavEffect {
    /// Start a new file of this format.
    Create(WavFormat),
    /// Append these frames, left sample before right.
    Write(Vec<StereoSample>),
    /// Finish the file.
    Finalize,
}

/// A [`WavEffect`] by its contents.
pub enum WavEffectView {
    Create(WavFormat),
    Write(Seq<StereoSample>),
    Finalize,
}

impl View for WavEffect {
    type V = WavEffectView;

    open spec fn view(&self) -> WavEffectView {
        match *self {
            WavEffect::Create(format) => WavEffectView::Create(format),
            WavEffect::Write(frames) => WavEffectView::Write(frames@),
            WavEffect::Finalize => WavEffectView::Finalize,
        }
    }
}

/// How many silent frames `frames` starts with.
pub open spec fn lead_in(frames: Seq<StereoSample>) -> nat
    decreases frames.len(),
{
    if frames.len() == 0 || !frames[0].spec_is_silent() {
        0
    } else {
        1 + lead_in(frames.drop_first())
    }
}

/// The part of `frames` that is recorded: all of it once the lead-in has
/// ended, else what follows the silent frames at its start.
pub open spec fn recorded(has_lead_in_ended: bool, frames: Seq<StereoSample>) -> Seq<StereoSample> {
    if has_lead_in_ended {
        frames
    } else {
        frames.skip(lead_in(frames) as int)
    }
}

/// The lead-in is within the batch, every frame of it is silent, and the frame
/// that follows it, if there is one, is not.
pub proof fn lemma_lead_in(frames: Seq<StereoSample>)
    ensures
        lead_in(frames) <= frames.len(),
        forall|i: int| 0 <= i < lead_in(frames) ==> (#[trigger] frames[i]).spec_is_silent(),
        lead_in(frames) < frames.len() ==> !frames[lead_in(frames) as int].spec_is_silent(),
    decreases frames.len(),
{
    if !(frames.len() == 0 || !frames[0].spec_is_silent()) {
        let rest = frames.drop_first();
        lemma_lead_in(rest);
        assert forall|i: int| 0 <= i < lead_in(frames) implies (#[trigger] frames[i]).spec_is_silent() by {
            if i > 0 {
                assert(frames[i] == rest[i - 1]);
            }
        }
    }
}

/// Of a batch that comes while the lead-in lasts, the first frame that is not
/// silent and everything after it is recorded, and nothing before it.
pub proof fn lemma_recording_starts_with_sound(frames: Seq<StereoSample>, first: int)
    requires
        0 <= first < frames.len(),
        !frames[first].spec_is_silent(),
        forall|i: int| 0 <= i < first ==> (#[trigger] frames[i]).spec_is_silent(),
    ensures
        recorded(false, frames) == frames.skip(first),
        recorded(false, frames).len() == frames.len() - first,
        recorded(false, frames)[0] == frames[first],
{
    lemma_lead_in(frames);
}

/// A batch of silence leaves nothing to record while the lead-in lasts.
pub proof fn lemma_silence_is_not_recorded(frames: Seq<StereoSample>)
    requires
        forall|i: int| 0 <= i < frames.len() ==> (#[trigger] frames[i]).spec_is_silent(),
    ensures
        recorded(false, frames) == Seq::<StereoSample>::empty(),
{
    lemma_lead_in(frames);
}

/// The recorder by its contents.
pub struct WavWriterView {
    /// Whether a file is open.
    pub has_writer: bool,
    /// Whether a frame that is not silent has come since the file was begun.
    pub has_lead_in_ended: bool,
}

/// The format in which frames at `sample_rate` with `channel_count` channels
/// are recorded. A sample rate beyond 32 bits keeps its low 32 bits.
pub open spec fn format_for(sample_rate: SampleRate, channel_count: u16) -> WavFormat {
    WavFormat {
        channels: channel_count,
        sample_rate: (sample_rate.0 as int % 0x1_0000_0000) as u32,
        bits_per_sample: BITS_PER_SAMPLE,
    }
}

/// What becomes of the recorder, and what it wants done with the file, when an
/// input reaches it.
pub open spec fn after_input(writer: WavWriterView, input: WavWriterInputView) -> (
    WavWriterView,
    Seq<WavEffectView>,
) {
    match input {
        WavWriterInputView::Reset(sample_rate, channel_count) => (
            WavWriterView { has_lead_in_ended: false, ..writer },
            seq![WavEffectView::Create(format_for(sample_rate, channel_count))],
        ),
        WavWriterInputView::Frames(frames) => if writer.has_writer {
            let kept = recorded(writer.has_lead_in_ended, frames);
            (
                WavWriterView {
                    has_lead_in_ended: writer.has_lead_in_ended || kept.len() > 0,
                    ..writer
                },
                if kept.len() > 0 {
                    seq![WavEffectView::Write(kept)]
                } else {
                    Seq::empty()
                },
            )
        } else {
            (writer, Seq::empty())
        },
        WavWriterInputView::Quit => (
            writer,
            if writer.has_writer {
                seq![WavEffectView::Finalize]
            } else {
                Seq::empty()
            },
        ),
    }
}

/// The state of the recorder.
#[derive(Debug)]
pub struct WavWriterService {
    has_writer: bool,
    has_lead_in_ended: bool,
}

impl View for WavWriterService {
    type V = WavWriterView;

    closed spec fn view(&self) -> WavWriterView {
        WavWriterView { has_writer: self.has_writer, has_lead_in_ended: self.has_lead_in_ended }
    }
}

impl Default for WavWriterService {
    fn default() -> (service: Self)
        ensures
            service@ == (WavWriterView { has_writer: false, has_lead_in_ended: false }),
    {
        WavWriterService::new()
    }
}

impl WavWriterService {
    /// A recorder without a file.
    pub fn new() -> (service: Self)
        ensures
            service@ == (WavWriterView { has_writer: false, has_lead_in_ended: false }),
    {
        WavWriterService { has_writer: false, has_lead_in_ended: false }
    }

    /// Handles one input. Says what is to be done with the file, and whether
    /// the recorder is to stop.
    pub fn handle_input(&mut self, input: WavWriterInput) -> (outcome: (Vec<WavEffect>, bool))
        ensures
            (final(self)@, crate::actions::views(outcome.0@)) == after_input(old(self)@, input@),
            outcome.1 == (input is Quit),
    {
        let mut effects: Vec<WavEffect> = Vec::new();
        match input {
            WavWriterInput::Reset(sample_rate, channel_count) => {
                self.has_lead_in_ended = false;
                let format = WavFormat {
                    channels: channel_count,
                    sample_rate: low_bits(sample_rate.0),
                    bits_per_sample: BITS_PER_SAMPLE,
                };
                effects.push(WavEffect::Create(format));
                (effects, false)
            },
            WavWriterInput::Frames(frames) => {
                proof {
                    lemma_lead_in(frames@);
                }
                if self.has_writer {
                    let mut start: usize = 0;
                    if !self.has_lead_in_ended {
                        start = count_lead_in(&frames);
                    }
                    if start < frames.len() {
                        let mut kept: Vec<StereoSample> = Vec::new();
                        let mut i: usize = start;
                        while i < frames.len()
                            invariant
                                start <= i <= frames.len(),
                                kept@ == frames@.subrange(start as int, i as int),
                            decreases frames.len() - i,
                        {
                            kept.push(frames[i]);
                            i += 1;
                        }
                        assert(frames@.skip(0) =~= frames@);
                        self.has_lead_in_ended = true;
                        effects.push(WavEffect::Write(kept));
                    }
                }
                (effects, false)
            },
            WavWriterInput::Quit => {
                if self.has_writer {
                    effects.push(WavEffect::Finalize);
                }
                (effects, true)
            },
        }
    }

    /// Takes note of how the start of a new file went: with `None` the file
    /// is open, with a reason it is not, and the reason is reported.
    pub fn handle_created(&mut self, failure: Option<String>) -> (event: Option<WavWriterEvent>)
        ensures
            final(self)@ == (WavWriterView { has_writer: failure.is_none(), ..old(self)@ }),
            match failure {
                Some(reason) => event matches Some(WavWriterEvent::Error(text)) && text == reason,
                None => event.is_none(),
            },
    {
        match failure {
            Some(reason) => {
                self.has_writer = false;
                Some(WavWriterEvent::Error(reason))
            },
            None => {
                self.has_writer = true;
                None
            },
        }
    }
}

fn low_bits(value: usize) -> (low: u32)
    ensures
        low == value as int % 0x1_0000_0000,
{
    ((value as u64) % 0x1_0000_0000u64) as u32
}

/// Counts the silent frames that `frames` starts with.
pub fn count_lead_in(frames: &Vec<StereoSample>) -> (count: usize)
    ensures
        count == lead_in(frames@),
{
    let mut i: usize = 0;
    assert(frames@.skip(0) =~= frames@);
    while i < frames.len() && frames[i].is_silent()
        invariant
            i <= frames.len(),
            lead_in(frames@) == i + lead_in(frames@.skip(i as int)),
        decreases frames.len() - i,
    {
        assert(frames@.skip(i as int).drop_first() =~= frames@.skip(i as int + 1));
        i += 1;
    }
    i
}

} // verus!
