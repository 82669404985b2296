//! Audio: which devices to use, how the audio chain is set up, what is sent to its
//! outputs, and the buffer between the microphone and the output.
//!
//! Opening devices, decoding files and multiplying loudness is the work of the
//! program around this library.

use crate::config::{AppConfig, Settings, Volume};
use crate::text::{contains_text, is_text, occurs_in, opt_text, texts};
use std::collections::VecDeque;
use std::path::PathBuf;
use vstd::prelude::*;

verus! {

// ---------------------------------------------------------------------------
// Devices
// ---------------------------------------------------------------------------

/// Whether a device name is that of the input end of the virtual cable.
pub open spec fn is_cable(name: Seq<char>) -> bool {
    occurs_in(name, "CABLE Input"@)
}

/// The first name of a cable input.
pub open spec fn first_cable(names: Seq<Seq<char>>) -> Option<Seq<char>>
    decreases names.len(),
{
    if names.len() == 0 {
        None
    } else if is_cable(names[0]) {
        Some(names[0])
    } else {
        first_cable(names.drop_first())
    }
}

/// Whether the virtual cable is among the output devices.
pub fn vbcable_installed(output_devices: &Vec<String>) -> (r: bool)
    ensures
        r == exists|i: int|
            0 <= i < output_devices@.len() && is_cable(#[trigger] texts(output_devices@)[i]),
{
    let mut i: usize = 0;
    while i < output_devices.len()
        invariant
            i <= output_devices@.len(),
            forall|j: int| 0 <= j < i ==> !is_cable(#[trigger] texts(output_devices@)[j]),
        decreases output_devices@.len() - i,
    {
        assert(texts(output_devices@)[i as int] == output_devices@[i as int]@);
        if contains_text(output_devices[i].as_str(), "CABLE Input") {
            return true;
        }
        i = i + 1;
    }
    false
}

/// The output device to start with: the first one that is the virtual cable.
pub fn guess_cable_output(output_devices: &Vec<String>) -> (r: Option<String>)
    ensures
        opt_text(r) == first_cable(texts(output_devices@)),
{
    let ghost names = texts(output_devices@);
    let mut i: usize = 0;
    assert(names.skip(0) =~= names);
    while i < output_devices.len()
        invariant
            i <= output_devices@.len(),
            names == texts(output_devices@),
            first_cable(names.skip(i as int)) == first_cable(names),
        decreases output_devices@.len() - i,
    {
        assert(names.skip(i as int)[0] == output_devices@[i as int]@);
        assert(names.skip(i as int).drop_first() =~= names.skip(i + 1));
        if contains_text(output_devices[i].as_str(), "CABLE Input") {
            return Some(output_devices[i].clone());
        }
        i = i + 1;
    }
    None
}

/// A device to start with is found exactly where the cable is installed.
pub proof fn guess_needs_the_cable(names: Seq<Seq<char>>)
    ensures
        first_cable(names) is Some <==> exists|i: int|
            0 <= i < names.len() && is_cable(#[trigger] names[i]),
        first_cable(names) matches Some(name) ==> names.contains(name) && is_cable(name),
    decreases names.len(),
{
    if names.len() > 0 {
        let rest = names.drop_first();
        guess_needs_the_cable(rest);
        if is_cable(names[0]) {
            assert(names.contains(names[0]));
        } else {
            if exists|i: int| 0 <= i < names.len() && is_cable(#[trigger] names[i]) {
                let i = choose|i: int| 0 <= i < names.len() && is_cable(#[trigger] names[i]);
                assert(rest[i - 1] == names[i]);
            }
            if exists|i: int| 0 <= i < rest.len() && is_cable(#[trigger] rest[i]) {
                let i = choose|i: int| 0 <= i < rest.len() && is_cable(#[trigger] rest[i]);
                assert(names[i + 1] == rest[i]);
            }
            if let Some(name) = first_cable(rest) {
                let i = choose|i: int| 0 <= i < rest.len() && rest[i] == name;
                assert(names[i + 1] == name);
            }
        }
    }
}

/// Why the audio chain could not be set up.
#[derive(Clone, Copy, PartialEq, Eq, Structural, Debug)]
pub enum AudioError {
    NoOutputDevice,
    NoMicrophone,
    OutputNotOpened,
    PlayerNotCreated,
    MicrophoneUnknown,
    UnsupportedSampleFormat,
    MicrophoneNotStarted,
    MicrophoneNotConnected,
}

/// The message of an error.
pub open spec fn error_text(e: AudioError) -> Seq<char> {
    match e {
        AudioError::NoOutputDevice => "没有可用的输出设备"@,
        AudioError::NoMicrophone => "没有可用的麦克风"@,
        AudioError::OutputNotOpened => "打开输出设备失败（该设备可能被独占占用）"@,
        AudioError::PlayerNotCreated => "创建音效播放器失败"@,
        AudioError::MicrophoneUnknown => "读取麦克风默认参数失败"@,
        AudioError::UnsupportedSampleFormat => "不支持的麦克风采样格式"@,
        AudioError::MicrophoneNotStarted => "启动麦克风流失败"@,
        AudioError::MicrophoneNotConnected => "把麦克风接入输出失败"@,
    }
}

impl AudioError {
    /// The message of the error.
    pub fn message(self) -> (r: &'static str)
        ensures
            r@ == error_text(self),
    {
        match self {
            AudioError::NoOutputDevice => "没有可用的输出设备",
            AudioError::NoMicrophone => "没有可用的麦克风",
            AudioError::OutputNotOpened => "打开输出设备失败（该设备可能被独占占用）",
            AudioError::PlayerNotCreated => "创建音效播放器失败",
            AudioError::MicrophoneUnknown => "读取麦克风默认参数失败",
            AudioError::UnsupportedSampleFormat => "不支持的麦克风采样格式",
            AudioError::MicrophoneNotStarted => "启动麦克风流失败",
            AudioError::MicrophoneNotConnected => "把麦克风接入输出失败",
        }
    }
}

/// A device of the host: one of those it lists, or its default.
#[derive(Clone, Copy, PartialEq, Eq, Structural, Debug)]
pub enum DeviceChoice {
    Listed(usize),
    Default,
}

/// The names of the listed devices; a device may have none.
pub open spec fn device_names(names: Seq<Option<String>>) -> Seq<Option<Seq<char>>> {
    names.map_values(|n: Option<String>| opt_text(n))
}

/// The names that can be read, in order.
pub open spec fn readable(names: Seq<Option<Seq<char>>>) -> Seq<Seq<char>>
    decreases names.len(),
{
    if names.len() == 0 {
        seq![]
    } else {
        let before = readable(names.drop_last());
        match names.last() {
            Some(name) => before.push(name),
            None => before,
        }
    }
}

/// The names of the devices that the host lists: those that can be read; none if the
/// devices cannot be listed.
pub open spec fn listed(names: Option<Seq<Option<Seq<char>>>>) -> Seq<Seq<char>> {
    match names {
        Some(names) => readable(names),
        None => seq![],
    }
}

fn listed_names(names: Option<Vec<Option<String>>>) -> (r: Vec<String>)
    ensures
        texts(r@) == listed(
            match names {
                Some(names) => Some(device_names(names@)),
                None => None,
            },
        ),
{
    let mut r: Vec<String> = Vec::new();
    assert(texts(r@) =~= Seq::<Seq<char>>::empty());
    if let Some(names) = names {
        let ghost all = device_names(names@);
        let mut i: usize = 0;
        assert(all.take(0) =~= Seq::<Option<Seq<char>>>::empty());
        while i < names.len()
            invariant
                i <= names@.len(),
                all == device_names(names@),
                texts(r@) == readable(all.take(i as int)),
            decreases names@.len() - i,
        {
            assert(all.take(i + 1).drop_last() =~= all.take(i as int));
            assert(all.take(i + 1).last() == opt_text(names@[i as int]));
            if let Some(name) = &names[i] {
                let copy = name.clone();
                assert(texts(r@.push(copy)) =~= texts(r@).push(copy@));
                r.push(copy);
            }
            i = i + 1;
        }
        assert(all.take(i as int) =~= all);
    }
    r
}

/// The names of the output devices, from what the host says of them: `None` if it
/// cannot list them, and `None` for a device whose name cannot be read.
pub fn output_devices(names: Option<Vec<Option<String>>>) -> (r: Vec<String>)
    ensures
        texts(r@) == listed(
            match names {
                Some(names) => Some(device_names(names@)),
                None => None,
            },
        ),
{
    listed_names(names)
}

/// The names of the microphones, from what the host says of them: `None` if it cannot
/// list them, and `None` for a device whose name cannot be read.
pub fn input_devices(names: Option<Vec<Option<String>>>) -> (r: Vec<String>)
    ensures
        texts(r@) == listed(
            match names {
                Some(names) => Some(device_names(names@)),
                None => None,
            },
        ),
{
    listed_names(names)
}

/// Whether the device at place `at` is the first one with the name `wanted`.
pub open spec fn is_first_named(
    names: Seq<Option<Seq<char>>>,
    wanted: Seq<char>,
    at: int,
) -> bool {
    &&& 0 <= at < names.len()
    &&& names[at] == Some(wanted)
    &&& forall|j: int| 0 <= j < at ==> #[trigger] names[j] != Some(wanted)
}

/// Whether `r` is the device to use: the first one of the wanted name; without a
/// wanted name, or where there is none of that name, the default device; `none` if
/// there is no default device either.
pub open spec fn is_choice(
    wanted: Option<Seq<char>>,
    names: Seq<Option<Seq<char>>>,
    has_default: bool,
    none: AudioError,
    r: Result<DeviceChoice, AudioError>,
) -> bool {
    if wanted is Some && names.contains(wanted) {
        r matches Ok(DeviceChoice::Listed(at)) && is_first_named(names, wanted->0, at as int)
    } else if has_default {
        r == Ok::<DeviceChoice, AudioError>(DeviceChoice::Default)
    } else {
        r == Err::<DeviceChoice, AudioError>(none)
    }
}

fn find_device(
    wanted: &Option<String>,
    names: &Vec<Option<String>>,
    has_default: bool,
    none: AudioError,
) -> (r: Result<DeviceChoice, AudioError>)
    ensures
        is_choice(opt_text(*wanted), device_names(names@), has_default, none, r),
{
    let ghost all = device_names(names@);
    if let Some(name) = wanted {
        let mut i: usize = 0;
        while i < names.len()
            invariant
                i <= names@.len(),
                all == device_names(names@),
                opt_text(*wanted) == Some(name@),
                forall|j: int| 0 <= j < i ==> #[trigger] all[j] != Some(name@),
            decreases names@.len() - i,
        {
            assert(all[i as int] == opt_text(names@[i as int]));
            if is_text(&names[i], name.as_str()) {
                assert(is_first_named(all, name@, i as int));
                return Ok(DeviceChoice::Listed(i));
            }
            i = i + 1;
        }
    }
    if has_default {
        Ok(DeviceChoice::Default)
    } else {
        Err(none)
    }
}

/// The output device to use, given the names of those that the host lists.
pub fn find_output_device(
    wanted: &Option<String>,
    names: &Vec<Option<String>>,
    has_default: bool,
) -> (r: Result<DeviceChoice, AudioError>)
    ensures
        is_choice(
            opt_text(*wanted),
            device_names(names@),
            has_default,
            AudioError::NoOutputDevice,
            r,
        ),
{
    find_device(wanted, names, has_default, AudioError::NoOutputDevice)
}

/// The microphone to use, given the names of those that the host lists.
pub fn find_input_device(
    wanted: &Option<String>,
    names: &Vec<Option<String>>,
    has_default: bool,
) -> (r: Result<DeviceChoice, AudioError>)
    ensures
        is_choice(
            opt_text(*wanted),
            device_names(names@),
            has_default,
            AudioError::NoMicrophone,
            r,
        ),
{
    find_device(wanted, names, has_default, AudioError::NoMicrophone)
}

/// Where the host has a default device, there is always a device to use.
pub proof fn default_device_never_fails(
    wanted: Option<Seq<char>>,
    names: Seq<Option<Seq<char>>>,
    none: AudioError,
    r: Result<DeviceChoice, AudioError>,
)
    requires
        is_choice(wanted, names, true, none, r),
    ensures
        r is Ok,
{
}

// ---------------------------------------------------------------------------
// Microphone
// ---------------------------------------------------------------------------

/// How a microphone delivers its samples.
#[derive(Clone, Copy, PartialEq, Eq, Structural, Debug)]
pub enum SampleFormat {
    F32,
    I16,
    U16,
    Other,
}

/// How many samples 150 milliseconds of sound are made of.
pub open spec fn buffer_limit(sample_rate: u32, channels: u16) -> int {
    sample_rate * channels * 150 / 1000
}

/// The last `n` items of `s`, or all if there are fewer.
pub open spec fn newest<T>(s: Seq<T>, n: nat) -> Seq<T> {
    if s.len() <= n {
        s
    } else {
        s.skip(s.len() - n)
    }
}

/// The first `n` items of `s`, filled up with `fill`.
pub open spec fn oldest<T>(s: Seq<T>, n: nat, fill: T) -> Seq<T> {
    Seq::new(n, |i: int| if i < s.len() { s[i] } else { fill })
}

/// A source of sound that never ends: the samples of the microphone, and silence
/// where there are none. It holds at most 150 milliseconds; the oldest samples are
/// dropped to keep the delay short.
pub struct MicSource<T> {
    buf: VecDeque<T>,
    cap: usize,
    channels: u16,
    sample_rate: u32,
}

impl<T: Copy> MicSource<T> {
    /// The samples that wait to be played, the oldest first.
    pub closed spec fn samples(&self) -> Seq<T> {
        self.buf@
    }

    /// How many samples may wait.
    pub closed spec fn limit(&self) -> nat {
        self.cap as nat
    }

    pub closed spec fn channel_count(&self) -> u16 {
        self.channels
    }

    pub closed spec fn rate(&self) -> u32 {
        self.sample_rate
    }

    /// No more samples wait than may.
    pub open spec fn wf(&self) -> bool {
        self.samples().len() <= self.limit()
    }

    /// An empty source for a microphone with the given parameters, if its samples
    /// can be used.
    pub fn start(channels: u16, sample_rate: u32, format: SampleFormat) -> (r: Result<
        Self,
        AudioError,
    >)
        requires
            sample_rate * channels * 150 <= usize::MAX,
        ensures
            format is Other ==> r == Err::<Self, AudioError>(AudioError::UnsupportedSampleFormat),
            !(format is Other) ==> (r matches Ok(source) && {
                &&& source.samples() == Seq::<T>::empty()
                &&& source.limit() == buffer_limit(sample_rate, channels)
                &&& source.limit() * 1000 <= sample_rate * channels * 150
                &&& sample_rate * channels * 150 < (source.limit() + 1) * 1000
                &&& source.channel_count() == channels
                &&& source.rate() == sample_rate
                &&& source.wf()
            }),
    {
        proof {
            lemma_limit(sample_rate, channels);
        }
        let per_second: usize = sample_rate as usize * channels as usize;
        let cap: usize = per_second * 150 / 1000;
        match format {
            SampleFormat::Other => Err(AudioError::UnsupportedSampleFormat),
            _ => Ok(
                MicSource {
                    buf: VecDeque::with_capacity(cap * 2),
                    cap,
                    channels,
                    sample_rate,
                },
            ),
        }
    }

    /// Takes in samples of the microphone. The newest stay, as many as may wait.
    pub fn push(&mut self, samples: &[T])
        ensures
            final(self).samples() == newest(old(self).samples() + samples@, old(self).limit()),
            final(self).limit() == old(self).limit(),
            final(self).channel_count() == old(self).channel_count(),
            final(self).rate() == old(self).rate(),
            final(self).wf(),
    {
        let ghost before = self.buf@;
        let ghost all = before + samples@;
        let mut i: usize = 0;
        assert(before =~= before + samples@.take(0));
        while i < samples.len()
            invariant
                i <= samples@.len(),
                before == old(self).samples(),
                self.buf@ == before + samples@.take(i as int),
                self.cap == old(self).cap,
                self.channels == old(self).channels,
                self.sample_rate == old(self).sample_rate,
            decreases samples@.len() - i,
        {
            self.buf.push_back(samples[i]);
            assert(self.buf@ =~= before + samples@.take(i + 1));
            i = i + 1;
        }
        assert(samples@.take(i as int) =~= samples@);
        assert(self.buf@ =~= all.skip(0));
        let ghost mut dropped: int = 0;
        while self.buf.len() > self.cap
            invariant
                0 <= dropped <= all.len(),
                self.buf@ == all.skip(dropped),
                dropped > 0 ==> all.len() - dropped >= self.cap,
                self.cap == old(self).cap,
                self.channels == old(self).channels,
                self.sample_rate == old(self).sample_rate,
            decreases self.buf@.len(),
        {
            let _ = self.buf.pop_front();
            proof {
                assert(all.skip(dropped).subrange(1, all.skip(dropped).len() as int) =~= all.skip(
                    dropped + 1,
                ));
                dropped = dropped + 1;
            }
        }
        assert(self.buf@ =~= newest(all, self.cap as nat));
    }

    /// The next sample to play: the oldest that waits, or silence. While the
    /// microphone is switched off its samples are used up and silence is played.
    pub fn next(&mut self, enabled: bool, silence: T) -> (r: T)
        ensures
            r == if enabled && old(self).samples().len() > 0 {
                old(self).samples()[0]
            } else {
                silence
            },
            final(self).samples() == if old(self).samples().len() > 0 {
                old(self).samples().drop_first()
            } else {
                old(self).samples()
            },
            final(self).limit() == old(self).limit(),
            final(self).channel_count() == old(self).channel_count(),
            final(self).rate() == old(self).rate(),
            old(self).wf() ==> final(self).wf(),
    {
        let s = match self.buf.pop_front() {
            Some(s) => s,
            None => silence,
        };
        assert(old(self).samples().len() > 0 ==> self.buf@ =~= old(self).samples().drop_first());
        if enabled {
            s
        } else {
            silence
        }
    }

    /// The source has no end, so no frame has one.
    pub fn current_frame_len(&self) -> (r: Option<usize>)
        ensures
            r is None,
    {
        None
    }

    /// The number of channels.
    pub fn channels(&self) -> (r: u16)
        ensures
            r == self.channel_count(),
    {
        self.channels
    }

    /// The number of samples per second and channel.
    pub fn sample_rate(&self) -> (r: u32)
        ensures
            r == self.rate(),
    {
        self.sample_rate
    }
}

proof fn lemma_limit(sample_rate: u32, channels: u16)
    requires
        sample_rate * channels * 150 <= usize::MAX,
    ensures
        0 <= sample_rate * channels <= usize::MAX,
        buffer_limit(sample_rate, channels) * 2 <= usize::MAX,
{
    assert(0 <= sample_rate * channels) by (nonlinear_arith);
}

/// Taking in samples piece by piece leaves the same samples as taking them in at
/// once.
pub proof fn pieces_do_not_matter<T>(waiting: Seq<T>, a: Seq<T>, b: Seq<T>, limit: nat)
    ensures
        newest(newest(waiting + a, limit) + b, limit) == newest(waiting + (a + b), limit),
{
    let once = waiting + (a + b);
    let first = newest(waiting + a, limit) + b;
    assert(waiting + a + b =~= once);
    assert(newest(first, limit) =~= newest(once, limit));
}

/// No more than 150 milliseconds of sound wait.
pub proof fn delay_is_bounded<T>(waiting: Seq<T>, sample_rate: u32, channels: u16)
    requires
        waiting.len() <= buffer_limit(sample_rate, channels),
    ensures
        waiting.len() * 1000 <= sample_rate * channels * 150,
{
}

/// What waits after `n` samples were played.
pub open spec fn after_reads<T>(waiting: Seq<T>, n: nat) -> Seq<T>
    decreases n,
{
    if n == 0 {
        waiting
    } else {
        let before = after_reads(waiting, (n - 1) as nat);
        if before.len() > 0 {
            before.drop_first()
        } else {
            before
        }
    }
}

/// The `n` samples that are played first.
pub open spec fn reads<T>(waiting: Seq<T>, n: nat, silence: T) -> Seq<T>
    decreases n,
{
    if n == 0 {
        seq![]
    } else {
        let before = after_reads(waiting, (n - 1) as nat);
        reads(waiting, (n - 1) as nat, silence).push(
            if before.len() > 0 {
                before[0]
            } else {
                silence
            },
        )
    }
}

/// The samples are played in the order in which they came, then silence.
pub proof fn samples_keep_their_order<T>(waiting: Seq<T>, n: nat, silence: T)
    ensures
        reads(waiting, n, silence) == oldest(waiting, n, silence),
        after_reads(waiting, n) == if n <= waiting.len() {
            waiting.skip(n as int)
        } else {
            seq![]
        },
    decreases n,
{
    if n > 0 {
        let m = (n - 1) as nat;
        samples_keep_their_order(waiting, m, silence);
        assert(reads(waiting, n, silence) =~= oldest(waiting, n, silence));
        assert(after_reads(waiting, n) =~= if n <= waiting.len() {
            waiting.skip(n as int)
        } else {
            seq![]
        });
    } else {
        assert(reads(waiting, n, silence) =~= oldest(waiting, n, silence));
        assert(after_reads(waiting, n) =~= waiting.skip(0));
    }
}

// ---------------------------------------------------------------------------
// Opening devices
// ---------------------------------------------------------------------------

/// The next thing to do to open an output.
#[derive(Clone, Copy, PartialEq, Eq, Structural, Debug)]
pub enum OutputStage {
    /// Find the device.
    Device,
    /// Open the device.
    Stream,
    /// Make a player on the device.
    Player,
    /// Nothing; the output is open.
    Ready,
    /// Nothing; the output could not be opened.
    Failed(AudioError),
}

/// The next thing to do, after the last one succeeded or failed.
pub open spec fn output_step(s: OutputStage, ok: bool) -> OutputStage {
    match s {
        OutputStage::Device => if ok {
            OutputStage::Stream
        } else {
            OutputStage::Failed(AudioError::NoOutputDevice)
        },
        OutputStage::Stream => if ok {
            OutputStage::Player
        } else {
            OutputStage::Failed(AudioError::OutputNotOpened)
        },
        OutputStage::Player => if ok {
            OutputStage::Ready
        } else {
            OutputStage::Failed(AudioError::PlayerNotCreated)
        },
        OutputStage::Ready => s,
        OutputStage::Failed(_) => s,
    }
}

impl OutputStage {
    /// Takes note of whether what had to be done succeeded.
    pub fn answered(self, ok: bool) -> (r: Self)
        ensures
            r == output_step(self, ok),
    {
        match self {
            OutputStage::Device => if ok {
                OutputStage::Stream
            } else {
                OutputStage::Failed(AudioError::NoOutputDevice)
            },
            OutputStage::Stream => if ok {
                OutputStage::Player
            } else {
                OutputStage::Failed(AudioError::OutputNotOpened)
            },
            OutputStage::Player => if ok {
                OutputStage::Ready
            } else {
                OutputStage::Failed(AudioError::PlayerNotCreated)
            },
            OutputStage::Ready => OutputStage::Ready,
            OutputStage::Failed(e) => OutputStage::Failed(e),
        }
    }
}

/// The next thing to do to open an output, after these answers.
pub open spec fn output_after(answers: Seq<bool>) -> OutputStage
    decreases answers.len(),
{
    if answers.len() == 0 {
        OutputStage::Device
    } else {
        output_step(output_after(answers.drop_last()), answers.last())
    }
}

/// The steps that open an output, in order.
pub open spec fn output_stages() -> Seq<OutputStage> {
    seq![OutputStage::Device, OutputStage::Stream, OutputStage::Player, OutputStage::Ready]
}

/// How many steps succeeded before the first that failed.
pub open spec fn successes(answers: Seq<bool>) -> nat
    decreases answers.len(),
{
    if answers.len() == 0 {
        0
    } else {
        let before = successes(answers.drop_last());
        if before == answers.len() - 1 && answers.last() {
            before + 1
        } else {
            before
        }
    }
}

/// An output is open once all three steps have succeeded. The first step that fails
/// decides on the error, and nothing is done after it.
pub proof fn first_output_failure_decides(answers: Seq<bool>)
    ensures
        ({
            let n = successes(answers);
            output_after(answers) == if n >= 3 {
                OutputStage::Ready
            } else if n < answers.len() {
                output_step(output_stages()[n as int], false)
            } else {
                output_stages()[n as int]
            }
        }),
        successes(answers) <= answers.len(),
    decreases answers.len(),
{
    if answers.len() > 0 {
        first_output_failure_decides(answers.drop_last());
    }
}

/// The next thing to do to start the microphone.
#[derive(Clone, Copy, PartialEq, Eq, Structural, Debug)]
pub enum MicStage {
    /// Find the device.
    Device,
    /// Ask the device how it delivers its samples.
    Parameters,
    /// Make a source for such samples.
    Source,
    /// Open the device.
    Stream,
    /// Start the device.
    Play,
    /// Play the source on the output.
    Connect,
    /// Nothing; the microphone runs.
    Ready,
    /// Nothing; the microphone could not be started.
    Failed(AudioError),
    /// Nothing; the microphone could not be opened. The system says why.
    NotOpened,
}

/// The next thing to do, after the last one succeeded or failed.
pub open spec fn mic_step(s: MicStage, ok: bool) -> MicStage {
    if s is Ready || s is Failed || s is NotOpened {
        s
    } else if ok {
        match s {
            MicStage::Device => MicStage::Parameters,
            MicStage::Parameters => MicStage::Source,
            MicStage::Source => MicStage::Stream,
            MicStage::Stream => MicStage::Play,
            MicStage::Play => MicStage::Connect,
            _ => MicStage::Ready,
        }
    } else {
        match s {
            MicStage::Device => MicStage::Failed(AudioError::NoMicrophone),
            MicStage::Parameters => MicStage::Failed(AudioError::MicrophoneUnknown),
            MicStage::Source => MicStage::Failed(AudioError::UnsupportedSampleFormat),
            MicStage::Stream => MicStage::NotOpened,
            MicStage::Play => MicStage::Failed(AudioError::MicrophoneNotStarted),
            _ => MicStage::Failed(AudioError::MicrophoneNotConnected),
        }
    }
}

impl MicStage {
    /// Takes note of whether what had to be done succeeded.
    pub fn answered(self, ok: bool) -> (r: Self)
        ensures
            r == mic_step(self, ok),
    {
        match (self, ok) {
            (MicStage::Device, true) => MicStage::Parameters,
            (MicStage::Device, false) => MicStage::Failed(AudioError::NoMicrophone),
            (MicStage::Parameters, true) => MicStage::Source,
            (MicStage::Parameters, false) => MicStage::Failed(AudioError::MicrophoneUnknown),
            (MicStage::Source, true) => MicStage::Stream,
            (MicStage::Source, false) => MicStage::Failed(AudioError::UnsupportedSampleFormat),
            (MicStage::Stream, true) => MicStage::Play,
            (MicStage::Stream, false) => MicStage::NotOpened,
            (MicStage::Play, true) => MicStage::Connect,
            (MicStage::Play, false) => MicStage::Failed(AudioError::MicrophoneNotStarted),
            (MicStage::Connect, true) => MicStage::Ready,
            (MicStage::Connect, false) => MicStage::Failed(AudioError::MicrophoneNotConnected),
            (MicStage::Ready, _) => MicStage::Ready,
            (MicStage::Failed(e), _) => MicStage::Failed(e),
            (MicStage::NotOpened, _) => MicStage::NotOpened,
        }
    }
}

/// The next thing to do to start the microphone, after these answers.
pub open spec fn mic_after(answers: Seq<bool>) -> MicStage
    decreases answers.len(),
{
    if answers.len() == 0 {
        MicStage::Device
    } else {
        mic_step(mic_after(answers.drop_last()), answers.last())
    }
}

/// The steps that start the microphone, in order.
pub open spec fn mic_stages() -> Seq<MicStage> {
    seq![
        MicStage::Device,
        MicStage::Parameters,
        MicStage::Source,
        MicStage::Stream,
        MicStage::Play,
        MicStage::Connect,
        MicStage::Ready,
    ]
}

/// The microphone runs once all six steps have succeeded. The first step that fails
/// decides on the error, and nothing is done after it.
pub proof fn first_mic_failure_decides(answers: Seq<bool>)
    ensures
        ({
            let n = successes(answers);
            mic_after(answers) == if n >= 6 {
                MicStage::Ready
            } else if n < answers.len() {
                mic_step(mic_stages()[n as int], false)
            } else {
                mic_stages()[n as int]
            }
        }),
        successes(answers) <= answers.len(),
    decreases answers.len(),
{
    if answers.len() > 0 {
        first_mic_failure_decides(answers.drop_last());
    }
}

// ---------------------------------------------------------------------------
// Audio chain
// ---------------------------------------------------------------------------

/// An output of the audio chain: the virtual cable, or the headphones.
#[derive(Clone, Copy, PartialEq, Eq, Structural, Debug)]
pub enum Sink {
    Effects,
    Monitor,
}

/// What an output has to do.
#[derive(PartialEq, Eq, Debug)]
pub enum SinkCmd {
    /// Play a file, made louder by both factors.
    Play { sink: Sink, path: PathBuf, volume: Volume, effect_volume: Volume },
    Stop(Sink),
    SetVolume(Sink, Volume),
}

/// The outputs that sounds go to.
pub open spec fn sinks(has_monitor: bool) -> Seq<Sink> {
    if has_monitor {
        seq![Sink::Effects, Sink::Monitor]
    } else {
        seq![Sink::Effects]
    }
}

/// The audio chain while it runs.
#[derive(Clone, Copy, PartialEq, Eq, Structural, Debug)]
pub struct AudioEngine {
    pub has_monitor: bool,
    pub has_mic: bool,
    pub mic_enabled: bool,
    pub effect_volume: Volume,
}

/// The audio chain for the given settings, after it was tried to open the output,
/// the monitor output, and the microphone. Only the output is indispensable.
pub open spec fn engine_for(cfg: Settings, output: bool, monitor: bool, mic: bool) -> Option<
    AudioEngine,
> {
    if output {
        Some(
            AudioEngine {
                has_monitor: cfg.monitor_device is Some && monitor,
                has_mic: mic,
                mic_enabled: cfg.mic_passthrough,
                effect_volume: cfg.effect_volume,
            },
        )
    } else {
        None
    }
}

/// What has to be opened next.
#[derive(PartialEq, Eq, Debug)]
pub enum SetupRequest {
    OpenOutput(Option<String>),
    OpenMonitor(String),
    StartMic(Option<String>),
    Ready,
    Failed,
}

/// How far the audio chain is set up.
#[derive(Clone, Copy, PartialEq, Eq, Structural, Debug)]
pub enum Stage {
    Output,
    Monitor,
    Mic,
    Ready,
    Failed,
}

/// The audio chain while it is set up.
#[derive(Clone, Copy, PartialEq, Eq, Structural, Debug)]
pub struct EngineSetup {
    pub stage: Stage,
    pub has_monitor: bool,
    pub has_mic: bool,
}

/// The setup after what was asked for was opened, or could not be.
pub open spec fn setup_step(s: EngineSetup, cfg: Settings, ok: bool) -> EngineSetup {
    match s.stage {
        Stage::Output => if !ok {
            EngineSetup { stage: Stage::Failed, ..s }
        } else if cfg.monitor_device is Some {
            EngineSetup { stage: Stage::Monitor, ..s }
        } else {
            EngineSetup { stage: Stage::Mic, ..s }
        },
        Stage::Monitor => EngineSetup { stage: Stage::Mic, has_monitor: ok, ..s },
        Stage::Mic => EngineSetup { stage: Stage::Ready, has_mic: ok, ..s },
        Stage::Ready => s,
        Stage::Failed => s,
    }
}

/// The setup before anything was opened.
pub open spec fn setup_start() -> EngineSetup {
    EngineSetup { stage: Stage::Output, has_monitor: false, has_mic: false }
}

impl EngineSetup {
    /// Nothing is opened yet.
    pub fn new() -> (r: Self)
        ensures
            r == setup_start(),
    {
        EngineSetup { stage: Stage::Output, has_monitor: false, has_mic: false }
    }

    /// What has to be opened next.
    pub fn request(&self, cfg: &AppConfig) -> (r: SetupRequest)
        ensures
            match self.stage {
                Stage::Output => r matches SetupRequest::OpenOutput(d) && opt_text(d)
                    == cfg@.output_device,
                Stage::Monitor => if cfg@.monitor_device is Some {
                    r matches SetupRequest::OpenMonitor(d) && Some(d@) == cfg@.monitor_device
                } else {
                    r is Failed
                },
                Stage::Mic => r matches SetupRequest::StartMic(d) && opt_text(d)
                    == cfg@.input_device,
                Stage::Ready => r is Ready,
                Stage::Failed => r is Failed,
            },
    {
        match self.stage {
            Stage::Output => SetupRequest::OpenOutput(cfg.output_device.clone()),
            Stage::Monitor => match &cfg.monitor_device {
                Some(name) => SetupRequest::OpenMonitor(name.clone()),
                None => SetupRequest::Failed,
            },
            Stage::Mic => SetupRequest::StartMic(cfg.input_device.clone()),
            Stage::Ready => SetupRequest::Ready,
            Stage::Failed => SetupRequest::Failed,
        }
    }

    /// Takes note of whether what was asked for could be opened.
    pub fn answered(&mut self, cfg: &AppConfig, ok: bool)
        ensures
            *final(self) == setup_step(*old(self), cfg@, ok),
    {
        match self.stage {
            Stage::Output => {
                if !ok {
                    self.stage = Stage::Failed;
                } else if cfg.monitor_device.is_some() {
                    self.stage = Stage::Monitor;
                } else {
                    self.stage = Stage::Mic;
                }
            },
            Stage::Monitor => {
                self.has_monitor = ok;
                self.stage = Stage::Mic;
            },
            Stage::Mic => {
                self.has_mic = ok;
                self.stage = Stage::Ready;
            },
            Stage::Ready => {},
            Stage::Failed => {},
        }
    }
}

/// The chain runs exactly if the output could be opened. A monitor output is only
/// asked for where one is set, and neither it nor the microphone is indispensable. The
/// microphone is asked for even if it is switched off.
pub proof fn setup_leads_to_the_engine(cfg: Settings, output: bool, monitor: bool, mic: bool)
    ensures
        ({
            let s1 = setup_step(setup_start(), cfg, output);
            let s2 = if s1.stage is Monitor {
                setup_step(s1, cfg, monitor)
            } else {
                s1
            };
            let s3 = setup_step(s2, cfg, mic);
            &&& engine_of(s3, cfg) == engine_for(cfg, output, monitor, mic)
            &&& s1.stage is Monitor <==> output && cfg.monitor_device is Some
            &&& s2.stage is Mic <==> output
            &&& s3.stage is Ready || s3.stage is Failed
            &&& s3.stage is Failed <==> !output
        }),
{
}

/// The running chain, once all is opened.
pub open spec fn engine_of(s: EngineSetup, cfg: Settings) -> Option<AudioEngine> {
    if s.stage is Ready {
        Some(
            AudioEngine {
                has_monitor: s.has_monitor,
                has_mic: s.has_mic,
                mic_enabled: cfg.mic_passthrough,
                effect_volume: cfg.effect_volume,
            },
        )
    } else {
        None
    }
}

/// What makes all outputs as loud as `volume`.
pub open spec fn volume_commands(has_monitor: bool, volume: Volume) -> Seq<SinkCmd> {
    sinks(has_monitor).map_values(|sink: Sink| SinkCmd::SetVolume(sink, volume))
}

/// How loud an output is after it was told to do something, if it was told how loud
/// to be.
pub open spec fn volume_after(before: Option<Volume>, cmds: Seq<SinkCmd>, sink: Sink) -> Option<
    Volume,
>
    decreases cmds.len(),
{
    if cmds.len() == 0 {
        before
    } else {
        match cmds.last() {
            SinkCmd::SetVolume(s, v) if s == sink => Some(v),
            _ => volume_after(before, cmds.drop_last(), sink),
        }
    }
}

/// Every output that sounds go to is made as loud as is said, whatever it was before.
pub proof fn all_outputs_get_the_volume(
    before: Option<Volume>,
    has_monitor: bool,
    volume: Volume,
    sink: Sink,
)
    requires
        sinks(has_monitor).contains(sink),
    ensures
        volume_after(before, volume_commands(has_monitor, volume), sink) == Some(volume),
{
    reveal_with_fuel(volume_after, 3);
    let cmds = volume_commands(has_monitor, volume);
    if has_monitor {
        assert(cmds.last() == SinkCmd::SetVolume(Sink::Monitor, volume));
        assert(cmds.drop_last().last() == SinkCmd::SetVolume(Sink::Effects, volume));
    } else {
        assert(cmds.last() == SinkCmd::SetVolume(Sink::Effects, volume));
    }
}

/// Sets the volume of all outputs.
fn volumes(has_monitor: bool, volume: Volume) -> (r: Vec<SinkCmd>)
    ensures
        r@ == volume_commands(has_monitor, volume),
{
    let mut r: Vec<SinkCmd> = Vec::new();
    r.push(SinkCmd::SetVolume(Sink::Effects, volume));
    if has_monitor {
        r.push(SinkCmd::SetVolume(Sink::Monitor, volume));
    }
    assert(r@ =~= volume_commands(has_monitor, volume));
    r
}

impl AudioEngine {
    /// The running chain, once all is opened, and what its outputs have to do first:
    /// be as loud as the effects are set.
    pub fn new(cfg: &AppConfig, setup: &EngineSetup) -> (r: Option<(Self, Vec<SinkCmd>)>)
        ensures
            match r {
                Some((engine, cmds)) => {
                    &&& engine_of(*setup, cfg@) == Some(engine)
                    &&& cmds@ == volume_commands(engine.has_monitor, cfg@.effect_volume)
                },
                None => engine_of(*setup, cfg@) is None,
            },
    {
        match setup.stage {
            Stage::Ready => Some(
                (
                    AudioEngine {
                        has_monitor: setup.has_monitor,
                        has_mic: setup.has_mic,
                        mic_enabled: cfg.mic_passthrough,
                        effect_volume: cfg.effect_volume,
                    },
                    volumes(setup.has_monitor, cfg.effect_volume),
                ),
            ),
            _ => None,
        }
    }

    /// Plays a sound on all outputs, as loud as both the sound and the effects are
    /// set.
    pub fn play(&self, path: &PathBuf, volume: Volume) -> (r: Vec<SinkCmd>)
        ensures
            r@ == sinks(self.has_monitor).map_values(
                |sink: Sink|
                    SinkCmd::Play { sink, path: *path, volume, effect_volume: self.effect_volume },
            ),
    {
        let mut r: Vec<SinkCmd> = Vec::new();
        r.push(
            SinkCmd::Play {
                sink: Sink::Effects,
                path: path.clone(),
                volume,
                effect_volume: self.effect_volume,
            },
        );
        if self.has_monitor {
            r.push(
                SinkCmd::Play {
                    sink: Sink::Monitor,
                    path: path.clone(),
                    volume,
                    effect_volume: self.effect_volume,
                },
            );
        }
        r
    }

    /// Stops all sounds on all outputs.
    pub fn stop_all(&self) -> (r: Vec<SinkCmd>)
        ensures
            r@ == sinks(self.has_monitor).map_values(|sink: Sink| SinkCmd::Stop(sink)),
    {
        let mut r: Vec<SinkCmd> = Vec::new();
        r.push(SinkCmd::Stop(Sink::Effects));
        if self.has_monitor {
            r.push(SinkCmd::Stop(Sink::Monitor));
        }
        r
    }

    /// Switches the microphone on or off while the chain runs.
    pub fn set_mic_passthrough(&mut self, on: bool)
        ensures
            *final(self) == (AudioEngine { mic_enabled: on, ..*old(self) }),
    {
        self.mic_enabled = on;
    }

    /// Changes how loud the effects are while the chain runs, on all outputs.
    pub fn set_effect_volume(&mut self, v: Volume) -> (r: Vec<SinkCmd>)
        ensures
            *final(self) == (AudioEngine { effect_volume: v, ..*old(self) }),
            r@ == volume_commands(old(self).has_monitor, v),
    {
        self.effect_volume = v;
        volumes(self.has_monitor, v)
    }
}

} // verus!
