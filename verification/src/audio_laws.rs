//! Laws of audio: which devices are found, how much sound waits, and what is sent where,
//! said of names, samples and commands themselves.

use crate::audio::{
    after_reads, buffer_limit, engine_of, first_cable, is_cable, is_choice, listed, mic_after,
    newest, output_after, readable, reads, setup_start, setup_step, sinks, volume_commands, AudioError,
    DeviceChoice, MicStage, OutputStage, Sink, SinkCmd,
};
use crate::config::{Settings, Volume};
use crate::text_laws::occurring_is_being_a_part;
use vstd::prelude::*;

verus! {

// ---------------------------------------------------------------------------
// Devices
// ---------------------------------------------------------------------------

/// A device is the virtual cable exactly if `CABLE Input` stands somewhere in its name.
pub proof fn the_cable_is_known_by_its_name(name: Seq<char>)
    ensures
        is_cable(name) <==> exists|a: Seq<char>, b: Seq<char>|
            name == #[trigger] (a + "CABLE Input"@ + b),
{
    occurring_is_being_a_part(name, "CABLE Input"@);
}

/// The device to start with is the first in whose name `CABLE Input` stands.
pub proof fn the_first_cable_is_found(names: Seq<Seq<char>>, i: int)
    requires
        0 <= i < names.len(),
        is_cable(names[i]),
        forall|j: int| 0 <= j < i ==> !is_cable(#[trigger] names[j]),
    ensures
        first_cable(names) == Some(names[i]),
    decreases names.len(),
{
    if i > 0 {
        assert(!is_cable(names[0]));
        let rest = names.drop_first();
        assert forall|j: int| 0 <= j < i - 1 implies !is_cable(#[trigger] rest[j]) by {
            assert(rest[j] == names[j + 1]);
        }
        the_first_cable_is_found(rest, i - 1);
    }
}

/// Without the cable there is no device to start with.
pub proof fn no_cable_is_found(names: Seq<Seq<char>>)
    requires
        forall|j: int| 0 <= j < names.len() ==> !is_cable(#[trigger] names[j]),
    ensures
        first_cable(names) is None,
    decreases names.len(),
{
    if names.len() > 0 {
        assert(!is_cable(names[0]));
        let rest = names.drop_first();
        assert forall|j: int| 0 <= j < rest.len() implies !is_cable(#[trigger] rest[j]) by {
            assert(rest[j] == names[j + 1]);
        }
        no_cable_is_found(rest);
    }
}

/// The device that is used is the first of the wanted name; without a device of that
/// name, or without a wanted name, it is the default device; and without that, using a
/// device fails as it should.
pub proof fn the_wanted_device_is_used(
    wanted: Option<Seq<char>>,
    names: Seq<Option<Seq<char>>>,
    has_default: bool,
    none: AudioError,
    r: Result<DeviceChoice, AudioError>,
)
    requires
        is_choice(wanted, names, has_default, none, r),
    ensures
        forall|i: int|
            0 <= i < names.len() && wanted is Some && #[trigger] names[i] == wanted && (forall|j: int|
                0 <= j < i ==> #[trigger] names[j] != wanted) ==> (r matches Ok(DeviceChoice::Listed(at))
                && at == i),
        (wanted is None || forall|i: int| 0 <= i < names.len() ==> #[trigger] names[i] != wanted) ==> {
            &&& has_default ==> (r matches Ok(DeviceChoice::Default))
            &&& !has_default ==> (r matches Err(e) && e == none)
        },
{
    if wanted is Some && names.contains(wanted) {
        let k = choose|k: int| 0 <= k < names.len() && names[k] == wanted;
        assert(names[k] == wanted);
    }
}

/// The names of devices that can be read are all there, in order, and there is no other:
/// names come device by device, one that cannot be read gives none.
pub proof fn readable_names_come_device_by_device(
    a: Seq<Option<Seq<char>>>,
    b: Seq<Option<Seq<char>>>,
    name: Seq<char>,
)
    ensures
        readable(a + b) == readable(a) + readable(b),
        readable(seq![Some(name)]) == seq![name],
        readable(seq![None::<Seq<char>>]) == Seq::<Seq<char>>::empty(),
        listed(Some(a)) == readable(a),
        listed(None) == Seq::<Seq<char>>::empty(),
    decreases b.len(),
{
    reveal_with_fuel(readable, 2);
    assert(seq![Some(name)].drop_last() =~= Seq::<Option<Seq<char>>>::empty());
    assert(seq![None::<Seq<char>>].drop_last() =~= Seq::<Option<Seq<char>>>::empty());
    assert(readable(seq![Some(name)]) =~= seq![name]);
    assert(readable(seq![None::<Seq<char>>]) =~= Seq::<Seq<char>>::empty());
    if b.len() == 0 {
        assert(a + b =~= a);
        assert(readable(a + b) =~= readable(a) + readable(b));
    } else {
        readable_names_come_device_by_device(a, b.drop_last(), name);
        assert((a + b).drop_last() =~= a + b.drop_last());
        assert((a + b).last() == b.last());
        assert(readable(a + b) =~= readable(a) + readable(b));
    }
}

// ---------------------------------------------------------------------------
// The microphone
// ---------------------------------------------------------------------------

/// The buffer of a microphone holds 150 milliseconds of sound: as many whole samples as
/// fit into that time, and no fewer.
pub proof fn the_buffer_holds_150_milliseconds(sample_rate: u32, channels: u16)
    ensures
        ({
            let n = buffer_limit(sample_rate, channels);
            &&& n >= 0
            &&& n * 1000 <= sample_rate * channels * 150
            &&& sample_rate * channels * 150 < (n + 1) * 1000
        }),
{
    assert(0 <= sample_rate * channels) by (nonlinear_arith);
}

/// No sample is dropped while what waits takes no longer than 150 milliseconds.
pub proof fn nothing_is_dropped_within_150_milliseconds<T>(
    waiting: Seq<T>,
    more: Seq<T>,
    sample_rate: u32,
    channels: u16,
)
    requires
        (waiting.len() + more.len()) * 1000 <= sample_rate * channels * 150,
    ensures
        newest(waiting + more, buffer_limit(sample_rate, channels) as nat) == waiting + more,
{
    the_buffer_holds_150_milliseconds(sample_rate, channels);
}

/// What stays in a buffer are the newest samples, in order: as many as fit, or all.
pub proof fn the_newest_samples_stay<T>(s: Seq<T>, limit: nat, i: int)
    ensures
        newest(s, limit).len() == if s.len() <= limit {
            s.len()
        } else {
            limit
        },
        0 <= i < newest(s, limit).len() ==> newest(s, limit)[newest(s, limit).len() - 1 - i] == s[s.len()
            - 1 - i],
{
}

/// A block that fits into the buffer comes out again as it came in, and then silence.
pub proof fn a_block_is_forwarded<T>(
    block: Seq<T>,
    n: nat,
    silence: T,
    sample_rate: u32,
    channels: u16,
    i: int,
)
    requires
        block.len() * 1000 <= sample_rate * channels * 150,
        0 <= i < n,
    ensures
        ({
            let waiting = newest(Seq::<T>::empty() + block, buffer_limit(sample_rate, channels) as nat);
            reads(waiting, n, silence)[i] == if i < block.len() {
                block[i]
            } else {
                silence
            }
        }),
        reads(block, n, silence).len() == n,
        after_reads(block, block.len()) == Seq::<T>::empty(),
{
    nothing_is_dropped_within_150_milliseconds(Seq::<T>::empty(), block, sample_rate, channels);
    assert(Seq::<T>::empty() + block =~= block);
    crate::audio::samples_keep_their_order(block, n, silence);
    crate::audio::samples_keep_their_order(block, block.len(), silence);
    assert(block.skip(block.len() as int) =~= Seq::<T>::empty());
}

// ---------------------------------------------------------------------------
// Opening devices
// ---------------------------------------------------------------------------

/// What opening an output comes to: each of the three steps has an error of its own, and
/// the output is open if none of them fails.
pub proof fn opening_an_output(device: bool, stream: bool, player: bool)
    ensures
        output_after(seq![device, stream, player]) == if !device {
            OutputStage::Failed(AudioError::NoOutputDevice)
        } else if !stream {
            OutputStage::Failed(AudioError::OutputNotOpened)
        } else if !player {
            OutputStage::Failed(AudioError::PlayerNotCreated)
        } else {
            OutputStage::Ready
        },
{
    reveal_with_fuel(output_after, 4);
    let a = seq![device, stream, player];
    assert(a.drop_last() =~= seq![device, stream]);
    assert(a.drop_last().drop_last() =~= seq![device]);
    assert(a.drop_last().drop_last().drop_last() =~= Seq::<bool>::empty());
}

/// What starting the microphone comes to: each of the six steps has an error of its own,
/// but that of the system where the device cannot be opened, and the microphone runs if
/// none of them fails.
pub proof fn starting_the_microphone(
    device: bool,
    parameters: bool,
    source: bool,
    stream: bool,
    play: bool,
    connect: bool,
)
    ensures
        mic_after(seq![device, parameters, source, stream, play, connect]) == if !device {
            MicStage::Failed(AudioError::NoMicrophone)
        } else if !parameters {
            MicStage::Failed(AudioError::MicrophoneUnknown)
        } else if !source {
            MicStage::Failed(AudioError::UnsupportedSampleFormat)
        } else if !stream {
            MicStage::NotOpened
        } else if !play {
            MicStage::Failed(AudioError::MicrophoneNotStarted)
        } else if !connect {
            MicStage::Failed(AudioError::MicrophoneNotConnected)
        } else {
            MicStage::Ready
        },
{
    reveal_with_fuel(mic_after, 7);
    let a6 = seq![device, parameters, source, stream, play, connect];
    let a5 = a6.drop_last();
    let a4 = a5.drop_last();
    let a3 = a4.drop_last();
    let a2 = a3.drop_last();
    let a1 = a2.drop_last();
    assert(a5 =~= seq![device, parameters, source, stream, play]);
    assert(a4 =~= seq![device, parameters, source, stream]);
    assert(a3 =~= seq![device, parameters, source]);
    assert(a2 =~= seq![device, parameters]);
    assert(a1 =~= seq![device]);
    assert(a1.drop_last() =~= Seq::<bool>::empty());
}

/// The chain that runs at last has a monitor and a microphone if they could be opened,
/// and its switch and its loudness are those of the settings.
pub proof fn the_chain_follows_the_settings(cfg: Settings, monitor: bool, mic: bool)
    ensures
        ({
            let s1 = setup_step(setup_start(), cfg, true);
            let s2 = if cfg.monitor_device is Some {
                setup_step(s1, cfg, monitor)
            } else {
                s1
            };
            let e = engine_of(setup_step(s2, cfg, mic), cfg);
            &&& e is Some
            &&& e->0.has_monitor == (cfg.monitor_device is Some && monitor)
            &&& e->0.has_mic == mic
            &&& e->0.mic_enabled == cfg.mic_passthrough
            &&& e->0.effect_volume == cfg.effect_volume
        }),
        ({
            let failed = setup_step(setup_start(), cfg, false);
            failed.stage is Failed && engine_of(failed, cfg) is None
        }),
{
}

// ---------------------------------------------------------------------------
// Outputs
// ---------------------------------------------------------------------------

/// Sounds always go to the output, and to the monitor exactly if there is one, once each,
/// the output first.
pub proof fn sounds_go_to_every_output(has_monitor: bool)
    ensures
        sinks(has_monitor).len() == if has_monitor {
            2int
        } else {
            1
        },
        sinks(has_monitor)[0] == Sink::Effects,
        has_monitor ==> sinks(has_monitor)[1] == Sink::Monitor,
{
}

/// Every output is told the same loudness, the one that was set, and nothing else.
pub proof fn every_output_is_told_the_loudness(has_monitor: bool, v: Volume, i: int)
    ensures
        volume_commands(has_monitor, v).len() == if has_monitor {
            2int
        } else {
            1
        },
        0 <= i < volume_commands(has_monitor, v).len() ==> volume_commands(has_monitor, v)[i]
            == SinkCmd::SetVolume(
            if i == 0 {
                Sink::Effects
            } else {
                Sink::Monitor
            },
            v,
        ),
{
}

} // verus!
