use std::path::PathBuf;
use vocieplayer::audio::{
    find_input_device, find_output_device, guess_cable_output, input_devices, output_devices,
    vbcable_installed, AudioEngine, AudioError,
    DeviceChoice, EngineSetup, MicSource, MicStage, OutputStage, SampleFormat, SetupRequest, Sink, SinkCmd,
};
use vocieplayer::config::{AppConfig, ExternalProfiles, RepeatMode, Volume};

fn strings(list: &[&str]) -> Vec<String> {
    list.iter().map(|s| s.to_string()).collect()
}

fn vol(v: f32) -> Volume {
    Volume { bits: v.to_bits() }
}

fn config(monitor: Option<&str>) -> AppConfig {
    AppConfig {
        output_device: Some("CABLE Input".to_string()),
        input_device: None,
        monitor_device: monitor.map(|s| s.to_string()),
        effect_volume: vol(0.5),
        mic_passthrough: true,
        repeat_mode: RepeatMode::Overlap,
        autostart: false,
        stop_hotkey: None,
        active_profile: None,
        external_profiles: ExternalProfiles::new(),
    }
}

#[test]
fn the_cable_is_recognised_by_its_name() {
    let with = strings(&["Speakers", "CABLE Input (VB-Audio Virtual Cable)", "CABLE Input 2"]);
    let without = strings(&["Speakers", "CABLE Output", "cable input"]);
    assert!(vbcable_installed(&with));
    assert!(!vbcable_installed(&without));
    assert_eq!(guess_cable_output(&with), Some("CABLE Input (VB-Audio Virtual Cable)".to_string()));
    assert_eq!(guess_cable_output(&without), None);
    assert_eq!(guess_cable_output(&Vec::new()), None);
}

#[test]
fn the_first_device_of_the_wanted_name_is_used() {
    let names = vec![Some("a".to_string()), None, Some("b".to_string()), Some("b".to_string())];
    assert_eq!(find_output_device(&Some("b".to_string()), &names, true), Ok(DeviceChoice::Listed(2)));
    assert_eq!(find_output_device(&Some("b".to_string()), &names, false), Ok(DeviceChoice::Listed(2)));
    assert_eq!(find_input_device(&Some("a".to_string()), &names, true), Ok(DeviceChoice::Listed(0)));
}

#[test]
fn missing_devices_fall_back_to_the_default() {
    let names = vec![Some("a".to_string())];
    assert_eq!(find_output_device(&Some("x".to_string()), &names, true), Ok(DeviceChoice::Default));
    assert_eq!(find_output_device(&None, &names, true), Ok(DeviceChoice::Default));
    assert_eq!(find_output_device(&None, &names, false), Err(AudioError::NoOutputDevice));
    assert_eq!(find_input_device(&Some("x".to_string()), &names, false), Err(AudioError::NoMicrophone));
}

#[test]
fn errors_have_messages() {
    assert_eq!(AudioError::NoOutputDevice.message(), "没有可用的输出设备");
    assert_eq!(AudioError::NoMicrophone.message(), "没有可用的麦克风");
    assert_eq!(AudioError::OutputNotOpened.message(), "打开输出设备失败（该设备可能被独占占用）");
    assert_eq!(AudioError::PlayerNotCreated.message(), "创建音效播放器失败");
    assert_eq!(AudioError::MicrophoneUnknown.message(), "读取麦克风默认参数失败");
    assert_eq!(AudioError::UnsupportedSampleFormat.message(), "不支持的麦克风采样格式");
    assert_eq!(AudioError::MicrophoneNotStarted.message(), "启动麦克风流失败");
    assert_eq!(AudioError::MicrophoneNotConnected.message(), "把麦克风接入输出失败");
}

#[test]
fn samples_come_out_in_order_and_then_silence() {
    let mut mic: MicSource<f32> = MicSource::start(1, 1000, SampleFormat::F32).unwrap();
    mic.push(&[0.1, 0.2]);
    mic.push(&[0.3]);
    assert_eq!(mic.next(true, 0.0), 0.1);
    assert_eq!(mic.next(true, 0.0), 0.2);
    assert_eq!(mic.next(true, 0.0), 0.3);
    assert_eq!(mic.next(true, 0.0), 0.0);
    assert_eq!(mic.channels(), 1);
    assert_eq!(mic.sample_rate(), 1000);
    assert_eq!(mic.current_frame_len(), None);
}

#[test]
fn at_most_150_milliseconds_wait() {
    let mut mic: MicSource<u32> = MicSource::start(2, 1000, SampleFormat::I16).unwrap();
    let samples: Vec<u32> = (1..=1000).collect();
    mic.push(&samples);
    for i in 701..=1000 {
        assert_eq!(mic.next(true, 0), i);
    }
    assert_eq!(mic.next(true, 0), 0);
}

#[test]
fn pieces_leave_the_same_samples() {
    let samples: Vec<u32> = (1..=500).collect();
    let mut whole: MicSource<u32> = MicSource::start(1, 1000, SampleFormat::U16).unwrap();
    whole.push(&samples);
    let mut pieces: MicSource<u32> = MicSource::start(1, 1000, SampleFormat::U16).unwrap();
    for chunk in samples.chunks(7) {
        pieces.push(chunk);
    }
    for _ in 0..160 {
        assert_eq!(whole.next(true, 0), pieces.next(true, 0));
    }
}

#[test]
fn a_muted_microphone_is_silent_but_moves_on() {
    let mut mic: MicSource<u32> = MicSource::start(1, 1000, SampleFormat::F32).unwrap();
    mic.push(&[7, 8]);
    assert_eq!(mic.next(false, 0), 0);
    assert_eq!(mic.next(true, 0), 8);
}

#[test]
fn a_slow_microphone_buffers_nothing() {
    let mut mic: MicSource<u32> = MicSource::start(1, 6, SampleFormat::F32).unwrap();
    mic.push(&[7, 8]);
    assert_eq!(mic.next(true, 0), 0);
}

#[test]
fn other_sample_formats_are_refused() {
    let r: Result<MicSource<u32>, AudioError> = MicSource::start(2, 48000, SampleFormat::Other);
    assert!(matches!(r, Err(AudioError::UnsupportedSampleFormat)));
}

#[test]
fn the_chain_is_set_up_in_order() {
    let cfg = config(Some("Headphones"));
    let mut setup = EngineSetup::new();
    assert_eq!(setup.request(&cfg), SetupRequest::OpenOutput(Some("CABLE Input".to_string())));
    setup.answered(&cfg, true);
    assert_eq!(setup.request(&cfg), SetupRequest::OpenMonitor("Headphones".to_string()));
    setup.answered(&cfg, true);
    assert_eq!(setup.request(&cfg), SetupRequest::StartMic(None));
    assert_eq!(AudioEngine::new(&cfg, &setup), None);
    setup.answered(&cfg, false);
    assert_eq!(setup.request(&cfg), SetupRequest::Ready);
    let (engine, cmds) = AudioEngine::new(&cfg, &setup).unwrap();
    assert_eq!(
        cmds,
        vec![SinkCmd::SetVolume(Sink::Effects, vol(0.5)), SinkCmd::SetVolume(Sink::Monitor, vol(0.5))]
    );
    assert_eq!(
        engine,
        AudioEngine { has_monitor: true, has_mic: false, mic_enabled: true, effect_volume: vol(0.5) }
    );
}

#[test]
fn only_the_output_is_indispensable() {
    let cfg = config(None);
    let mut setup = EngineSetup::new();
    setup.answered(&cfg, false);
    assert_eq!(setup.request(&cfg), SetupRequest::Failed);
    setup.answered(&cfg, true);
    assert_eq!(setup.request(&cfg), SetupRequest::Failed);
    assert_eq!(AudioEngine::new(&cfg, &setup), None);

    let cfg = config(Some("Headphones"));
    let mut setup = EngineSetup::new();
    setup.answered(&cfg, true);
    setup.answered(&cfg, false);
    setup.answered(&cfg, true);
    let (engine, cmds) = AudioEngine::new(&cfg, &setup).unwrap();
    assert_eq!(cmds, vec![SinkCmd::SetVolume(Sink::Effects, vol(0.5))]);
    assert!(!engine.has_monitor);
    assert!(engine.has_mic);
}

#[test]
fn no_monitor_is_opened_unless_set() {
    let cfg = config(None);
    let mut setup = EngineSetup::new();
    setup.answered(&cfg, true);
    assert_eq!(setup.request(&cfg), SetupRequest::StartMic(None));
}

#[test]
fn sounds_go_to_all_outputs() {
    let mut engine =
        AudioEngine { has_monitor: true, has_mic: true, mic_enabled: true, effect_volume: vol(0.5) };
    let path = PathBuf::from("a.mp3");
    let play = |sink| SinkCmd::Play {
        sink,
        path: path.clone(),
        volume: vol(0.25),
        effect_volume: vol(0.5),
    };
    assert_eq!(engine.play(&path, vol(0.25)), vec![play(Sink::Effects), play(Sink::Monitor)]);
    assert_eq!(engine.stop_all(), vec![SinkCmd::Stop(Sink::Effects), SinkCmd::Stop(Sink::Monitor)]);
    assert_eq!(
        engine.set_effect_volume(vol(1.5)),
        vec![SinkCmd::SetVolume(Sink::Effects, vol(1.5)), SinkCmd::SetVolume(Sink::Monitor, vol(1.5))]
    );
    assert_eq!(engine.effect_volume, vol(1.5));
    engine.set_mic_passthrough(false);
    assert!(!engine.mic_enabled);
    engine.has_monitor = false;
    assert_eq!(engine.stop_all(), vec![SinkCmd::Stop(Sink::Effects)]);
    assert_eq!(engine.play(&path, vol(0.25)).len(), 1);
}

#[test]
fn the_first_step_that_fails_keeps_an_output_closed() {
    let errors = [AudioError::NoOutputDevice, AudioError::OutputNotOpened, AudioError::PlayerNotCreated];
    for (failing, error) in errors.into_iter().enumerate() {
        let mut stage = OutputStage::Device;
        for i in 0..3 {
            stage = stage.answered(i != failing);
        }
        assert_eq!(stage, OutputStage::Failed(error));
    }
    let stage = OutputStage::Device.answered(true);
    assert_eq!(stage, OutputStage::Stream);
    assert_eq!(stage.answered(true), OutputStage::Player);
    assert_eq!(stage.answered(true).answered(true), OutputStage::Ready);
    assert_eq!(OutputStage::Ready.answered(false), OutputStage::Ready);
}

#[test]
fn the_first_step_that_fails_keeps_the_microphone_off() {
    let ends = [
        MicStage::Failed(AudioError::NoMicrophone),
        MicStage::Failed(AudioError::MicrophoneUnknown),
        MicStage::Failed(AudioError::UnsupportedSampleFormat),
        MicStage::NotOpened,
        MicStage::Failed(AudioError::MicrophoneNotStarted),
        MicStage::Failed(AudioError::MicrophoneNotConnected),
        MicStage::Ready,
    ];
    for (failing, end) in ends.into_iter().enumerate() {
        let mut stage = MicStage::Device;
        for i in 0..6 {
            stage = stage.answered(i != failing);
        }
        assert_eq!(stage, end);
        assert_eq!(stage.answered(true), end);
        assert_eq!(stage.answered(false), end);
    }
    let order = [MicStage::Parameters, MicStage::Source, MicStage::Stream, MicStage::Play, MicStage::Connect];
    let mut stage = MicStage::Device;
    for next in order {
        stage = stage.answered(true);
        assert_eq!(stage, next);
    }
}

#[test]
fn devices_without_a_readable_name_are_left_out() {
    let names = || Some(vec![None, Some("a".to_string()), None, Some("b".to_string()), Some("a".to_string())]);
    assert_eq!(output_devices(names()), strings(&["a", "b", "a"]));
    assert_eq!(input_devices(names()), strings(&["a", "b", "a"]));
    assert_eq!(output_devices(Some(vec![None])), Vec::<String>::new());
    assert_eq!(output_devices(None), Vec::<String>::new());
    assert_eq!(input_devices(None), Vec::<String>::new());
}
