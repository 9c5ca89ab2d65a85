use meeting_recorder::{mix_sample, mono_to_stereo, output_format, Mixer, MixerAction, SourceFormat};

fn sine(n: usize, freq: f32) -> i16 {
    ((n as f32 * freq * 2.0 * std::f32::consts::PI / 48000.0).sin() * 8000.0) as i16
}

#[test]
fn test_stereo_mixing() {
    let mic_left = 1000i16;
    let mic_right = 2000i16;
    let sys_left = 3000i16;
    let sys_right = 4000i16;

    let mixed_left = mix_sample(mic_left, sys_left);
    let mixed_right = mix_sample(mic_right, sys_right);

    assert_eq!(mixed_left, 4000);
    assert_eq!(mixed_right, 6000);
}

#[test]
fn test_mixing_with_clipping() {
    let mic = 20000i16;
    let sys = 20000i16;

    let mixed = mix_sample(mic, sys);

    assert_eq!(mixed, i16::MAX);
}

#[test]
fn test_mono_to_stereo_conversion() {
    let mono_samples = vec![1000i16, 2000i16, 3000i16];
    let stereo: Vec<i16> = mono_to_stereo(&mono_samples);

    assert_eq!(stereo.len(), 6);
    assert_eq!(stereo, vec![1000, 1000, 2000, 2000, 3000, 3000]);
}

#[test]
fn mixing_clips_at_the_negative_end() {
    assert_eq!(mix_sample(-20000, -20000), i16::MIN);
    assert_eq!(mix_sample(i16::MIN, i16::MAX), -1);
    assert_eq!(mix_sample(1000, 3000), 4000);
    assert_eq!(mix_sample(-1234, 0), -1234);
}

#[test]
fn mono_to_stereo_of_nothing_is_empty() {
    assert!(mono_to_stereo(&Vec::new()).is_empty());
}

#[test]
fn poll_mixes_common_pairs_and_keeps_the_rest() {
    let mut mixer = Mixer::new(2, 2);
    let step = mixer.poll(&vec![vec![1, 2, 3, 4, 5, 6]], &vec![vec![10, 20, 30]], true);
    assert_eq!(step.action, MixerAction::Continue);
    assert_eq!(step.samples, vec![11, 22]);
    assert_eq!(mixer.mic_buffer, vec![3, 4, 5, 6]);
    assert_eq!(mixer.sys_buffer, vec![30]);
    // once the system buffer runs dry the microphone's pairs pass through
    let mut mixer = Mixer::new(2, 2);
    let step = mixer.poll(&vec![vec![1, 2, 3, 4, 5, 6]], &vec![vec![10, 20]], true);
    assert_eq!(step.samples, vec![11, 22, 3, 4, 5, 6]);
    assert!(mixer.mic_buffer.is_empty());
    assert!(mixer.sys_buffer.is_empty());
}

#[test]
fn poll_passes_through_a_starved_source() {
    // The mic delivers three pairs, the system source nothing.
    let mut mixer = Mixer::new(2, 2);
    let step = mixer.poll(&vec![vec![1, -1, 2, -2], vec![3, -3]], &Vec::new(), true);
    assert_eq!(step.samples, vec![1, -1, 2, -2, 3, -3]);
    assert!(mixer.mic_buffer.is_empty());
    let mut mixer = Mixer::new(2, 2);
    let step = mixer.poll(&Vec::new(), &vec![vec![7, 8, 9]], true);
    assert_eq!(step.samples, vec![7, 8]);
    assert_eq!(mixer.sys_buffer, vec![9]);
}

#[test]
fn poll_idles_then_finishes() {
    let mut mixer = Mixer::new(1, 2);
    let step = mixer.poll(&Vec::new(), &Vec::new(), true);
    assert_eq!(step.action, MixerAction::Idle);
    assert!(step.samples.is_empty());
    // Blocks that arrive with the stop are still processed before finishing.
    let step = mixer.poll(&vec![vec![5]], &Vec::new(), false);
    assert_eq!(step.action, MixerAction::Continue);
    assert_eq!(step.samples, vec![5, 5]);
    let step = mixer.poll(&Vec::new(), &Vec::new(), false);
    assert_eq!(step.action, MixerAction::Finish);
    assert!(step.samples.is_empty());
}

#[test]
fn final_drain_of_unequal_buffers() {
    // 50 microphone pairs against 30 system pairs at the stop.
    let mut mixer = Mixer::new(2, 2);
    mixer.mic_buffer = (0..100).map(|i| i as i16 * 10).collect();
    mixer.sys_buffer = (0..60).map(|i| 1 + i as i16).collect();
    let out = mixer.drain_final();
    assert_eq!(out.len(), 100);
    for i in 0..60 {
        assert_eq!(out[i], i as i16 * 10 + 1 + i as i16);
    }
    for i in 60..100 {
        assert_eq!(out[i], i as i16 * 10);
    }
    assert!(mixer.mic_buffer.is_empty());
    assert!(mixer.sys_buffer.is_empty());
}

#[test]
fn stop_with_unequal_buffers_writes_every_pair() {
    let mut mixer = Mixer::new(2, 2);
    mixer.mic_buffer = (0..100).map(|i| i as i16).collect();
    mixer.sys_buffer = vec![100; 60];
    let step = mixer.poll(&Vec::new(), &Vec::new(), false);
    assert_eq!(step.action, MixerAction::Finish);
    assert_eq!(step.samples.len(), 100);
    assert_eq!(&step.samples[..60], &(100..160).collect::<Vec<i16>>()[..]);
    assert_eq!(&step.samples[60..], &(60..100).collect::<Vec<i16>>()[..]);
}

#[test]
fn final_drain_writes_odd_leftovers() {
    let mut mixer = Mixer::new(2, 2);
    mixer.mic_buffer = vec![1, 2, 3];
    mixer.sys_buffer = vec![10];
    assert_eq!(mixer.drain_final(), vec![11, 2, 3]);
}

#[test]
fn two_source_session_end_to_end() {
    let mic = SourceFormat { channels: 1, sample_rate: 48000 };
    let sys = SourceFormat { channels: 2, sample_rate: 48000 };
    let format = output_format(mic, Some(sys));
    assert_eq!((format.channels, format.sample_rate, format.bits_per_sample), (2, 48000, 16));
    let mut mixer = Mixer::for_sources(mic, Some(sys));
    let mut written: Vec<i16> = Vec::new();
    for chunk in 0..100usize {
        let mic_block: Vec<i16> = (0..480).map(|i| sine(chunk * 480 + i, 440.0)).collect();
        let mut sys_block: Vec<i16> = Vec::new();
        for i in 0..480 {
            sys_block.push(sine(chunk * 480 + i, 880.0));
            sys_block.push(sine(chunk * 480 + i, 660.0));
        }
        let step = mixer.poll(&vec![mic_block], &vec![sys_block], true);
        assert_eq!(step.action, MixerAction::Continue);
        written.extend(step.samples);
    }
    let step = mixer.poll(&Vec::new(), &Vec::new(), false);
    assert_eq!(step.action, MixerAction::Finish);
    written.extend(step.samples);
    assert_eq!(written.len(), 96000);
    assert!(written.len() > 1000);
    let non_zero = written.iter().filter(|&&s| s != 0).count();
    assert!(non_zero > written.len() / 10);
}

#[test]
fn microphone_only_session_duplicates_mono() {
    let mic = SourceFormat { channels: 1, sample_rate: 44100 };
    let format = output_format(mic, None);
    assert_eq!((format.channels, format.sample_rate), (2, 44100));
    let mut mixer = Mixer::for_sources(mic, None);
    let mic_samples: Vec<i16> = (0..1000).map(|i| ((i % 100) * 10) as i16).collect();
    let mut written: Vec<i16> = Vec::new();
    for block in mic_samples.chunks(100) {
        let step = mixer.poll(&vec![block.to_vec()], &Vec::new(), true);
        written.extend(step.samples);
    }
    let step = mixer.poll(&Vec::new(), &Vec::new(), false);
    assert_eq!(step.action, MixerAction::Finish);
    written.extend(step.samples);
    assert_eq!(written, mono_to_stereo(&mic_samples));
    assert_eq!(written.len(), 2000);
}

#[test]
fn output_rate_is_the_higher_rate() {
    let mic = SourceFormat { channels: 1, sample_rate: 44100 };
    let sys = SourceFormat { channels: 2, sample_rate: 48000 };
    assert_eq!(output_format(mic, Some(sys)).sample_rate, 48000);
    assert_eq!(output_format(sys, Some(mic)).sample_rate, 48000);
    let mixer = Mixer::for_sources(mic, Some(sys));
    assert_eq!((mixer.mic_channels, mixer.sys_channels), (1, 2));
    let mixer = Mixer::for_sources(sys, None);
    assert_eq!((mixer.mic_channels, mixer.sys_channels), (2, 1));
}
