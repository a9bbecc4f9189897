use wasm96_core::audio::{
    assemble_qoa, audio_init, audio_play_qoa, audio_play_wav, audio_play_xm, audio_push_samples,
    decode_samples, play_decoded, play_rendered, start_channel, to_stereo, DecodedAudio,
    QoaEvent,
};
use wasm96_core::error::AvError;
use wasm96_core::mixer::{audio_drain_host, mix_channel};
use wasm96_core::mixing::{pan_left, pan_right, sat_add_i16, scale_sample};
use wasm96_core::state::{AudioChannel, AudioState};

fn channel(pcm_stereo: Vec<i16>) -> AudioChannel {
    AudioChannel {
        active: true,
        volume_q8_8: 256,
        pan_i16: 0,
        loop_enabled: false,
        pcm_stereo,
        position_frames: 0,
        sample_rate: 44100,
    }
}

fn wav_bytes(channels: u16, sample_rate: u32, samples: &[i16]) -> Vec<u8> {
    let mut cursor = std::io::Cursor::new(Vec::new());
    {
        let spec = hound::WavSpec {
            channels,
            sample_rate,
            bits_per_sample: 16,
            sample_format: hound::SampleFormat::Int,
        };
        let mut writer = hound::WavWriter::new(&mut cursor, spec).unwrap();
        for s in samples {
            writer.write_sample(*s).unwrap();
        }
        writer.finalize().unwrap();
    }
    cursor.into_inner()
}

fn qoa_bytes() -> Vec<u8> {
    let mut bytes = Vec::new();
    bytes.extend_from_slice(b"qoaf");
    bytes.extend_from_slice(&20u32.to_be_bytes());
    bytes.push(1);
    bytes.extend_from_slice(&[0x00, 0xAC, 0x44]);
    bytes.extend_from_slice(&20u16.to_be_bytes());
    bytes.extend_from_slice(&32u16.to_be_bytes());
    bytes.extend_from_slice(&[0u8; 16]);
    bytes.extend_from_slice(&[0u8; 8]);
    bytes
}

#[test]
fn audio_channel_mix_advances_position_without_requiring_runtime_handle() {
    let sample_rate = 44100;
    let mut audio = AudioState::default();
    audio_init(&mut audio, sample_rate);

    let pcm_stereo: Vec<i16> = vec![
        5000, 5000, // frame 0
        5000, 5000, // frame 1
        5000, 5000, // frame 2
        5000, 5000, // frame 3
    ];

    let mut mixed: Vec<i16> = vec![0i16; 1 * 2];
    audio.host_queue.clear();
    audio.channels.clear();
    audio.channels.push(AudioChannel {
        active: true,
        volume_q8_8: 256,
        pan_i16: 0,
        loop_enabled: false,
        pcm_stereo,
        position_frames: 0,
        sample_rate,
    });

    mix_channel(&mut audio.channels[0], &mut mixed, 1);

    assert_eq!(audio.channels.len(), 1, "expected one channel");
    assert_eq!(
        audio.channels[0].position_frames, 1,
        "expected channel to advance by exactly one frame"
    );
    assert!(
        mixed.iter().any(|&s| s != 0),
        "expected mixed output to be non-zero"
    );
    assert_eq!(mixed, vec![5000, 5000]);
}

#[test]
fn draining_one_frame_of_a_constant_channel() {
    let mut audio = AudioState::default();
    audio_init(&mut audio, 59);
    audio.channels.push(channel(vec![5000; 8]));
    let (frames, mixed) = audio_drain_host(&mut audio, 1, true);
    assert_eq!(frames, 1);
    assert_eq!(mixed, vec![5000, 5000]);
    assert_eq!(audio.channels[0].position_frames, 1);
    assert!(audio.channels[0].active);
}

#[test]
fn sat_add_clamps_at_both_ends() {
    assert_eq!(sat_add_i16(i16::MAX, 1), i16::MAX);
    assert_eq!(sat_add_i16(20000, 20000), i16::MAX);
    assert_eq!(sat_add_i16(i16::MIN, -1), i16::MIN);
    assert_eq!(sat_add_i16(-20000, -20000), i16::MIN);
    assert_eq!(sat_add_i16(i16::MAX, i16::MIN), -1);
    assert_eq!(sat_add_i16(1200, -200), 1000);
    assert_eq!(sat_add_i16(0, 0), 0);
}

#[test]
fn mixing_two_loud_channels_saturates() {
    let mut audio = AudioState::default();
    audio_init(&mut audio, 60);
    audio.channels.push(channel(vec![20000, -20000]));
    audio.channels.push(channel(vec![20000, -20000]));
    let (frames, mixed) = audio_drain_host(&mut audio, 0, true);
    assert_eq!(frames, 1);
    assert_eq!(mixed, vec![i16::MAX, i16::MIN]);
}

#[test]
fn idle_drain_gives_a_sixtieth_of_a_second_of_silence() {
    let mut audio = AudioState::default();
    let (frames, mixed) = audio_drain_host(&mut audio, 0, true);
    assert_eq!(frames, 735);
    assert_eq!(mixed, vec![0i16; 1470]);

    let mut audio = AudioState::default();
    audio.host_queue.push(7);
    audio.channels.push(AudioChannel { active: false, ..channel(vec![9; 100]) });
    let (frames, mixed) = audio_drain_host(&mut audio, 10, true);
    assert_eq!(frames, 735);
    assert_eq!(mixed, vec![0i16; 1470]);
    assert_eq!(audio.host_queue, vec![7]);

    let (frames, mixed) = audio_drain_host(&mut audio, 1000, true);
    assert_eq!(frames, 1000);
    assert_eq!(mixed.len(), 2000);
}

#[test]
fn drain_without_a_sink_changes_nothing() {
    let mut audio = AudioState::default();
    audio.host_queue.extend_from_slice(&[1, 2, 3, 4]);
    audio.channels.push(channel(vec![5; 8]));
    let (frames, mixed) = audio_drain_host(&mut audio, 0, false);
    assert_eq!(frames, 0);
    assert!(mixed.is_empty());
    assert_eq!(audio.host_queue, vec![1, 2, 3, 4]);
    assert_eq!(audio.channels[0].position_frames, 0);
}

#[test]
fn drain_takes_whole_frames_from_the_queue_oldest_first() {
    let mut audio = AudioState::default();
    audio_init(&mut audio, 120);
    audio.host_queue.extend_from_slice(&[1, 2, 3, 4, 5, 6, 7]);
    let (frames, mixed) = audio_drain_host(&mut audio, 0, true);
    assert_eq!(frames, 2);
    assert_eq!(mixed, vec![1, 2, 3, 4]);
    assert_eq!(audio.host_queue, vec![5, 6, 7]);
    let (_, mixed) = audio_drain_host(&mut audio, 0, true);
    assert_eq!(mixed, vec![5, 6, 0, 0]);
    assert_eq!(audio.host_queue, vec![7]);
}

#[test]
fn drain_mixes_queue_and_channels() {
    let mut audio = AudioState::default();
    audio_init(&mut audio, 180);
    audio.host_queue.extend_from_slice(&[100, 200]);
    audio.channels.push(channel(vec![1, 2, 3, 4, 5, 6, 7, 8]));
    audio.channels.push(AudioChannel { volume_q8_8: 512, ..channel(vec![10, 20]) });
    let (frames, mixed) = audio_drain_host(&mut audio, 0, true);
    assert_eq!(frames, 3);
    assert_eq!(mixed, vec![121, 242, 3, 4, 5, 6]);
    assert_eq!(audio.channels[0].position_frames, 3);
    assert_eq!(audio.channels[1].position_frames, 1);
    assert!(audio.channels[1].active);
}

#[test]
fn a_channel_at_its_end_wraps_or_stops() {
    let mut audio = AudioState::default();
    audio_init(&mut audio, 60);
    audio.channels.push(AudioChannel {
        position_frames: 2,
        loop_enabled: true,
        ..channel(vec![1, 2, 3, 4])
    });
    audio.channels.push(AudioChannel { position_frames: 2, ..channel(vec![50, 60, 70, 80]) });
    audio.channels.push(AudioChannel { loop_enabled: true, ..channel(vec![]) });
    let (_, mixed) = audio_drain_host(&mut audio, 0, true);
    assert_eq!(mixed, vec![1, 2]);
    assert_eq!(audio.channels[0].position_frames, 1);
    assert!(audio.channels[0].active);
    assert!(!audio.channels[1].active);
    assert_eq!(audio.channels[1].position_frames, 2);
    assert!(audio.channels[2].active);
    assert_eq!(audio.channels[2].position_frames, 0);
}

#[test]
fn volume_and_pan_scale_each_side() {
    assert_eq!(scale_sample(5000, 256, 32768), 5000);
    assert_eq!(scale_sample(5000, 128, 32768), 2500);
    assert_eq!(scale_sample(5000, 256, 16384), 2500);
    assert_eq!(scale_sample(-3, 128, 32768), -1);
    assert_eq!(scale_sample(3, 128, 32768), 1);
    assert_eq!(scale_sample(20000, 1024, 32768), i16::MAX);
    assert_eq!(scale_sample(-20000, 1024, 32768), i16::MIN);
    assert_eq!(scale_sample(1000, 256, -32768), -1000);
    assert_eq!(scale_sample(1000, 0, 32768), 0);
    assert_eq!(scale_sample(i16::MIN, u32::MAX, 0x1_0000_0000), i16::MIN);
    assert_eq!(pan_left(0), 32768);
    assert_eq!(pan_left(-5), 32768);
    assert_eq!(pan_left(8192), 24576);
    assert_eq!(pan_right(0), 32768);
    assert_eq!(pan_right(5), 32768);
    assert_eq!(pan_right(-8192), 24576);
    assert_eq!(pan_left(32768), 0);

    let mut mixed = vec![0i16; 2];
    let mut right = AudioChannel { pan_i16: 16384, ..channel(vec![1000, 1000]) };
    mix_channel(&mut right, &mut mixed, 1);
    assert_eq!(mixed, vec![500, 1000]);
    let mut mixed = vec![0i16; 2];
    let mut left = AudioChannel { pan_i16: -32768, ..channel(vec![1000, 1000]) };
    mix_channel(&mut left, &mut mixed, 1);
    assert_eq!(mixed, vec![1000, 0]);
}

#[test]
fn default_audio_state() {
    let audio = AudioState::default();
    assert_eq!(audio.sample_rate, 44100);
    assert!(audio.host_queue.is_empty());
    assert!(audio.channels.is_empty());
    assert_eq!(audio.next_channel_id, 1);
    let c = AudioChannel::default();
    assert!(!c.active);
    assert_eq!(c.volume_q8_8, 256);
    assert_eq!(c.pan_i16, 0);
    assert!(!c.loop_enabled);
    assert_eq!(c.sample_rate, 44100);
}

#[test]
fn init_sets_the_rate_and_gives_the_hint() {
    let mut audio = AudioState::default();
    assert_eq!(audio_init(&mut audio, 48000), 1024);
    assert_eq!(audio.sample_rate, 48000);
}

#[test]
fn samples_are_little_endian() {
    assert_eq!(
        decode_samples(&[0x01, 0x00, 0xFF, 0x7F, 0x00, 0x80, 0xFF, 0xFF, 0x12]),
        vec![1, i16::MAX, i16::MIN, -1]
    );
    assert_eq!(decode_samples(&[]), Vec::<i16>::new());
}

#[test]
fn push_reads_samples_from_guest_memory() {
    let memory = vec![0x10, 0x00, 0x34, 0x12, 0xFE, 0xFF, 0x00, 0x00];
    let mut audio = AudioState::default();
    audio.host_queue.push(9);
    assert_eq!(audio_push_samples(&mut audio, Some(&memory), 2, 2), Ok(()));
    assert_eq!(audio.host_queue, vec![9, 0x1234, -2]);
    assert_eq!(
        audio_push_samples(&mut audio, None, 0, 1),
        Err(AvError::MissingMemory)
    );
    assert_eq!(
        audio_push_samples(&mut audio, None, 0, u32::MAX),
        Err(AvError::MissingMemory)
    );
    assert_eq!(
        audio_push_samples(&mut audio, Some(&memory), 0, 0x8000_0000),
        Err(AvError::MemoryReadFailed)
    );
    assert_eq!(
        audio_push_samples(&mut audio, Some(&memory), 6, 2),
        Err(AvError::MemoryReadFailed)
    );
    assert_eq!(audio.host_queue, vec![9, 0x1234, -2]);
}

#[test]
fn mono_is_played_on_both_sides() {
    let d = DecodedAudio { channels: 1, sample_rate: 8000, samples: vec![1, -2, 3] };
    assert_eq!(to_stereo(d), Some(vec![1, 1, -2, -2, 3, 3]));
    let d = DecodedAudio { channels: 2, sample_rate: 8000, samples: vec![1, -2, 3] };
    assert_eq!(to_stereo(d), Some(vec![1, -2, 3]));
    let d = DecodedAudio { channels: 3, sample_rate: 8000, samples: vec![1, -2, 3] };
    assert_eq!(to_stereo(d), None);
    let d = DecodedAudio { channels: 0, sample_rate: 8000, samples: vec![] };
    assert_eq!(to_stereo(d), None);
}

#[test]
fn a_started_channel_plays_looping_from_the_start() {
    let mut audio = AudioState::default();
    start_channel(&mut audio, vec![1, 2], 22050);
    assert_eq!(audio.channels.len(), 1);
    let c = &audio.channels[0];
    assert!(c.active);
    assert!(c.loop_enabled);
    assert_eq!(c.volume_q8_8, 256);
    assert_eq!(c.pan_i16, 0);
    assert_eq!(c.position_frames, 0);
    assert_eq!(c.sample_rate, 22050);
    assert_eq!(c.pcm_stereo, vec![1, 2]);
    play_decoded(&mut audio, None);
    play_decoded(
        &mut audio,
        Some(DecodedAudio { channels: 5, sample_rate: 1, samples: vec![1] }),
    );
    assert_eq!(audio.channels.len(), 1);
}

#[test]
fn wav_assets_start_a_channel() {
    let mut memory = vec![0u8; 4];
    let wav = wav_bytes(1, 11025, &[100, -200, 300]);
    memory.extend_from_slice(&wav);
    let mut audio = AudioState::default();
    audio_play_wav(&mut audio, Some(&memory), 4, wav.len() as u32);
    assert_eq!(audio.channels.len(), 1);
    assert_eq!(audio.channels[0].pcm_stereo, vec![100, 100, -200, -200, 300, 300]);
    assert_eq!(audio.channels[0].sample_rate, 11025);
    assert!(audio.channels[0].active);

    let wav = wav_bytes(2, 44100, &[1, 2, 3, 4]);
    audio_play_wav(&mut audio, Some(&wav), 0, wav.len() as u32);
    assert_eq!(audio.channels.len(), 2);
    assert_eq!(audio.channels[1].pcm_stereo, vec![1, 2, 3, 4]);

    let wav = wav_bytes(3, 44100, &[1, 2, 3]);
    audio_play_wav(&mut audio, Some(&wav), 0, wav.len() as u32);
    audio_play_wav(&mut audio, Some(&memory), 0, 4);
    audio_play_wav(&mut audio, Some(&memory), 4, 4000);
    audio_play_wav(&mut audio, None, 4, 4);
    assert_eq!(audio.channels.len(), 2);
}

#[test]
fn qoa_assets_start_a_channel() {
    let qoa = qoa_bytes();
    let mut audio = AudioState::default();
    audio_play_qoa(&mut audio, Some(&qoa), 0, qoa.len() as u32);
    assert_eq!(audio.channels.len(), 1);
    assert_eq!(audio.channels[0].sample_rate, 44100);
    assert_eq!(audio.channels[0].pcm_stereo.len(), 40);
    assert_eq!(audio.channels[0].pcm_stereo, vec![1i16; 40]);

    audio_play_qoa(&mut audio, Some(&qoa), 0, 8);
    audio_play_qoa(&mut audio, Some(&qoa), 1, qoa.len() as u32 - 1);
    audio_play_qoa(&mut audio, None, 0, qoa.len() as u32);
    assert_eq!(audio.channels.len(), 1);
}

#[test]
fn qoa_items_assemble_to_audio() {
    let events = vec![
        QoaEvent::Frame { channels: 2, sample_rate: 8000 },
        QoaEvent::Sample(1),
        QoaEvent::Sample(2),
        QoaEvent::Frame { channels: 2, sample_rate: 8000 },
        QoaEvent::Sample(3),
    ];
    let d = assemble_qoa(&events).unwrap();
    assert_eq!(d.channels, 2);
    assert_eq!(d.sample_rate, 8000);
    assert_eq!(d.samples, vec![1, 2, 3]);

    let mut differing = events.clone();
    differing.push(QoaEvent::Frame { channels: 1, sample_rate: 8000 });
    differing.push(QoaEvent::Sample(4));
    assert!(assemble_qoa(&differing).is_none());
    let mut differing = events.clone();
    differing.push(QoaEvent::Frame { channels: 2, sample_rate: 8001 });
    assert!(assemble_qoa(&differing).is_none());
    assert!(assemble_qoa(&vec![QoaEvent::Sample(4)]).is_none());
    assert!(assemble_qoa(&vec![]).is_none());
}

fn xm_bytes() -> Vec<u8> {
    let mut bytes = Vec::new();
    bytes.extend_from_slice(b"Extended Module: ");
    bytes.extend_from_slice(&[b' '; 20]);
    bytes.push(0x1A);
    bytes.extend_from_slice(b"test tracker        ");
    bytes.extend_from_slice(&0x0104u16.to_le_bytes());
    bytes.extend_from_slice(&276u32.to_le_bytes());
    for field in [1u16, 0, 8, 0, 0, 1, 6, 125] {
        bytes.extend_from_slice(&field.to_le_bytes());
    }
    bytes.extend_from_slice(&[0u8; 256]);
    bytes
}

#[test]
fn rendered_modules_play_at_the_output_rate() {
    let mut audio = AudioState::default();
    audio_init(&mut audio, 8000);
    play_rendered(&mut audio, Some(vec![4, 5, 6, 7]));
    play_rendered(&mut audio, None);
    assert_eq!(audio.channels.len(), 1);
    assert_eq!(audio.channels[0].sample_rate, 8000);
    assert_eq!(audio.channels[0].pcm_stereo, vec![4, 5, 6, 7]);
    assert!(audio.channels[0].loop_enabled);

    let xm = xm_bytes();
    audio_play_xm(&mut audio, Some(&xm), 0, xm.len() as u32);
    assert_eq!(audio.channels.len(), 2);
    assert_eq!(audio.channels[1].sample_rate, 8000);
    assert!(audio.channels[1].active);
    assert_eq!(audio.channels[1].pcm_stereo.len() % 2, 0);
    assert!(audio.channels[1].pcm_stereo.iter().all(|&s| s == 0));
    assert_ne!(audio.channels[1].pcm_stereo, xm.iter().map(|&b| b as i16).collect::<Vec<i16>>());

    audio_play_xm(&mut audio, Some(&xm), 0, 30);
    audio_play_xm(&mut audio, Some(&xm), 3, xm.len() as u32 - 3);
    audio_play_xm(&mut audio, Some(&xm), 0, 4000);
    audio_play_xm(&mut audio, None, 0, 4);
    assert_eq!(audio.channels.len(), 2);
}
