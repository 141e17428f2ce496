use openasio::abi::{
    has_cap, oa_buffer_layout, oa_sample_format, oa_stream_config, oa_time_info,
    OA_CAP_FULL_DUPLEX, OA_CAP_INPUT, OA_CAP_OUTPUT, OA_CAP_SET_BUFFRAMES, OA_CAP_SET_SAMPLERATE,
    OA_ERR_DEVICE, OA_ERR_INVALID_ARG, OA_ERR_UNSUPPORTED, OA_OK,
};
use openasio::callback::{
    block_frames, frames_code, grow, pick_input, pick_output, CallbackDriver, CallbackStage, Pick,
    StreamPlan, StreamShape,
};
use openasio::lifecycle::{Lifecycle, Reply};
use openasio::staging::{Source, Target};

fn cfg(frames: u32, ins: u16, outs: u16, interleaved: bool) -> oa_stream_config {
    oa_stream_config {
        sample_rate: 44100,
        buffer_frames: frames,
        in_channels: ins,
        out_channels: outs,
        format: oa_sample_format::OA_SAMPLE_F32,
        layout: if interleaved {
            oa_buffer_layout::OA_BUF_INTERLEAVED
        } else {
            oa_buffer_layout::OA_BUF_NONINTERLEAVED
        },
    }
}

fn names(v: &[Option<&str>]) -> Vec<Option<String>> {
    v.iter().map(|n| n.map(|s| s.to_string())).collect()
}

#[test]
fn output_is_the_default_without_a_name() {
    let list = names(&[Some("Speakers"), Some("HDMI")]);
    assert_eq!(pick_output(None, &list, true), Pick::Default);
    assert_eq!(pick_output(None, &list, false), Pick::Nothing);
}

#[test]
fn output_is_the_first_that_holds_the_name() {
    let list = names(&[Some("Speakers"), None, Some("USB Audio A"), Some("USB Audio B")]);
    assert_eq!(pick_output(Some("USB"), &list, true), Pick::Listed(2));
    assert_eq!(pick_output(Some("Audio B"), &list, true), Pick::Listed(3));
    assert_eq!(pick_output(Some(""), &list, true), Pick::Listed(0));
    assert_eq!(pick_output(Some("usb"), &list, true), Pick::Nothing);
    assert_eq!(pick_output(Some("x"), &names(&[]), true), Pick::Nothing);
}

#[test]
fn input_is_the_one_of_the_same_name() {
    let list = names(&[Some("Mic"), None, Some("USB Audio"), Some("USB Audio")]);
    assert_eq!(pick_input(Some("USB Audio"), &list, true), Pick::Listed(2));
    assert_eq!(pick_input(Some("USB"), &list, true), Pick::Default);
    assert_eq!(pick_input(Some("USB"), &list, false), Pick::Nothing);
    assert_eq!(pick_input(None, &list, true), Pick::Default);
    assert_eq!(pick_input(None, &list, false), Pick::Nothing);
}

#[test]
fn a_new_driver_is_unopened() {
    let d = CallbackDriver::new();
    assert_eq!(d.state(), Lifecycle::Unopened);
    assert_eq!(
        d.config(),
        oa_stream_config { sample_rate: 48000, ..cfg(256, 0, 2, true) }
    );
    assert_eq!(d.get_caps(), 7);
    assert!(has_cap(d.get_caps(), OA_CAP_OUTPUT | OA_CAP_INPUT | OA_CAP_FULL_DUPLEX));
    assert!(!has_cap(d.get_caps(), OA_CAP_SET_SAMPLERATE));
    assert!(!has_cap(d.get_caps(), OA_CAP_SET_BUFFRAMES));
    assert_eq!(d.get_latency(), (0, 0));
    assert_eq!(d.set_sample_rate(1), OA_ERR_UNSUPPORTED);
    assert_eq!(d.set_buffer_frames(1), OA_ERR_UNSUPPORTED);
    assert!(!d.destroy());
}

#[test]
fn open_needs_an_output_device() {
    let mut d = CallbackDriver::new();
    assert_eq!(d.open_device(Pick::Nothing, Pick::Default), OA_ERR_DEVICE);
    assert_eq!(d.state(), Lifecycle::Unopened);
    assert_eq!(d.open_device(Pick::Listed(1), Pick::Nothing), OA_OK);
    assert_eq!(d.state(), Lifecycle::Opened);
    assert_eq!(d.open_device(Pick::Nothing, Pick::Default), OA_ERR_DEVICE);
    assert_eq!(d.state(), Lifecycle::Opened);
}

#[test]
fn start_needs_a_device_and_a_configuration() {
    let mut d = CallbackDriver::new();
    assert_eq!(d.start(Some(cfg(256, 2, 2, true))), Err(OA_ERR_DEVICE));
    assert_eq!(d.start(None), Err(OA_ERR_DEVICE));
    d.open_device(Pick::Default, Pick::Default);
    assert_eq!(d.start(None), Err(OA_ERR_INVALID_ARG));
    assert_eq!(d.state(), Lifecycle::Opened);
}

#[test]
fn start_plans_the_streams() {
    let mut d = CallbackDriver::new();
    d.open_device(Pick::Default, Pick::Listed(0));
    let c = cfg(256, 2, 2, true);
    assert_eq!(
        d.start(Some(c)),
        Ok(StreamPlan {
            halt: false,
            input: Some(StreamShape { channels: 2, sample_rate: 44100 }),
            output: StreamShape { channels: 2, sample_rate: 44100 },
        })
    );
    assert_eq!(d.state(), Lifecycle::Running);
    assert_eq!(d.config(), c);
    // A second start replaces the streams; without input channels it builds
    // no input stream.
    let c = cfg(128, 0, 6, false);
    assert_eq!(
        d.start(Some(c)),
        Ok(StreamPlan {
            halt: true,
            input: None,
            output: StreamShape { channels: 6, sample_rate: 44100 },
        })
    );
    assert_eq!(d.stop(), Reply { code: OA_OK, halt: true });
    assert_eq!(d.stop(), Reply { code: OA_OK, halt: false });
    assert_eq!(d.state(), Lifecycle::Opened);
}

#[test]
fn no_input_stream_without_an_input_device() {
    let mut d = CallbackDriver::new();
    d.open_device(Pick::Default, Pick::Nothing);
    assert_eq!(d.start(Some(cfg(256, 2, 2, true))).unwrap().input, None);
    assert_eq!(d.close_device(), Reply { code: OA_OK, halt: true });
    assert_eq!(d.state(), Lifecycle::Unopened);
    assert_eq!(d.close_device(), Reply { code: OA_OK, halt: false });
}

#[test]
fn default_config_comes_from_the_devices() {
    let mut d = CallbackDriver::new();
    let out = Some(StreamShape { channels: 8, sample_rate: 96000 });
    assert_eq!(d.get_default_config(out, Some(2)), Err(OA_ERR_DEVICE));
    d.open_device(Pick::Default, Pick::Default);
    assert_eq!(d.get_default_config(None, Some(2)), Err(OA_ERR_DEVICE));
    let want = oa_stream_config { sample_rate: 96000, ..cfg(256, 2, 8, true) };
    assert_eq!(d.get_default_config(out, Some(2)), Ok(want));
    assert_eq!(d.get_default_config(out, None), Ok(oa_stream_config { in_channels: 0, ..want }));
    d.open_device(Pick::Default, Pick::Nothing);
    assert_eq!(d.get_default_config(out, Some(2)), Ok(oa_stream_config { in_channels: 0, ..want }));
}

#[test]
fn query_devices_lists_one_name_per_line() {
    let d = CallbackDriver::new();
    let list = vec!["Speakers".to_string(), "HDMI".to_string()];
    assert_eq!(d.query_devices(&list, 64), b"Speakers\nHDMI\n\0".to_vec());
    assert_eq!(d.query_devices(&list, 5), b"Spea\0".to_vec());
    assert_eq!(d.query_devices(&vec![], 5), b"\0".to_vec());
    assert_eq!(d.query_devices(&list, 0), b"".to_vec());
}

#[test]
fn frames_of_a_block() {
    assert_eq!(block_frames(512, 2), 256);
    assert_eq!(block_frames(513, 2), 256);
    assert_eq!(block_frames(5, 0), 5);
    assert_eq!(block_frames(0, 2), 0);
    assert_eq!(block_frames(1, 2), 0);
    assert_eq!(frames_code(256), 256);
    assert_eq!(frames_code(u32::MAX as usize), u32::MAX);
    if usize::BITS > 32 {
        assert_eq!(frames_code((1u64 << 32) as usize + 7), 7);
    }
}

#[test]
fn grow_only_lengthens() {
    let mut v = vec![1, 2];
    grow(&mut v, 4, 0);
    assert_eq!(v, vec![1, 2, 0, 0]);
    grow(&mut v, 2, 9);
    assert_eq!(v, vec![1, 2, 0, 0]);
    grow(&mut v, 4, 9);
    assert_eq!(v, vec![1, 2, 0, 0]);
}

#[test]
fn the_host_reads_silence_before_any_input() {
    let stage = CallbackStage::new(&cfg(4, 2, 2, true), 0.0f32);
    assert_eq!(stage.in_buf, vec![0.0; 8]);
    assert_eq!(stage.in_seq, 0);
    assert_eq!(stage.time, 0);
    assert!(stage.scratch.is_empty());
    assert!(stage.in_scratch.is_empty());
    let stage = CallbackStage::new(&cfg(4, 0, 2, true), 0.0f32);
    assert_eq!(stage.in_buf, vec![0.0; 4]);
}

#[test]
fn the_latest_input_wins() {
    let mut stage = CallbackStage::new(&cfg(2, 2, 2, true), 0.0f32);
    stage.store_input(&[1.0, 2.0, 3.0], 2);
    assert_eq!(stage.in_buf, vec![1.0, 2.0, 0.0, 0.0]);
    assert_eq!(stage.in_seq, 1);
    stage.store_input(&[5.0, 6.0, 7.0, 8.0, 9.0, 10.0], 2);
    assert_eq!(stage.in_buf, vec![5.0, 6.0, 7.0, 8.0, 9.0, 10.0]);
    assert_eq!(stage.in_seq, 2);
    stage.store_input(&[-1.0, -2.0], 2);
    assert_eq!(stage.in_buf, vec![-1.0, -2.0, 7.0, 8.0, 9.0, 10.0]);
    assert_eq!(stage.in_seq, 3);
    stage.in_seq = usize::MAX;
    stage.store_input(&[], 2);
    assert_eq!(stage.in_seq, usize::MAX);
    assert_eq!(stage.in_buf, vec![-1.0, -2.0, 7.0, 8.0, 9.0, 10.0]);
}

#[test]
fn pointers_follow_the_layout() {
    assert_eq!(CallbackStage::<f32>::source(&cfg(4, 0, 2, true)), Source::Absent);
    assert_eq!(CallbackStage::<f32>::source(&cfg(4, 0, 2, false)), Source::Absent);
    assert_eq!(CallbackStage::<f32>::source(&cfg(4, 1, 2, true)), Source::Interleaved);
    assert_eq!(CallbackStage::<f32>::source(&cfg(4, 1, 2, false)), Source::Planes);
    assert_eq!(CallbackStage::<f32>::target(&cfg(4, 1, 2, true)), Target::Interleaved);
    assert_eq!(CallbackStage::<f32>::target(&cfg(4, 1, 2, false)), Target::Planes);
}

#[test]
fn planes_are_gathered_into_the_block() {
    let mut stage = CallbackStage::new(&cfg(4, 0, 2, false), 0.0f32);
    let mut block = vec![9.0f32; 7];
    let frames = block_frames(block.len(), 2);
    assert_eq!(frames, 3);
    let planes = stage.begin_planes(frames, 2);
    assert_eq!(planes, vec![0, 3]);
    assert_eq!(stage.scratch, vec![0.0; 6]);
    for c in 0..2 {
        for f in 0..frames {
            stage.scratch[planes[c] + f] = (c * 1000 + f) as f32;
        }
    }
    stage.finish_planes(frames, 2, &mut block);
    assert_eq!(block, vec![0.0, 1000.0, 1.0, 1001.0, 2.0, 1002.0, 9.0]);
    // A smaller block later leaves the scratch as long as it was.
    let planes = stage.begin_planes(1, 2);
    assert_eq!(planes, vec![0, 1]);
    assert_eq!(stage.scratch.len(), 6);
}

#[test]
fn input_is_padded_for_a_longer_block() {
    let mut stage = CallbackStage::new(&cfg(2, 2, 2, true), 0.0f32);
    stage.store_input(&[1.0, 2.0, 3.0, 4.0], 2);
    stage.pad_input(3, 2);
    assert_eq!(stage.in_buf, vec![1.0, 2.0, 3.0, 4.0, 0.0, 0.0]);
    stage.pad_input(1, 2);
    assert_eq!(stage.in_buf, vec![1.0, 2.0, 3.0, 4.0, 0.0, 0.0]);
}

#[test]
fn input_planes_hold_one_channel_each() {
    let mut stage = CallbackStage::new(&cfg(2, 2, 2, false), 0.0f32);
    stage.store_input(&[1.0, 10.0, 2.0, 20.0], 2);
    let planes = stage.begin_input_planes(3, 2);
    assert_eq!(planes, vec![0, 3]);
    assert_eq!(stage.in_buf, vec![1.0, 10.0, 2.0, 20.0, 0.0, 0.0]);
    assert_eq!(stage.in_scratch, vec![1.0, 2.0, 0.0, 10.0, 20.0, 0.0]);
    let planes = stage.begin_input_planes(1, 2);
    assert_eq!(planes, vec![0, 1]);
    assert_eq!(stage.in_scratch, vec![1.0, 10.0, 0.0, 10.0, 20.0, 0.0]);
}

#[test]
fn start_refuses_a_period_or_a_rate_of_zero() {
    let mut d = CallbackDriver::new();
    d.open_device(Pick::Default, Pick::Default);
    assert_eq!(d.start(Some(cfg(0, 2, 2, true))), Err(OA_ERR_INVALID_ARG));
    assert_eq!(d.start(Some(oa_stream_config { sample_rate: 0, ..cfg(256, 2, 2, true) })), Err(OA_ERR_INVALID_ARG));
    assert_eq!(d.state(), Lifecycle::Opened);
    assert!(d.start(Some(cfg(1, 2, 2, true))).is_ok());
    // A refused start lets the streams run on.
    assert_eq!(d.start(Some(cfg(0, 2, 2, true))), Err(OA_ERR_INVALID_ARG));
    assert_eq!(d.state(), Lifecycle::Running);
    assert_eq!(d.config(), cfg(1, 2, 2, true));
}

#[test]
fn the_time_told_never_falls() {
    let mut stage = CallbackStage::new(&cfg(4, 0, 2, true), 0.0f32);
    let told = |ns: u64| oa_time_info { host_time_ns: ns, device_time_ns: 0, underruns: 0, overruns: 0 };
    assert_eq!(stage.time_info(0), told(0));
    assert_eq!(stage.time_info(5_333_333), told(5_333_333));
    assert_eq!(stage.time_info(5_333_333), told(5_333_333));
    // A clock that reads less than before is not passed on.
    assert_eq!(stage.time_info(1_000), told(5_333_333));
    assert_eq!(stage.time_info(8_000_000), told(8_000_000));
    // A reading beyond 64 bits is told as the largest time, and stays.
    assert_eq!(stage.time_info((1u128 << 64) + 5), told(u64::MAX));
    assert_eq!(stage.time_info(7), told(u64::MAX));
    assert_eq!(stage.time, u64::MAX);
}
