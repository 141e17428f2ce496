use openasio::abi::{
    has_cap, oa_buffer_layout, oa_sample_format, oa_stream_config, OA_CAP_FULL_DUPLEX,
    OA_CAP_INPUT, OA_CAP_OUTPUT, OA_CAP_SET_BUFFRAMES, OA_CAP_SET_SAMPLERATE, OA_ERR_BACKEND,
    OA_ERR_DEVICE, OA_ERR_INVALID_ARG, OA_ERR_STATE, OA_ERR_UNSUPPORTED, OA_OK,
};
use openasio::hw::{hw_setup, Direction, Hardware, HwFormat, HwPlan};
use openasio::lifecycle::{create_code, Lifecycle, Reply};
use openasio::pull::{default_config, Opening, PullDriver};
use openasio::umc202hd::DeviceHint;

fn cfg(rate: u32, frames: u32, ins: u16, outs: u16) -> oa_stream_config {
    oa_stream_config {
        sample_rate: rate,
        buffer_frames: frames,
        in_channels: ins,
        out_channels: outs,
        format: oa_sample_format::OA_SAMPLE_F32,
        layout: oa_buffer_layout::OA_BUF_INTERLEAVED,
    }
}

fn hints() -> Vec<DeviceHint> {
    vec![
        DeviceHint { name: Some("hw:CARD=PCH".to_string()), desc: None },
        DeviceHint { name: Some("sysdefault:CARD=UMC202HD".to_string()), desc: None },
        DeviceHint { name: Some("hw:CARD=UMC202HD,DEV=0".to_string()), desc: None },
    ]
}

#[test]
fn create_needs_all_its_pointers() {
    assert_eq!(create_code(true, true, true), OA_OK);
    for (p, o, h) in [(false, true, true), (true, false, true), (true, true, false), (false, false, false)] {
        assert_eq!(create_code(p, o, h), OA_ERR_INVALID_ARG);
    }
}

#[test]
fn create_then_destroy_touches_nothing() {
    for hw in [Hardware::Hda17h, Hardware::Umc202hd] {
        let d = PullDriver::new(hw);
        assert_eq!(d.state(), Lifecycle::Unopened);
        assert_eq!(d.device_name(), None);
        assert_eq!(d.config(), default_config());
        assert_eq!(d.hardware(), hw);
        assert!(!d.destroy());
    }
}

#[test]
fn default_config_is_two_by_two_at_48k() {
    assert_eq!(default_config(), cfg(48000, 128, 2, 2));
}

#[test]
fn unsupported_config() {
    let mut d = PullDriver::new(Hardware::Umc202hd);
    assert_eq!(d.open_device(None, &hints()), OA_OK);
    let r = d.begin_start(Some(cfg(12345, 128, 2, 2)), &hints());
    assert_eq!(r.err(), Some(OA_ERR_UNSUPPORTED));
    // Nothing was opened and nothing changed.
    assert_eq!(d.state(), Lifecycle::Opened);
    assert_eq!(d.config(), default_config());
    assert_eq!(d.finish_start(Opening::Ready), OA_ERR_STATE);
    assert_eq!(d.state(), Lifecycle::Opened);
}

#[test]
fn start_without_a_configuration_is_an_invalid_argument() {
    for hw in [Hardware::Hda17h, Hardware::Umc202hd] {
        let mut d = PullDriver::new(hw);
        assert_eq!(d.begin_start(None, &hints()).err(), Some(OA_ERR_INVALID_ARG));
        assert_eq!(d.state(), Lifecycle::Unopened);
    }
}

#[test]
fn the_plain_driver_takes_what_the_umc_refuses() {
    let odd = oa_stream_config {
        sample_rate: 12345,
        buffer_frames: 1,
        in_channels: 5,
        out_channels: 1,
        format: oa_sample_format::OA_SAMPLE_I16,
        layout: oa_buffer_layout::OA_BUF_NONINTERLEAVED,
    };
    let mut d = PullDriver::new(Hardware::Hda17h);
    let plan = d.begin_start(Some(odd), &vec![]).unwrap();
    assert_eq!(plan.cfg, odd);
    assert_eq!(plan.device, "default");
    assert_eq!(plan.playback.period, 1);
    let mut u = PullDriver::new(Hardware::Umc202hd);
    assert_eq!(u.begin_start(Some(odd), &vec![]).err(), Some(OA_ERR_UNSUPPORTED));
}

#[test]
fn start_plan_for_a_full_duplex_stream() {
    let mut d = PullDriver::new(Hardware::Umc202hd);
    let c = cfg(96000, 256, 2, 2);
    let plan = d.begin_start(Some(c), &hints()).unwrap();
    assert!(!plan.halt);
    assert_eq!(plan.device, "hw:CARD=UMC202HD,DEV=0");
    assert_eq!(plan.cfg, c);
    let want = HwPlan {
        channels: 2,
        rate: 96000,
        format: HwFormat::Signed32,
        period: 256,
        buffer: 512,
        start_threshold: 256,
        avail_min: 256,
    };
    assert_eq!(plan.playback, want);
    assert_eq!(plan.capture, Some(want));
    // Not running until the devices are reported ready.
    assert_eq!(d.state(), Lifecycle::Unopened);
    assert_eq!(d.finish_start(Opening::Ready), OA_OK);
    assert_eq!(d.state(), Lifecycle::Running);
    assert_eq!(d.config(), c);
}

#[test]
fn start_plan_for_playback_only() {
    let mut d = PullDriver::new(Hardware::Hda17h);
    assert_eq!(d.open_device(Some("hw:1,0".to_string()), &vec![]), OA_OK);
    let c = cfg(44100, 64, 0, 6);
    let plan = d.begin_start(Some(c), &vec![]).unwrap();
    assert_eq!(plan.device, "hw:1,0");
    assert_eq!(plan.capture, None);
    assert_eq!(
        plan.playback,
        HwPlan {
            channels: 6,
            rate: 44100,
            format: HwFormat::Float32,
            period: 64,
            buffer: 128,
            start_threshold: 64,
            avail_min: 64,
        }
    );
}

#[test]
fn a_failed_start_leaves_the_driver_stopped() {
    for (outcome, code) in [(Opening::DeviceFailed, OA_ERR_DEVICE), (Opening::BackendFailed, OA_ERR_BACKEND)] {
        let mut d = PullDriver::new(Hardware::Hda17h);
        d.open_device(None, &vec![]);
        d.begin_start(Some(cfg(48000, 128, 2, 2)), &vec![]).unwrap();
        assert_eq!(d.finish_start(outcome), code);
        assert_eq!(d.state(), Lifecycle::Opened);
        // The start is over: to finish it again is an error of state.
        assert_eq!(d.finish_start(Opening::Ready), OA_ERR_STATE);
        assert_eq!(d.state(), Lifecycle::Opened);
    }
}

#[test]
fn start_while_running_stops_first() {
    let mut d = PullDriver::new(Hardware::Hda17h);
    d.open_device(None, &vec![]);
    d.begin_start(Some(cfg(48000, 128, 2, 2)), &vec![]).unwrap();
    assert_eq!(d.finish_start(Opening::Ready), OA_OK);
    let plan = d.begin_start(Some(cfg(48000, 64, 0, 2)), &vec![]).unwrap();
    assert!(plan.halt);
    assert_eq!(d.state(), Lifecycle::Opened);
    assert_eq!(d.config(), cfg(48000, 128, 2, 2));
    assert_eq!(d.finish_start(Opening::Ready), OA_OK);
    assert_eq!(d.state(), Lifecycle::Running);
    assert_eq!(d.config(), cfg(48000, 64, 0, 2));
}

#[test]
fn a_refused_start_lets_the_stream_run_on() {
    let mut d = PullDriver::new(Hardware::Umc202hd);
    d.begin_start(Some(cfg(48000, 128, 2, 2)), &hints()).unwrap();
    d.finish_start(Opening::Ready);
    assert_eq!(d.begin_start(Some(cfg(48000, 128, 1, 2)), &hints()).err(), Some(OA_ERR_UNSUPPORTED));
    assert_eq!(d.begin_start(None, &hints()).err(), Some(OA_ERR_INVALID_ARG));
    assert_eq!(d.state(), Lifecycle::Running);
    assert_eq!(d.config(), cfg(48000, 128, 2, 2));
}

#[test]
fn stop_is_idempotent() {
    let mut d = PullDriver::new(Hardware::Hda17h);
    assert_eq!(d.stop(), Reply { code: OA_OK, halt: false });
    assert_eq!(d.state(), Lifecycle::Unopened);
    d.open_device(None, &vec![]);
    assert_eq!(d.stop(), Reply { code: OA_OK, halt: false });
    assert_eq!(d.state(), Lifecycle::Opened);
    d.begin_start(Some(cfg(48000, 128, 2, 2)), &vec![]).unwrap();
    d.finish_start(Opening::Ready);
    assert_eq!(d.stop(), Reply { code: OA_OK, halt: true });
    assert_eq!(d.state(), Lifecycle::Opened);
    assert_eq!(d.stop(), Reply { code: OA_OK, halt: false });
    assert_eq!(d.state(), Lifecycle::Opened);
    // The configuration of the stream stays in force.
    assert_eq!(d.config(), cfg(48000, 128, 2, 2));
}

#[test]
fn stop_calls_off_a_start_under_way() {
    let mut d = PullDriver::new(Hardware::Hda17h);
    d.begin_start(Some(cfg(48000, 128, 2, 2)), &vec![]).unwrap();
    assert_eq!(d.stop(), Reply { code: OA_OK, halt: false });
    assert_eq!(d.finish_start(Opening::Ready), OA_ERR_STATE);
    assert_eq!(d.state(), Lifecycle::Unopened);
}

#[test]
fn close_forgets_the_device() {
    let mut d = PullDriver::new(Hardware::Umc202hd);
    d.open_device(Some("hw:9".to_string()), &hints());
    d.begin_start(Some(cfg(48000, 128, 2, 2)), &hints()).unwrap();
    d.finish_start(Opening::Ready);
    assert_eq!(d.close_device(), Reply { code: OA_OK, halt: true });
    assert_eq!(d.state(), Lifecycle::Unopened);
    assert_eq!(d.device_name(), None);
    assert_eq!(d.close_device(), Reply { code: OA_OK, halt: false });
    assert!(!d.destroy());
}

#[test]
fn destroy_halts_a_running_stream() {
    let mut d = PullDriver::new(Hardware::Hda17h);
    d.begin_start(Some(cfg(48000, 128, 2, 2)), &vec![]).unwrap();
    d.finish_start(Opening::Ready);
    assert!(d.destroy());
}

#[test]
fn open_resolves_the_device() {
    let mut d = PullDriver::new(Hardware::Hda17h);
    assert_eq!(d.open_device(None, &hints()), OA_OK);
    assert_eq!(d.state(), Lifecycle::Opened);
    assert_eq!(d.device_name(), None);
    assert_eq!(d.open_device(Some("hw:0,0".to_string()), &hints()), OA_OK);
    assert_eq!(d.device_name(), Some("hw:0,0".to_string()));

    let mut u = PullDriver::new(Hardware::Umc202hd);
    assert_eq!(u.open_device(None, &hints()), OA_OK);
    assert_eq!(u.device_name(), Some("hw:CARD=UMC202HD,DEV=0".to_string()));
    assert_eq!(u.open_device(None, &vec![]), OA_OK);
    assert_eq!(u.device_name(), Some("hw:UMC202HD".to_string()));
    assert_eq!(u.open_device(Some("plughw:3".to_string()), &hints()), OA_OK);
    assert_eq!(u.device_name(), Some("plughw:3".to_string()));
}

#[test]
fn open_while_running_keeps_the_stream() {
    let mut d = PullDriver::new(Hardware::Hda17h);
    d.begin_start(Some(cfg(48000, 128, 2, 2)), &vec![]).unwrap();
    d.finish_start(Opening::Ready);
    assert_eq!(d.open_device(Some("hw:1,0".to_string()), &vec![]), OA_OK);
    assert_eq!(d.state(), Lifecycle::Running);
    assert_eq!(d.device_name(), Some("hw:1,0".to_string()));
}

#[test]
fn only_the_umc_is_looked_up() {
    assert!(Hardware::Umc202hd.lists_devices());
    assert!(!Hardware::Hda17h.lists_devices());
    assert_eq!(Hardware::Umc202hd.format(), HwFormat::Signed32);
    assert_eq!(Hardware::Hda17h.format(), HwFormat::Float32);
}

#[test]
fn caps_by_hardware() {
    for hw in [Hardware::Hda17h, Hardware::Umc202hd] {
        let d = PullDriver::new(hw);
        let caps = d.get_caps();
        assert_eq!(caps, 0b00111);
        assert!(has_cap(caps, OA_CAP_OUTPUT));
        assert!(has_cap(caps, OA_CAP_INPUT));
        assert!(has_cap(caps, OA_CAP_FULL_DUPLEX));
        // A mutator's bit is set only if the mutator is offered.
        assert_eq!(has_cap(caps, OA_CAP_SET_SAMPLERATE), d.set_sample_rate(48000) != OA_ERR_UNSUPPORTED);
        assert_eq!(has_cap(caps, OA_CAP_SET_BUFFRAMES), d.set_buffer_frames(128) != OA_ERR_UNSUPPORTED);
        assert!(!has_cap(caps, OA_CAP_SET_SAMPLERATE));
        assert!(!has_cap(caps, OA_CAP_SET_BUFFRAMES));
        assert_eq!(d.get_caps(), caps);
    }
}

#[test]
fn latency_by_hardware() {
    let mut u = PullDriver::new(Hardware::Umc202hd);
    assert_eq!(u.get_latency(), (128, 128));
    u.begin_start(Some(cfg(48000, 64, 0, 2)), &vec![]).unwrap();
    u.finish_start(Opening::Ready);
    assert_eq!(u.get_latency(), (0, 64));
    let mut h = PullDriver::new(Hardware::Hda17h);
    assert_eq!(h.get_latency(), (0, 0));
    h.begin_start(Some(cfg(48000, 64, 2, 2)), &vec![]).unwrap();
    h.finish_start(Opening::Ready);
    assert_eq!(h.get_latency(), (0, 0));
}

#[test]
fn mutators_are_not_supported() {
    for hw in [Hardware::Hda17h, Hardware::Umc202hd] {
        let d = PullDriver::new(hw);
        assert_eq!(d.set_sample_rate(48000), OA_ERR_UNSUPPORTED);
        assert_eq!(d.set_buffer_frames(128), OA_ERR_UNSUPPORTED);
    }
}

#[test]
fn query_devices_by_hardware() {
    let h = PullDriver::new(Hardware::Hda17h);
    assert_eq!(h.query_devices(&hints(), 64), b"default\nhw:0,0\nhw:1,0\n\0".to_vec());
    assert_eq!(h.query_devices(&hints(), 10), b"default\nh\0".to_vec());
    assert_eq!(h.query_devices(&hints(), 1), b"\0".to_vec());
    assert_eq!(h.query_devices(&hints(), 0), b"".to_vec());
    let u = PullDriver::new(Hardware::Umc202hd);
    assert_eq!(
        u.query_devices(&hints(), 64),
        b"hw:CARD=UMC202HD,DEV=0\nsysdefault:CARD=UMC202HD\0".to_vec()
    );
    assert_eq!(u.query_devices(&vec![], 64), b"hw:UMC202HD\0".to_vec());
    assert_eq!(u.query_devices(&vec![], 4), b"hw:\0".to_vec());
}

#[test]
fn hw_setup_by_hardware_and_direction() {
    let c = cfg(48000, 128, 2, 4);
    assert_eq!(
        hw_setup(Hardware::Umc202hd, Direction::Capture, &c),
        Ok(HwPlan {
            channels: 2,
            rate: 48000,
            format: HwFormat::Signed32,
            period: 128,
            buffer: 256,
            start_threshold: 128,
            avail_min: 128,
        })
    );
    assert_eq!(hw_setup(Hardware::Hda17h, Direction::Playback, &c).unwrap().channels, 4);
    assert_eq!(hw_setup(Hardware::Hda17h, Direction::Playback, &c).unwrap().format, HwFormat::Float32);
    let empty = cfg(48000, 0, 2, 2);
    assert_eq!(
        hw_setup(Hardware::Umc202hd, Direction::Playback, &empty),
        Err("invalid buffer size".to_string())
    );
    assert_eq!(hw_setup(Hardware::Hda17h, Direction::Playback, &empty).unwrap().buffer, 0);
    let big = cfg(48000, u32::MAX, 2, 2);
    assert_eq!(
        hw_setup(Hardware::Umc202hd, Direction::Playback, &big).unwrap().buffer,
        2 * (u32::MAX as i64)
    );
}

#[test]
fn a_period_of_no_frames_is_an_invalid_argument() {
    for hw in [Hardware::Hda17h, Hardware::Umc202hd] {
        let mut d = PullDriver::new(hw);
        d.open_device(None, &hints());
        assert_eq!(d.begin_start(Some(cfg(48000, 0, 2, 2)), &hints()).err(), Some(OA_ERR_INVALID_ARG));
        assert_eq!(d.begin_start(Some(cfg(48000, 0, 0, 2)), &hints()).err(), Some(OA_ERR_INVALID_ARG));
        assert_eq!(d.state(), Lifecycle::Opened);
        assert_eq!(d.config(), default_config());
        assert_eq!(d.finish_start(Opening::Ready), OA_ERR_STATE);
        // One frame is a period.
        assert!(d.begin_start(Some(cfg(48000, 1, 2, 2)), &hints()).is_ok());
    }
}

#[test]
fn a_sample_rate_of_zero_is_an_invalid_argument_on_plain_controllers() {
    let mut d = PullDriver::new(Hardware::Hda17h);
    assert_eq!(d.begin_start(Some(cfg(0, 128, 2, 2)), &vec![]).err(), Some(OA_ERR_INVALID_ARG));
    assert_eq!(d.begin_start(Some(cfg(0, 0, 2, 2)), &vec![]).err(), Some(OA_ERR_INVALID_ARG));
    assert!(d.begin_start(Some(cfg(1, 128, 2, 2)), &vec![]).is_ok());
}

#[test]
fn outside_the_matrix_is_unsupported_whatever_the_period() {
    let mut d = PullDriver::new(Hardware::Umc202hd);
    for bad in [cfg(12345, 0, 2, 2), cfg(0, 128, 2, 2), cfg(0, 0, 2, 2), cfg(48000, 0, 1, 2), cfg(48000, 0, 2, 1)] {
        assert_eq!(d.begin_start(Some(bad), &vec![]).err(), Some(OA_ERR_UNSUPPORTED));
    }
    let i16s = oa_stream_config { format: oa_sample_format::OA_SAMPLE_I16, ..cfg(48000, 0, 2, 2) };
    assert_eq!(d.begin_start(Some(i16s), &vec![]).err(), Some(OA_ERR_UNSUPPORTED));
    assert_eq!(d.state(), Lifecycle::Unopened);
}
