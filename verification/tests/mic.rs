use crossbeam_channel::unbounded;
use crossbeam_channel::TrySendError;
use mir_project::mic::handle_instructions;
use mir_project::mic::handed_over;
use mir_project::mic::new_stream;
use mir_project::mic::on_config;
use mir_project::mic::on_default_device;
use mir_project::mic::on_devices;
use mir_project::mic::resolve_stream_config;
use mir_project::mic::DeviceInstruction;
use mir_project::mic::DeviceManager;
use mir_project::mic::DeviceResponse;
use mir_project::mic::MIRIntruction;
use mir_project::mic::Mic;
use mir_project::mic::MicConnectionError;
use mir_project::mic::OpenedStream;
use mir_project::mic::SampleFormat;
use mir_project::mic::Step;
use mir_project::mic::StreamBuildFailure;
use mir_project::mic::StreamConfig;
use mir_project::mic::StreamConfigFailure;
use mir_project::mic::SupportedBufferSize;
use mir_project::mic::SupportedConfig;
use mir_project::mic::HOP_SIZE;
use mir_project::mic::MIN_BUFFER_SIZE;
use mir_project::mic::WINDOW_SIZE;
use mir_project::spectrum::MagnitudeSpectrum;

fn supported(min: Option<u32>, sample_format: SampleFormat) -> SupportedConfig {
    SupportedConfig {
        channels: 2,
        sample_rate: 44100,
        buffer_size: match min {
            Some(min) => SupportedBufferSize::Range { min, max: 1 << 20 },
            None => SupportedBufferSize::Unknown,
        },
        sample_format,
    }
}

/// A stream that was built, named by a number.
fn opened(stream: u32) -> OpenedStream<u32> {
    let (mir_sender, _control) = unbounded();
    let (_frames, mir_receiver) = unbounded();
    OpenedStream { stream, mir_sender, mir_receiver }
}

/// Runs a request to connect to `device` through the manager as the device
/// thread does, and gives the responses in order.
fn connect(
    manager: &mut DeviceManager<u32>,
    device: &'static str,
    config: Result<SupportedConfig, StreamConfigFailure>,
    built: Result<OpenedStream<u32>, StreamBuildFailure>,
) -> Vec<DeviceResponse<&'static str>> {
    let mut responses = Vec::new();
    let (disconnected, step) = manager.on_instruction(DeviceInstruction::ConnectToDevice(device));
    if disconnected {
        responses.push(DeviceResponse::DeviceDisconnected);
    }
    // the earlier stream is gone before the device is asked anything
    assert!(!manager.is_connected());
    let device = match step {
        Step::QueryConfig(device) => device,
        _ => panic!("a connect request asks for the configuration"),
    };
    match on_config(device, config) {
        Step::Respond(response) => responses.push(response),
        Step::BuildStream(device, _) => responses.push(manager.on_stream(device, built)),
        _ => panic!("the configuration leads to a stream or to a failure"),
    }
    responses
}

#[test]
fn constants_are_those_of_the_pipeline() {
    assert_eq!(WINDOW_SIZE, 8192);
    assert_eq!(HOP_SIZE, 2048);
    assert_eq!(MIN_BUFFER_SIZE, 1920);
}

#[test]
fn buffer_size_is_the_minimum_but_no_less_than_the_floor() {
    let small = resolve_stream_config(&supported(Some(64), SampleFormat::Float32));
    assert_eq!(small, StreamConfig { channels: 2, sample_rate: 44100, buffer_size: 1920 });
    let edge = resolve_stream_config(&supported(Some(1920), SampleFormat::Float32));
    assert_eq!(edge.buffer_size, 1920);
    let large = resolve_stream_config(&supported(Some(4096), SampleFormat::Float32));
    assert_eq!(large.buffer_size, 4096);
    let unknown = resolve_stream_config(&supported(None, SampleFormat::Int16));
    assert_eq!(unknown.buffer_size, 1920);
}

#[test]
fn only_float_samples_are_taken() {
    let formats = [
        SampleFormat::Int8,
        SampleFormat::Int16,
        SampleFormat::Int32,
        SampleFormat::Int64,
        SampleFormat::Uint8,
        SampleFormat::Uint16,
        SampleFormat::Uint32,
        SampleFormat::Uint64,
        SampleFormat::Float64,
    ];
    for format in formats {
        assert!(!format.supported());
    }
    assert!(SampleFormat::Float32.supported());
}

#[test]
fn devices_are_listed_even_when_listing_fails() {
    match on_devices(Some(vec!["a", "b"])) {
        DeviceResponse::Devices(devices) => assert_eq!(devices, vec!["a", "b"]),
        _ => panic!("a list was asked for"),
    }
    match on_devices::<&str>(None) {
        DeviceResponse::Devices(devices) => assert!(devices.is_empty()),
        _ => panic!("a list was asked for"),
    }
}

#[test]
fn missing_default_device_fails_at_once() {
    assert!(matches!(on_default_device(Some("mic")), Step::QueryConfig("mic")));
    assert!(matches!(
        on_default_device::<&str>(None),
        Step::Respond(DeviceResponse::DeviceFailedToConnect(
            MicConnectionError::DefaultDeviceNotFound
        ))
    ));
}

#[test]
fn configuration_leads_to_a_stream_or_a_failure() {
    match on_config("mic", Ok(supported(Some(64), SampleFormat::Float32))) {
        Step::BuildStream(device, config) => {
            assert_eq!(device, "mic");
            assert_eq!(config, StreamConfig { channels: 2, sample_rate: 44100, buffer_size: 1920 });
        },
        _ => panic!("a supported configuration leads to a stream"),
    }
    assert!(matches!(
        on_config("mic", Err(StreamConfigFailure::StreamTypeNotSupported)),
        Step::Respond(DeviceResponse::DeviceFailedToConnect(MicConnectionError::ConfigError(
            "mic",
            StreamConfigFailure::StreamTypeNotSupported
        )))
    ));
    assert!(matches!(
        on_config("mic", Err(StreamConfigFailure::DeviceNotAvailable)),
        Step::Respond(DeviceResponse::DeviceFailedToConnect(MicConnectionError::ConfigError(
            "mic",
            StreamConfigFailure::DeviceNotAvailable
        )))
    ));
    // a format that the pipeline does not take is turned down before any
    // stream is built
    assert!(matches!(
        on_config("mic", Ok(supported(Some(64), SampleFormat::Int16))),
        Step::Respond(DeviceResponse::DeviceFailedToConnect(
            MicConnectionError::BuildStreamError(
                "mic",
                StreamBuildFailure::StreamConfigNotSupported
            )
        ))
    ));
}

#[test]
fn instructions_lead_to_their_steps() {
    let mut manager: DeviceManager<u32> = DeviceManager::new();
    assert!(!manager.is_connected());
    assert!(matches!(
        manager.on_instruction(DeviceInstruction::<&str>::GetDevices),
        (false, Step::Enumerate)
    ));
    assert!(matches!(
        manager.on_instruction(DeviceInstruction::<&str>::ConnectToDefaultDevice),
        (false, Step::FindDefaultDevice)
    ));
    assert!(matches!(
        manager.on_instruction(DeviceInstruction::ConnectToDevice("a")),
        (false, Step::QueryConfig("a"))
    ));
    assert!(matches!(
        manager.on_instruction(DeviceInstruction::<&str>::DisconnectFromDevice),
        (false, Step::Done)
    ));
    assert!(!manager.try_device_disconnect());
}

#[test]
fn listing_devices_leaves_the_stream_alone() {
    let mut manager: DeviceManager<u32> = DeviceManager::new();
    manager.on_stream("a", Ok(opened(1)));
    assert!(manager.is_connected());
    assert!(matches!(
        manager.on_instruction(DeviceInstruction::<&str>::GetDevices),
        (false, Step::Enumerate)
    ));
    assert!(manager.is_connected());
    assert!(matches!(
        manager.on_instruction(DeviceInstruction::<&str>::DisconnectFromDevice),
        (true, Step::Done)
    ));
    assert!(!manager.is_connected());
    assert!(matches!(
        manager.on_instruction(DeviceInstruction::<&str>::DisconnectFromDevice),
        (false, Step::Done)
    ));
}

#[test]
fn reconnecting_disconnects_once_and_then_connects_or_fails() {
    let good = || Ok(supported(None, SampleFormat::Float32));
    let mut manager: DeviceManager<u32> = DeviceManager::new();
    // nothing was connected: no disconnection is reported
    let first = connect(&mut manager, "a", good(), Ok(opened(1)));
    assert_eq!(first.len(), 1);
    assert!(matches!(first[0], DeviceResponse::DeviceConnected("a", _, _)));
    assert!(manager.is_connected());
    // a is connected: connecting to b reports one disconnection, then one
    // connection
    let second = connect(&mut manager, "b", good(), Ok(opened(2)));
    assert_eq!(second.len(), 2);
    assert!(matches!(second[0], DeviceResponse::DeviceDisconnected));
    assert!(matches!(second[1], DeviceResponse::DeviceConnected("b", _, _)));
    assert!(manager.is_connected());
    // b is connected: a failure to build reports one disconnection, then
    // one failure, and nothing is left running
    let third = connect(&mut manager, "c", good(), Err(StreamBuildFailure::DeviceNotAvailable));
    assert_eq!(third.len(), 2);
    assert!(matches!(third[0], DeviceResponse::DeviceDisconnected));
    assert!(matches!(
        third[1],
        DeviceResponse::DeviceFailedToConnect(MicConnectionError::BuildStreamError(
            "c",
            StreamBuildFailure::DeviceNotAvailable
        ))
    ));
    assert!(!manager.is_connected());
    // the manager goes on serving: a failure of the configuration after a
    // connection
    connect(&mut manager, "a", good(), Ok(opened(3)));
    let fourth = connect(
        &mut manager,
        "d",
        Err(StreamConfigFailure::BackendSpecific(String::from("busy"))),
        Ok(opened(4)),
    );
    assert_eq!(fourth.len(), 2);
    assert!(matches!(fourth[0], DeviceResponse::DeviceDisconnected));
    assert!(matches!(
        fourth[1],
        DeviceResponse::DeviceFailedToConnect(MicConnectionError::ConfigError("d", _))
    ));
    assert!(!manager.is_connected());
}

#[test]
fn connection_hands_over_the_channels_of_the_stream() {
    let (mir_sender, control) = unbounded();
    let (frames, mir_receiver) = unbounded();
    let mut manager: DeviceManager<u32> = DeviceManager::new();
    let response =
        manager.on_stream("a", Ok(OpenedStream { stream: 1, mir_sender, mir_receiver }));
    match response {
        DeviceResponse::DeviceConnected(device, sender, receiver) => {
            assert_eq!(device, "a");
            sender.send(MIRIntruction::SongStart).unwrap();
            assert_eq!(control.try_recv(), Ok(MIRIntruction::SongStart));
            frames.send(MagnitudeSpectrum::new(vec![1], 2, 3, 4).unwrap()).unwrap();
            assert_eq!(receiver.try_recv().unwrap().progress(), 2);
        },
        _ => panic!("the stream was built"),
    }
}

#[test]
fn new_stream_starts_empty_with_fresh_channels() {
    let config = StreamConfig { channels: 1, sample_rate: 48000, buffer_size: 1920 };
    let (mut session, mir_sender, mir_receiver) = new_stream::<i16>(&config).unwrap();
    assert_eq!(session.timeline.len(), 0);
    assert_eq!(session.timeline.song_start(), None);
    assert_eq!(session.timeline.sample_rate(), 48000);
    session.timeline.extend(&vec![0; WINDOW_SIZE + HOP_SIZE - 1]);
    assert_eq!(session.timeline.ready(), 1);
    session.timeline.extend(&[0]);
    assert_eq!(session.timeline.ready(), 2);
    // the two channels lead from the game to the callback and back
    mir_sender.send(MIRIntruction::SongStart).unwrap();
    assert_eq!(session.control.try_recv(), Ok(MIRIntruction::SongStart));
    session.frames.send(MagnitudeSpectrum::new(vec![1], 9, 48000, 0).unwrap()).unwrap();
    assert_eq!(mir_receiver.try_recv().unwrap().progress(), 9);
    let silent = StreamConfig { channels: 1, sample_rate: 0, buffer_size: 1920 };
    assert!(new_stream::<i16>(&silent).is_none());
}

#[test]
fn song_start_restarts_the_timeline_at_the_next_callback() {
    let config = StreamConfig { channels: 1, sample_rate: 48000, buffer_size: 1920 };
    let (mut session, mir_sender, _frames) = new_stream::<i16>(&config).unwrap();
    assert!(!handle_instructions(&session.control, &mut session.timeline, 1_000));
    assert_eq!(session.timeline.song_start(), Some(1_000));
    session.timeline.extend(&[1, 2, 3]);
    assert!(!handle_instructions(&session.control, &mut session.timeline, 2_000));
    assert_eq!(session.timeline.song_start(), Some(1_000));
    assert_eq!(session.timeline.len(), 3);
    mir_sender.send(MIRIntruction::SongStart).unwrap();
    assert!(handle_instructions(&session.control, &mut session.timeline, 3_000));
    assert_eq!(session.timeline.song_start(), Some(3_000));
    assert_eq!(session.timeline.len(), 0);
    // one message restarts once
    session.timeline.extend(&[4, 5]);
    assert!(!handle_instructions(&session.control, &mut session.timeline, 4_000));
    assert_eq!(session.timeline.song_start(), Some(3_000));
    assert_eq!(session.timeline.len(), 2);
    // the game has gone: the callback goes on
    drop(mir_sender);
    assert!(!handle_instructions(&session.control, &mut session.timeline, 5_000));
    assert_eq!(session.timeline.len(), 2);
}

#[test]
fn mic_hands_messages_over_without_waiting() {
    let (device_sender, instructions) = unbounded();
    let (_responses, device_receiver) = unbounded();
    let (mir_sender, control) = unbounded();
    let (_frames, mir_receiver) = unbounded();
    let mic: Mic<u8> = Mic {
        mir_sender: Some(mir_sender),
        mir_receiver: Some(mir_receiver),
        device_receiver,
        device_sender,
    };
    assert!(mic.song_start());
    assert_eq!(control.try_recv(), Ok(MIRIntruction::SongStart));
    assert!(mic.instruct(DeviceInstruction::ConnectToDevice(5)));
    assert!(matches!(instructions.try_recv(), Ok(DeviceInstruction::ConnectToDevice(5))));
    // nobody listens any more
    drop(control);
    drop(instructions);
    assert!(!mic.song_start());
    assert!(!mic.instruct(DeviceInstruction::GetDevices));
}

#[test]
fn messages_have_names() {
    assert_eq!(DeviceInstruction::<u8>::GetDevices.label(), "GetDevices");
    assert_eq!(DeviceInstruction::ConnectToDevice(1u8).label(), "ConnectToDevice");
    assert_eq!(DeviceInstruction::<u8>::ConnectToDefaultDevice.label(), "ConnectToDefaultDevice");
    assert_eq!(DeviceInstruction::<u8>::DisconnectFromDevice.label(), "DisconnectFromDevice");
    assert_eq!(DeviceResponse::Devices(vec![1u8]).label(), "Devices");
    assert_eq!(DeviceResponse::<u8>::DeviceDisconnected.label(), "DeviceDisconnected");
    assert_eq!(
        DeviceResponse::<u8>::DeviceFailedToConnect(MicConnectionError::DefaultDeviceNotFound)
            .label(),
        "DeviceFailedToConnect"
    );
    let (mir_sender, _control) = unbounded();
    let (_frames, mir_receiver) = unbounded();
    assert_eq!(
        DeviceResponse::DeviceConnected(1u8, mir_sender, mir_receiver).label(),
        "DeviceConnected"
    );
}

#[test]
fn a_message_is_handed_over_unless_it_comes_back() {
    assert!(handed_over::<u8>(Ok(())));
    assert!(!handed_over(Err(TrySendError::Full(1u8))));
    assert!(!handed_over(Err(TrySendError::Disconnected(1u8))));
    // a channel that holds one message takes the first and gives the
    // second back
    let (sender, receiver) = crossbeam_channel::bounded(1);
    assert!(handed_over(sender.try_send(1u8)));
    assert!(!handed_over(sender.try_send(2u8)));
    assert_eq!(receiver.try_recv(), Ok(1));
    drop(receiver);
    assert!(!handed_over(sender.try_send(3u8)));
}
