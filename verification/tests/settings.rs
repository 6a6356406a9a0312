use crossbeam_channel::unbounded;
use crossbeam_channel::Receiver;
use crossbeam_channel::Sender;
use mir_project::mic::DeviceInstruction;
use mir_project::mic::DeviceResponse;
use mir_project::mic::Mic;
use mir_project::mic::MicConnectionError;
use mir_project::settings::apply_response;
use mir_project::settings::connect_to;
use mir_project::settings::get_devices;
use mir_project::settings::mic_response_handler;
use mir_project::settings::AvailableDevices;
use mir_project::GameState;

/// The game's ends, and the device thread's ends of the same channels.
fn ends() -> (
    Mic<&'static str>,
    Receiver<DeviceInstruction<&'static str>>,
    Sender<DeviceResponse<&'static str>>,
) {
    let (device_sender, instructions) = unbounded();
    let (responses, device_receiver) = unbounded();
    let mic = Mic { mir_sender: None, mir_receiver: None, device_receiver, device_sender };
    (mic, instructions, responses)
}

fn connected(device: &'static str) -> DeviceResponse<&'static str> {
    let (mir_sender, _control) = unbounded();
    let (_frames, mir_receiver) = unbounded();
    DeviceResponse::DeviceConnected(device, mir_sender, mir_receiver)
}

#[test]
fn game_starts_in_the_settings_and_goes_round() {
    assert_eq!(GameState::default(), GameState::Settings);
    assert_eq!(GameState::Settings.next(), GameState::SongLoading);
    assert_eq!(GameState::SongLoading.next(), GameState::SongPlaying);
    assert_eq!(GameState::SongPlaying.next(), GameState::PostSongInfo);
    assert_eq!(GameState::PostSongInfo.next(), GameState::Settings);
}

#[test]
fn no_devices_to_begin_with() {
    let devices: AvailableDevices<u8> = AvailableDevices::default();
    assert!(devices.available.is_empty());
    assert!(devices.connected.is_none());
}

#[test]
fn responses_update_the_picture() {
    let (mut mic, _instructions, _responses) = ends();
    let mut devices = AvailableDevices::default();
    apply_response(&mut mic, &mut devices, DeviceResponse::Devices(vec!["a", "b"]));
    assert_eq!(devices.available, vec!["a", "b"]);
    assert_eq!(devices.connected, None);
    apply_response(&mut mic, &mut devices, connected("b"));
    assert_eq!(devices.connected, Some("b"));
    assert_eq!(devices.available, vec!["a", "b"]);
    assert!(mic.mir_sender.is_some());
    assert!(mic.mir_receiver.is_some());
    apply_response(
        &mut mic,
        &mut devices,
        DeviceResponse::DeviceFailedToConnect(MicConnectionError::DefaultDeviceNotFound),
    );
    assert_eq!(devices.connected, Some("b"));
    assert!(mic.mir_sender.is_some());
    apply_response(&mut mic, &mut devices, DeviceResponse::DeviceDisconnected);
    assert_eq!(devices.connected, None);
    assert!(mic.mir_sender.is_none());
    assert!(mic.mir_receiver.is_none());
    assert_eq!(devices.available, vec!["a", "b"]);
}

#[test]
fn waiting_responses_are_taken_in_order() {
    let (mut mic, _instructions, responses) = ends();
    let mut devices = AvailableDevices::default();
    assert_eq!(mic_response_handler(&mut mic, &mut devices), 0);
    responses.send(connected("a")).unwrap();
    responses.send(DeviceResponse::DeviceDisconnected).unwrap();
    responses.send(connected("b")).unwrap();
    responses.send(DeviceResponse::Devices(vec!["a"])).unwrap();
    assert_eq!(mic_response_handler(&mut mic, &mut devices), 4);
    assert_eq!(devices.connected, Some("b"));
    assert_eq!(devices.available, vec!["a"]);
    assert!(mic.mir_receiver.is_some());
    responses.send(DeviceResponse::DeviceDisconnected).unwrap();
    drop(responses);
    assert_eq!(mic_response_handler(&mut mic, &mut devices), 1);
    assert_eq!(devices.connected, None);
    assert!(mic.mir_sender.is_none());
    assert_eq!(mic_response_handler(&mut mic, &mut devices), 0);
}

#[test]
fn choosing_a_device_asks_for_it_and_for_a_new_list() {
    let (mic, instructions, _responses) = ends();
    let mut devices = AvailableDevices { available: vec!["a", "b", "c"], connected: None };
    assert!(!connect_to(&mic, &mut devices, 3));
    assert_eq!(devices.available, vec!["a", "b", "c"]);
    assert!(instructions.try_recv().is_err());
    assert!(connect_to(&mic, &mut devices, 1));
    assert_eq!(devices.available, vec!["a", "c"]);
    assert!(matches!(instructions.try_recv(), Ok(DeviceInstruction::ConnectToDevice("b"))));
    assert!(matches!(instructions.try_recv(), Ok(DeviceInstruction::GetDevices)));
    assert!(instructions.try_recv().is_err());
}

#[test]
fn requests_reach_the_device_thread() {
    let (mic, instructions, _responses) = ends();
    assert!(get_devices(&mic));
    assert!(matches!(instructions.try_recv(), Ok(DeviceInstruction::GetDevices)));
    assert!(mic.instruct(DeviceInstruction::DisconnectFromDevice));
    assert!(matches!(instructions.try_recv(), Ok(DeviceInstruction::DisconnectFromDevice)));
    drop(instructions);
    assert!(!get_devices(&mic));
}
