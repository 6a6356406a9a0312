//! The microphone: the protocol between the game and the thread that owns
//! the input device, the decisions of that thread, and the state that the
//! capture callback keeps.
//!
//! `D` stands for the handle of an input device and `S` for a running input
//! stream; the library carries them and never looks inside. Dropping an `S`
//! ends its stream.

use vstd::prelude::*;
use crossbeam_channel::Receiver;
use crossbeam_channel::Sender;
pub use crate::spectrum::MagnitudeSpectrum;
pub use crate::spectrum::PITCH_APPROXIMATION;
use crate::timeline::SampleClock;
use crate::timeline::Timeline;
use crate::timeline::TimelineView;
use crate::window::WindowShape;

verus! {

/// Samples per analysis window.
pub const WINDOW_SIZE: usize = 8192;

/// Samples between the starts of consecutive analysis windows.
pub const HOP_SIZE: usize = 2048;

/// The smallest hardware buffer that is asked for, in frames.
pub const MIN_BUFFER_SIZE: u32 = 1920;

/// What the game asks of the device thread.
pub enum DeviceInstruction<D> {
    GetDevices,
    ConnectToDevice(D),
    ConnectToDefaultDevice,
    DisconnectFromDevice,
}

/// What the game tells a capture callback.
#[derive(Debug, Clone, Copy, PartialEq, Eq, Structural)]
pub enum MIRIntruction {
    /// The performance starts now: frames count their progress from here.
    SongStart,
}

/// Why a device's default input configuration could not be had.
#[derive(Debug)]
pub enum StreamConfigFailure {
    DeviceNotAvailable,
    StreamTypeNotSupported,
    BackendSpecific(String),
}

/// Why an input stream could not be built.
#[derive(Debug)]
pub enum StreamBuildFailure {
    DeviceNotAvailable,
    StreamConfigNotSupported,
    InvalidArgument,
    StreamIdOverflow,
    BackendSpecific(String),
}

/// Why a connection failed. Each failure that concerns a device names it.
pub enum MicConnectionError<D> {
    DefaultDeviceNotFound,
    ConfigError(D, StreamConfigFailure),
    BuildStreamError(D, StreamBuildFailure),
}

/// What the device thread tells the game.
pub enum DeviceResponse<D> {
    /// The input devices there are.
    Devices(Vec<D>),
    /// A stream on this device is running. With it come the sending end of
    /// its control channel and the receiving end of its frames.
    DeviceConnected(D, Sender<MIRIntruction>, Receiver<MagnitudeSpectrum>),
    DeviceFailedToConnect(MicConnectionError<D>),
    /// The stream that was running has ended.
    DeviceDisconnected,
}

/// The game's ends of the channels: those of the device thread, and, while
/// a stream is running, those of its callback.
#[verifier::reject_recursive_types(D)]
pub struct Mic<D> {
    pub mir_sender: Option<Sender<MIRIntruction>>,
    pub mir_receiver: Option<Receiver<MagnitudeSpectrum>>,
    pub device_receiver: Receiver<DeviceResponse<D>>,
    pub device_sender: Sender<DeviceInstruction<D>>,
}

/// How samples are encoded.
#[derive(Debug, Clone, Copy, PartialEq, Eq, Structural)]
pub enum SampleFormat {
    Int8,
    Int16,
    Int32,
    Int64,
    Uint8,
    Uint16,
    Uint32,
    Uint64,
    Float32,
    Float64,
}

/// The buffer sizes that a device takes, in frames, where it says.
#[derive(Debug, Clone, Copy, PartialEq, Eq, Structural)]
pub enum SupportedBufferSize {
    Range { min: u32, max: u32 },
    Unknown,
}

/// A configuration that a device offers.
#[derive(Debug, Clone, Copy)]
pub struct SupportedConfig {
    pub channels: u16,
    pub sample_rate: u32,
    pub buffer_size: SupportedBufferSize,
    pub sample_format: SampleFormat,
}

/// The configuration that a stream is opened with.
#[derive(Debug, Clone, Copy, PartialEq, Eq, Structural)]
pub struct StreamConfig {
    pub channels: u16,
    pub sample_rate: u32,
    /// Frames per hardware buffer.
    pub buffer_size: u32,
}

impl<D> DeviceInstruction<D> {
    /// The instruction's name, without what it carries.
    pub fn label(&self) -> (name: &'static str)
        ensures
            name@ == match self {
                DeviceInstruction::GetDevices => "GetDevices"@,
                DeviceInstruction::ConnectToDevice(_) => "ConnectToDevice"@,
                DeviceInstruction::ConnectToDefaultDevice => "ConnectToDefaultDevice"@,
                DeviceInstruction::DisconnectFromDevice => "DisconnectFromDevice"@,
            },
    {
        match self {
            DeviceInstruction::GetDevices => "GetDevices",
            DeviceInstruction::ConnectToDevice(_) => "ConnectToDevice",
            DeviceInstruction::ConnectToDefaultDevice => "ConnectToDefaultDevice",
            DeviceInstruction::DisconnectFromDevice => "DisconnectFromDevice",
        }
    }
}

impl<D> DeviceResponse<D> {
    /// The response's name, without what it carries.
    pub fn label(&self) -> (name: &'static str)
        ensures
            name@ == match self {
                DeviceResponse::Devices(_) => "Devices"@,
                DeviceResponse::DeviceConnected(_, _, _) => "DeviceConnected"@,
                DeviceResponse::DeviceFailedToConnect(_) => "DeviceFailedToConnect"@,
                DeviceResponse::DeviceDisconnected => "DeviceDisconnected"@,
            },
    {
        match self {
            DeviceResponse::Devices(_) => "Devices",
            DeviceResponse::DeviceConnected(_, _, _) => "DeviceConnected",
            DeviceResponse::DeviceFailedToConnect(_) => "DeviceFailedToConnect",
            DeviceResponse::DeviceDisconnected => "DeviceDisconnected",
        }
    }
}

impl SampleFormat {
    /// Whether the spectrum pipeline takes samples of this format. It takes
    /// 32-bit floating point alone.
    pub open spec fn supported_spec(self) -> bool {
        self == SampleFormat::Float32
    }

    #[verifier::when_used_as_spec(supported_spec)]
    pub fn supported(self) -> (b: bool)
        ensures
            b == self.supported_spec(),
    {
        match self {
            SampleFormat::Float32 => true,
            _ => false,
        }
    }
}

/// The buffer size to ask for: the smallest that the device takes, but no
/// less than `MIN_BUFFER_SIZE`.
pub open spec fn buffer_size_for(supported: SupportedBufferSize) -> u32 {
    match supported {
        SupportedBufferSize::Range { min, max } => if min >= MIN_BUFFER_SIZE {
            min
        } else {
            MIN_BUFFER_SIZE
        },
        SupportedBufferSize::Unknown => MIN_BUFFER_SIZE,
    }
}

/// The configuration to open a stream with, given what the device offers.
pub open spec fn stream_config_for(supported: SupportedConfig) -> StreamConfig {
    StreamConfig {
        channels: supported.channels,
        sample_rate: supported.sample_rate,
        buffer_size: buffer_size_for(supported.buffer_size),
    }
}

/// The configuration to open a stream with, given what the device offers.
pub fn resolve_stream_config(supported: &SupportedConfig) -> (config: StreamConfig)
    ensures
        config == stream_config_for(*supported),
{
    let buffer_size = match supported.buffer_size {
        SupportedBufferSize::Range { min, max } => if min >= MIN_BUFFER_SIZE {
            min
        } else {
            MIN_BUFFER_SIZE
        },
        SupportedBufferSize::Unknown => MIN_BUFFER_SIZE,
    };
    StreamConfig {
        channels: supported.channels,
        sample_rate: supported.sample_rate,
        buffer_size,
    }
}

/// What the device thread does next.
pub enum Step<D> {
    /// Nothing: the instruction is dealt with.
    Done,
    /// Send this response; the instruction is then dealt with.
    Respond(DeviceResponse<D>),
    /// List the input devices and hand the outcome to `on_devices`.
    Enumerate,
    /// Look up the default input device and hand the outcome to
    /// `on_default_device`.
    FindDefaultDevice,
    /// Ask the device for its default input configuration and hand the
    /// outcome to `on_config`.
    QueryConfig(D),
    /// Build and start an input stream on the device with this
    /// configuration and hand the outcome to `DeviceManager::on_stream`.
    BuildStream(D, StreamConfig),
}

/// The answer to a request for the devices: the list, or an empty list
/// where they could not be listed.
pub fn on_devices<D>(listing: Option<Vec<D>>) -> (response: DeviceResponse<D>)
    ensures
        response matches DeviceResponse::Devices(devices) && match listing {
            Some(found) => devices == found,
            None => devices@ == Seq::<D>::empty(),
        },
{
    match listing {
        Some(found) => DeviceResponse::Devices(found),
        None => DeviceResponse::Devices(Vec::new()),
    }
}

/// What follows the look-up of the default device.
pub open spec fn after_default_device<D>(device: Option<D>) -> Step<D> {
    match device {
        Some(found) => Step::QueryConfig(found),
        None => Step::Respond(
            DeviceResponse::DeviceFailedToConnect(MicConnectionError::DefaultDeviceNotFound),
        ),
    }
}

/// What follows the look-up of the default device: its configuration is
/// asked for, or, without a default device, the connection has failed.
pub fn on_default_device<D>(device: Option<D>) -> (step: Step<D>)
    ensures
        step == after_default_device(device),
{
    match device {
        Some(found) => Step::QueryConfig(found),
        None => Step::Respond(
            DeviceResponse::DeviceFailedToConnect(MicConnectionError::DefaultDeviceNotFound),
        ),
    }
}

/// What follows the query of a device's configuration.
pub open spec fn after_config<D>(
    device: D,
    config: Result<SupportedConfig, StreamConfigFailure>,
) -> Step<D> {
    match config {
        Err(failure) => Step::Respond(
            DeviceResponse::DeviceFailedToConnect(MicConnectionError::ConfigError(device, failure)),
        ),
        Ok(supported) => if supported.sample_format.supported_spec() {
            Step::BuildStream(device, stream_config_for(supported))
        } else {
            Step::Respond(
                DeviceResponse::DeviceFailedToConnect(
                    MicConnectionError::BuildStreamError(
                        device,
                        StreamBuildFailure::StreamConfigNotSupported,
                    ),
                ),
            )
        },
    }
}

/// What follows the query of a device's configuration: a stream is built
/// with the configuration resolved from it, or the connection has failed,
/// because there is no configuration or because its sample format is not
/// one that the pipeline takes.
pub fn on_config<D>(device: D, config: Result<SupportedConfig, StreamConfigFailure>) -> (step: Step<
    D,
>)
    ensures
        step == after_config(device, config),
{
    match config {
        Err(failure) => Step::Respond(
            DeviceResponse::DeviceFailedToConnect(MicConnectionError::ConfigError(device, failure)),
        ),
        Ok(supported) => if supported.sample_format.supported() {
            Step::BuildStream(device, resolve_stream_config(&supported))
        } else {
            Step::Respond(
                DeviceResponse::DeviceFailedToConnect(
                    MicConnectionError::BuildStreamError(
                        device,
                        StreamBuildFailure::StreamConfigNotSupported,
                    ),
                ),
            )
        },
    }
}

/// The device thread's state: the one stream that is running, if any.
pub struct DeviceManager<S> {
    session: Option<S>,
}

/// A running stream together with the game's ends of its two channels.
pub struct OpenedStream<S> {
    pub stream: S,
    pub mir_sender: Sender<MIRIntruction>,
    pub mir_receiver: Receiver<MagnitudeSpectrum>,
}

impl<S> DeviceManager<S> {
    /// The stream that is running, if any.
    pub closed spec fn session(&self) -> Option<S> {
        self.session
    }

    pub open spec fn is_connected_spec(&self) -> bool {
        self.session() is Some
    }

    /// The state after an instruction has been taken up: any instruction
    /// but the request for the devices ends the stream that is running.
    pub open spec fn after_instruction<D>(self, instruction: DeviceInstruction<D>) -> Option<S> {
        match instruction {
            DeviceInstruction::GetDevices => self.session(),
            _ => None,
        }
    }

    /// Whether taking up an instruction ends a stream, of which the game is
    /// then told first of all.
    pub open spec fn disconnects<D>(self, instruction: DeviceInstruction<D>) -> bool {
        self.session() is Some && !(instruction is GetDevices)
    }

    /// What taking up an instruction leads to next.
    pub open spec fn step_for<D>(instruction: DeviceInstruction<D>) -> Step<D> {
        match instruction {
            DeviceInstruction::GetDevices => Step::Enumerate,
            DeviceInstruction::ConnectToDevice(device) => Step::QueryConfig(device),
            DeviceInstruction::ConnectToDefaultDevice => Step::FindDefaultDevice,
            DeviceInstruction::DisconnectFromDevice => Step::Done,
        }
    }

    /// The answer to the building of a stream.
    pub open spec fn response_for<D>(
        device: D,
        built: Result<OpenedStream<S>, StreamBuildFailure>,
    ) -> DeviceResponse<D> {
        match built {
            Ok(opened) => DeviceResponse::DeviceConnected(
                device,
                opened.mir_sender,
                opened.mir_receiver,
            ),
            Err(failure) => DeviceResponse::DeviceFailedToConnect(
                MicConnectionError::BuildStreamError(device, failure),
            ),
        }
    }

    /// The stream that runs after the building of a stream.
    pub open spec fn session_for(built: Result<OpenedStream<S>, StreamBuildFailure>) -> Option<S> {
        match built {
            Ok(opened) => Some(opened.stream),
            Err(_) => None,
        }
    }

    /// A manager without a stream.
    pub fn new() -> (manager: Self)
        ensures
            manager.session() is None,
    {
        DeviceManager { session: None }
    }

    #[verifier::when_used_as_spec(is_connected_spec)]
    pub fn is_connected(&self) -> (b: bool)
        ensures
            b == self.is_connected_spec(),
    {
        self.session.is_some()
    }

    /// Ends the stream that is running, if one is. Says whether one was: the
    /// game is then to be told `DeviceDisconnected`.
    pub fn try_device_disconnect(&mut self) -> (disconnected: bool)
        ensures
            disconnected == old(self).is_connected_spec(),
            final(self).session() is None,
    {
        let disconnected = self.session.is_some();
        self.session = None;
        disconnected
    }

    /// Takes up an instruction. A request for the devices leaves the stream
    /// alone; every other instruction first ends the stream that is
    /// running, if one is. Says whether a stream was ended, of which the
    /// game is to be told before anything else, and what to do next.
    pub fn on_instruction<D>(&mut self, instruction: DeviceInstruction<D>) -> (r: (bool, Step<D>))
        ensures
            final(self).session() == old(self).after_instruction(instruction),
            r.0 == old(self).disconnects(instruction),
            r.1 == Self::step_for(instruction),
    {
        match instruction {
            DeviceInstruction::GetDevices => (false, Step::Enumerate),
            DeviceInstruction::ConnectToDevice(device) => {
                let disconnected = self.try_device_disconnect();
                (disconnected, Step::QueryConfig(device))
            },
            DeviceInstruction::ConnectToDefaultDevice => {
                let disconnected = self.try_device_disconnect();
                (disconnected, Step::FindDefaultDevice)
            },
            DeviceInstruction::DisconnectFromDevice => {
                let disconnected = self.try_device_disconnect();
                (disconnected, Step::Done)
            },
        }
    }

    /// Takes the outcome of the building of a stream. A stream that was
    /// built becomes the one that is running, and the game gets the device
    /// and its ends of the stream's channels; a failure is passed on with
    /// the device, and no stream is running.
    pub fn on_stream<D>(
        &mut self,
        device: D,
        built: Result<OpenedStream<S>, StreamBuildFailure>,
    ) -> (response: DeviceResponse<D>)
        ensures
            response == Self::response_for(device, built),
            final(self).session() == Self::session_for(built),
    {
        match built {
            Ok(opened) => {
                self.session = Some(opened.stream);
                DeviceResponse::DeviceConnected(device, opened.mir_sender, opened.mir_receiver)
            },
            Err(failure) => {
                self.session = None;
                DeviceResponse::DeviceFailedToConnect(
                    MicConnectionError::BuildStreamError(device, failure),
                )
            },
        }
    }
}

/// A request to connect to a named device while a stream is running is
/// answered by `DeviceDisconnected` first, once, and then by exactly one of
/// `DeviceConnected`, for that device, and `DeviceFailedToConnect`. The
/// earlier stream is gone before the device is so much as asked for its
/// configuration, and afterwards a stream is running only if the answer was
/// `DeviceConnected`, and it is the one just built.
pub proof fn lemma_reconnect_protocol<D, S>(
    manager: DeviceManager<S>,
    device: D,
    config: Result<SupportedConfig, StreamConfigFailure>,
    built: Result<OpenedStream<S>, StreamBuildFailure>,
)
    requires
        manager.is_connected_spec(),
    ensures
        manager.disconnects(DeviceInstruction::ConnectToDevice(device)),
        manager.after_instruction(DeviceInstruction::ConnectToDevice(device)) is None,
        DeviceManager::<S>::step_for(DeviceInstruction::ConnectToDevice(device))
            == Step::QueryConfig(device),
        match after_config(device, config) {
            Step::Respond(response) => response is DeviceFailedToConnect,
            Step::BuildStream(target, _) => {
                let response = DeviceManager::<S>::response_for(target, built);
                let session = DeviceManager::<S>::session_for(built);
                &&& target == device
                &&& (response is DeviceConnected) != (response is DeviceFailedToConnect)
                &&& response is DeviceConnected <==> session is Some
                &&& response matches DeviceResponse::DeviceConnected(connected, _, _)
                    ==> connected == device
                &&& session matches Some(stream) ==> built matches Ok(opened) && opened.stream
                    == stream
            },
            _ => false,
        },
{
}

/// A request to connect to the default device is answered like one for a
/// named device, but that without a default device it fails at once.
pub proof fn lemma_default_device_protocol<D, S>(manager: DeviceManager<S>, device: Option<D>)
    ensures
        manager.disconnects(DeviceInstruction::<D>::ConnectToDefaultDevice)
            == manager.is_connected_spec(),
        manager.after_instruction(DeviceInstruction::<D>::ConnectToDefaultDevice) is None,
        DeviceManager::<S>::step_for(DeviceInstruction::<D>::ConnectToDefaultDevice)
            == Step::<D>::FindDefaultDevice,
        match device {
            Some(found) => after_default_device(device) == Step::QueryConfig(found),
            None => after_default_device(device) matches Step::Respond(response) && response
                matches DeviceResponse::DeviceFailedToConnect(reason) && reason
                is DefaultDeviceNotFound,
        },
{
}

/// The state that a capture callback keeps, with its ends of the stream's
/// two channels.
pub struct CaptureSession<T> {
    pub timeline: Timeline<T>,
    /// Where restarts of the timeline come from.
    pub control: Receiver<MIRIntruction>,
    /// Where the frames go.
    pub frames: Sender<MagnitudeSpectrum>,
}

/// The capture side of a new stream: an empty timeline for windows of
/// `WINDOW_SIZE` samples every `HOP_SIZE` samples at the configuration's
/// sample rate, and two fresh channels, of which the callback keeps one end
/// each and the game gets the other. There is none for a sample rate of
/// zero.
pub fn new_stream<T: Copy>(config: &StreamConfig) -> (r: Option<
    (CaptureSession<T>, Sender<MIRIntruction>, Receiver<MagnitudeSpectrum>),
>)
    ensures
        r is Some <==> config.sample_rate > 0,
        r matches Some(parts) ==> parts.0.timeline@ == (TimelineView::<T> {
            window: WINDOW_SIZE as nat,
            hop: HOP_SIZE as nat,
            rate: config.sample_rate as nat,
            anchor: None,
            pending: Seq::empty(),
        }),
{
    let clock = match SampleClock::new(config.sample_rate) {
        Some(clock) => clock,
        None => { return None; },
    };
    let shape = match WindowShape::new(WINDOW_SIZE, HOP_SIZE) {
        Some(shape) => shape,
        None => { return None; },
    };
    let (mir_sender, control) = crossbeam_channel::unbounded();
    let (frames, mir_receiver) = crossbeam_channel::unbounded();
    let session = CaptureSession { timeline: Timeline::new(shape, clock), control, frames };
    Some((session, mir_sender, mir_receiver))
}

/// Opens a callback: takes one waiting control message, if there is one,
/// and with it restarts the timeline; then anchors the timeline at this
/// callback's capture instant if it has no anchor. Says whether the timeline
/// was restarted.
pub fn handle_instructions<T: Copy>(
    receiver: &Receiver<MIRIntruction>,
    timeline: &mut Timeline<T>,
    capture: u64,
) -> (restarted: bool)
    ensures
        final(timeline)@ == old(timeline)@.begin(restarted, capture as nat),
{
    let restarted = match receiver.try_recv() {
        Ok(MIRIntruction::SongStart) => true,
        Err(_) => false,
    };
    timeline.begin(restarted, capture);
    restarted
}

impl<D> Mic<D> {
    /// Tells the running stream's callback that the performance starts: one
    /// attempt to send `SongStart`, without waiting. Whether it was handed
    /// over is up to the channel; without a stream nothing is sent.
    pub fn song_start(&self) -> (sent: bool)
        ensures
            self.mir_sender is None ==> !sent,
    {
        match &self.mir_sender {
            Some(sender) => handed_over(sender.try_send(MIRIntruction::SongStart)),
            None => false,
        }
    }

    /// Hands an instruction to the device thread: one attempt to send it,
    /// without waiting. Whether it was handed over is up to the channel.
    pub fn instruct(&self, instruction: DeviceInstruction<D>) -> (sent: bool) {
        handed_over(self.device_sender.try_send(instruction))
    }
}

/// Whether an attempt to send has handed the message over: it has unless
/// the channel gave the message back, being full or without a receiver.
pub fn handed_over<T>(outcome: Result<(), crossbeam_channel::TrySendError<T>>) -> (sent: bool)
    ensures
        sent <==> outcome is Ok,
{
    outcome.is_ok()
}

} // verus!
