//! The game's picture of the devices: which there are and which one is
//! connected, kept up to date from what the device thread says.

use vstd::prelude::*;
use crate::mic::DeviceInstruction;
use crate::mic::DeviceResponse;
use crate::mic::Mic;

verus! {

/// The input devices that can be chosen, and the one that is connected.
pub struct AvailableDevices<D> {
    pub available: Vec<D>,
    pub connected: Option<D>,
}

impl<D> Default for AvailableDevices<D> {
    fn default() -> (devices: Self)
        ensures
            devices.available@ == Seq::<D>::empty(),
            devices.connected is None,
    {
        AvailableDevices { available: Vec::new(), connected: None }
    }
}

/// The game's picture after one response of the device thread. A list of
/// devices replaces the list; a connection brings the device and the
/// stream's channels; a disconnection takes them away; a failure changes
/// nothing.
pub open spec fn after_response<D>(
    mic: Mic<D>,
    devices: AvailableDevices<D>,
    response: DeviceResponse<D>,
) -> (Mic<D>, AvailableDevices<D>) {
    match response {
        DeviceResponse::Devices(found) => (mic, AvailableDevices { available: found, ..devices }),
        DeviceResponse::DeviceConnected(device, sender, receiver) => (
            Mic { mir_sender: Some(sender), mir_receiver: Some(receiver), ..mic },
            AvailableDevices { connected: Some(device), ..devices },
        ),
        DeviceResponse::DeviceDisconnected => (
            Mic { mir_sender: None, mir_receiver: None, ..mic },
            AvailableDevices { connected: None, ..devices },
        ),
        DeviceResponse::DeviceFailedToConnect(_) => (mic, devices),
    }
}

/// The game's picture after a run of responses, taken in order.
pub open spec fn after_responses<D>(
    mic: Mic<D>,
    devices: AvailableDevices<D>,
    responses: Seq<DeviceResponse<D>>,
) -> (Mic<D>, AvailableDevices<D>)
    decreases responses.len(),
{
    if responses.len() == 0 {
        (mic, devices)
    } else {
        let earlier = after_responses(mic, devices, responses.drop_last());
        after_response(earlier.0, earlier.1, responses.last())
    }
}

/// The game holds a stream's channels exactly while it holds a connected
/// device.
pub open spec fn linked<D>(mic: Mic<D>, devices: AvailableDevices<D>) -> bool {
    &&& mic.mir_sender is Some <==> devices.connected is Some
    &&& mic.mir_receiver is Some <==> devices.connected is Some
}

/// No response breaks the link between the channels and the connected
/// device, and none touches the channels of the device thread.
pub proof fn lemma_responses_keep_link<D>(
    mic: Mic<D>,
    devices: AvailableDevices<D>,
    responses: Seq<DeviceResponse<D>>,
)
    requires
        linked(mic, devices),
    ensures
        linked(
            after_responses(mic, devices, responses).0,
            after_responses(mic, devices, responses).1,
        ),
        after_responses(mic, devices, responses).0.device_receiver == mic.device_receiver,
        after_responses(mic, devices, responses).0.device_sender == mic.device_sender,
    decreases responses.len(),
{
    if responses.len() > 0 {
        lemma_responses_keep_link(mic, devices, responses.drop_last());
    }
}

/// Takes one response of the device thread into the game's picture.
pub fn apply_response<D>(
    mic: &mut Mic<D>,
    devices: &mut AvailableDevices<D>,
    response: DeviceResponse<D>,
)
    ensures
        (*final(mic), *final(devices)) == after_response(*old(mic), *old(devices), response),
{
    match response {
        DeviceResponse::Devices(found) => {
            devices.available = found;
        },
        DeviceResponse::DeviceConnected(device, sender, receiver) => {
            mic.mir_sender = Some(sender);
            mic.mir_receiver = Some(receiver);
            devices.connected = Some(device);
        },
        DeviceResponse::DeviceDisconnected => {
            mic.mir_sender = None;
            mic.mir_receiver = None;
            devices.connected = None;
        },
        DeviceResponse::DeviceFailedToConnect(_) => {},
    }
}

/// Takes the responses that are waiting into the game's picture, in the
/// order in which they came, without waiting for more: as many as were
/// waiting at the start, or fewer if the channel runs dry. Says how many
/// were taken.
pub fn mic_response_handler<D>(mic: &mut Mic<D>, devices: &mut AvailableDevices<D>) -> (handled:
    usize)
    ensures
        exists|responses: Seq<DeviceResponse<D>>|
            responses.len() == handled && (*final(mic), *final(devices)) == #[trigger] after_responses(
                *old(mic),
                *old(devices),
                responses,
            ),
{
    let waiting = mic.device_receiver.len();
    let mut handled: usize = 0;
    let mut open = true;
    let ghost mut taken: Seq<DeviceResponse<D>> = Seq::empty();
    while open && handled < waiting
        invariant
            handled <= waiting,
            taken.len() == handled,
            (*mic, *devices) == after_responses(*old(mic), *old(devices), taken),
        decreases waiting - handled + if open { 1int } else { 0int },
    {
        match mic.device_receiver.try_recv() {
            Ok(response) => {
                proof {
                    let longer = taken.push(response);
                    assert(longer.drop_last() == taken);
                    taken = longer;
                }
                apply_response(mic, devices, response);
                handled += 1;
            },
            Err(_) => {
                open = false;
            },
        }
    }
    handled
}

/// Asks the device thread for the list of devices: one attempt to send
/// `GetDevices`, without waiting. Whether it gets there is up to the channel.
pub fn get_devices<D>(mic: &Mic<D>) -> (sent: bool) {
    mic.instruct(DeviceInstruction::GetDevices)
}

/// Asks the device thread to connect to the `index`-th available device and
/// then to list the devices again. The device leaves the list, for it is
/// handed to the device thread with the request. Without such a device
/// nothing is asked and nothing changes.
pub fn connect_to<D>(mic: &Mic<D>, devices: &mut AvailableDevices<D>, index: usize) -> (asked: bool)
    ensures
        asked <==> index < old(devices).available@.len(),
        asked ==> final(devices).available@ == old(devices).available@.remove(index as int),
        !asked ==> final(devices).available@ == old(devices).available@,
        final(devices).connected == old(devices).connected,
{
    if index < devices.available.len() {
        let device = devices.available.remove(index);
        let _ = mic.instruct(DeviceInstruction::ConnectToDevice(device));
        let _ = mic.instruct(DeviceInstruction::GetDevices);
        true
    } else {
        false
    }
}

} // verus!
