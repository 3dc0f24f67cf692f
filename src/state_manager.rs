//! Control semantics over the registry and the command table. A control call
//! is planned first (which command to send, which state to record), the
//! caller dispatches the command, and the outcome is then committed: the
//! cached state changes only after a successful dispatch.
use crate::command_mapper::{cover_key, key_of, CommandMapper, CoverAction};
use crate::device::{
    state_is_on, state_with_on, with_state, Device, DeviceRegistry, DeviceState,
    WindowCoveringState,
};
use crate::transport::DispatchError;
use vstd::prelude::*;

verus! {

#[derive(Clone, Copy, Debug, PartialEq, Eq, Structural)]
pub enum ControlError {
    DeviceNotFound,
    /// The device has no usable command: unmapped or read-only.
    NoCommandMapping,
    Dispatch(DispatchError),
}

/// The state change a control call records once its command went through.
#[derive(Clone, Copy, Debug, PartialEq, Eq, Structural)]
pub enum StateUpdate {
    SwitchTo(bool),
    Cover { position: u8, motion: WindowCoveringState },
}

/// What a control call needs done.
#[derive(Debug)]
pub enum ControlPlan {
    /// The device is already in the requested state: nothing to send.
    AlreadySet,
    /// Send `command`; on success commit `update`.
    Dispatch { command: String, update: StateUpdate },
}

/// The device after `u` is applied.
pub open spec fn apply_update(d: Device, u: StateUpdate) -> Device {
    match u {
        StateUpdate::SwitchTo(on) => with_state(d, state_with_on(d.state, on)),
        StateUpdate::Cover { position, motion } => with_state(
            d,
            DeviceState::WindowCovering { position, state: motion },
        ),
    }
}

/// A committed update leaves every other device's record as it was, and
/// gives its own device a record that differs from the old one in the state
/// alone: a reader of the registry sees each record wholly before or wholly
/// after the commit.
pub proof fn lemma_commit_replaces_one_record(
    before: Map<Seq<char>, Device>,
    key: Seq<char>,
    u: StateUpdate,
)
    requires
        before.contains_key(key),
    ensures
        ({
            let after = before.insert(key, apply_update(before[key], u));
            &&& after.dom() == before.dom()
            &&& forall|k: Seq<char>| k != key && before.contains_key(k) ==> after[k] == before[k]
            &&& after[key] == with_state(before[key], after[key].state)
        }),
{
    let after = before.insert(key, apply_update(before[key], u));
    assert(after.dom() =~= before.dom());
}

/// The command and recorded motion for a requested cover position: at most
/// 10 closes, at least 90 opens, anything between stops.
pub open spec fn cover_bucket(position: u8) -> (CoverAction, WindowCoveringState) {
    if position <= 10 {
        (CoverAction::Down, WindowCoveringState::Closing)
    } else if position >= 90 {
        (CoverAction::Up, WindowCoveringState::Opening)
    } else {
        (CoverAction::Stop, WindowCoveringState::Stopped)
    }
}

pub fn cover_bucket_of(position: u8) -> (r: (CoverAction, WindowCoveringState))
    ensures
        r == cover_bucket(position),
{
    if position <= 10 {
        (CoverAction::Down, WindowCoveringState::Closing)
    } else if position >= 90 {
        (CoverAction::Up, WindowCoveringState::Opening)
    } else {
        (CoverAction::Stop, WindowCoveringState::Stopped)
    }
}

/// The registry after adding `devices` in order.
pub open spec fn registered(m: Map<Seq<char>, Device>, devices: Seq<Device>) -> Map<
    Seq<char>,
    Device,
>
    decreases devices.len(),
{
    if devices.len() == 0 {
        m
    } else {
        registered(m, devices.drop_last()).insert(devices.last().key_spec(), devices.last())
    }
}

pub struct StateManager {
    registry: DeviceRegistry,
    command_mapper: CommandMapper,
}

impl StateManager {
    pub closed spec fn devices(&self) -> Map<Seq<char>, Device> {
        self.registry@
    }

    /// Keys in the order `get_all_devices` lists them.
    pub closed spec fn device_order(&self) -> Seq<Seq<char>> {
        self.registry.key_order()
    }

    /// The command under key `k`, when it is mapped and not read-only.
    pub closed spec fn command_at(&self, k: Seq<char>) -> Option<Seq<char>> {
        let t = self.command_mapper.table();
        if t.contains_key(k) && t[k] != crate::command_mapper::readonly_spec() {
            Some(t[k])
        } else {
            None
        }
    }

    pub closed spec fn wf(&self) -> bool {
        self.registry.wf() && self.command_mapper.wf()
    }

    /// A manager with no devices yet.
    pub fn new(command_mapper: CommandMapper) -> (r: Self)
        requires
            command_mapper.wf(),
        ensures
            r.wf(),
            r.devices() == Map::<Seq<char>, Device>::empty(),
            forall|k: Seq<char>|
                r.command_at(k) == if command_mapper.table().contains_key(k)
                    && command_mapper.table()[k] != crate::command_mapper::readonly_spec() {
                    Some(command_mapper.table()[k])
                } else {
                    None
                },
    {
        StateManager { registry: DeviceRegistry::new(), command_mapper }
    }

    pub fn command_mapper(&self) -> (r: &CommandMapper)
        requires
            self.wf(),
        ensures
            r.wf(),
    {
        &self.command_mapper
    }

    /// Registers the discovered devices, in order; a later device with the
    /// same key replaces an earlier one.
    pub fn initialize(&mut self, devices: Vec<Device>)
        requires
            old(self).wf(),
        ensures
            final(self).wf(),
            final(self).devices() == registered(old(self).devices(), devices@),
            forall|k: Seq<char>| final(self).command_at(k) == old(self).command_at(k),
    {
        let ghost all = devices@;
        let mut rest = devices;
        let ghost start = self.registry@;
        let mut i: usize = 0;
        let n = rest.len();
        while rest.len() > 0
            invariant
                self.wf(),
                n == all.len(),
                i + rest@.len() == n,
                rest@ == all.subrange(i as int, n as int),
                self.registry@ == registered(start, all.subrange(0, i as int)),
                self.command_mapper == old(self).command_mapper,
            decreases rest.len(),
        {
            let d = rest.remove(0);
            proof {
                assert(d == all[i as int]);
                assert(all.subrange(0, i + 1).drop_last() =~= all.subrange(0, i as int));
            }
            self.registry.add(d);
            proof {
                assert(rest@ =~= all.subrange(i + 1, n as int));
            }
            i = i + 1;
        }
        assert(all.subrange(0, n as int) =~= all);
    }

    pub fn get_device(&self, key: &str) -> (r: Option<Device>)
        requires
            self.wf(),
        ensures
            match r {
                Some(d) => self.devices().contains_key(key@) && d == self.devices()[key@],
                None => !self.devices().contains_key(key@),
            },
    {
        match self.registry.get(key) {
            Some(d) => Some(d.clone()),
            None => None,
        }
    }

    /// A snapshot of every device.
    pub fn get_all_devices(&self) -> (r: Vec<Device>)
        requires
            self.wf(),
        ensures
            r@ == self.device_order().map_values(|k: Seq<char>| self.devices()[k]),
            self.device_order().no_duplicates(),
            forall|k: Seq<char>|
                self.devices().contains_key(k) <==> self.device_order().contains(k),
    {
        self.registry.all()
    }

    pub fn count(&self) -> (r: usize)
        requires
            self.wf(),
        ensures
            r == self.devices().len(),
    {
        self.registry.count()
    }

    /// Plans switching the device under `device_key` on or off. A device
    /// already in the requested state needs no command.
    pub fn toggle_device(&self, device_key: &str, target_state: bool) -> (r: Result<
        ControlPlan,
        ControlError,
    >)
        requires
            self.wf(),
        ensures
            !self.devices().contains_key(device_key@) ==> r == Err::<ControlPlan, ControlError>(
                ControlError::DeviceNotFound,
            ),
            self.devices().contains_key(device_key@) ==> ({
                let d = self.devices()[device_key@];
                if state_is_on(d.state) == target_state {
                    r matches Ok(ControlPlan::AlreadySet)
                } else {
                    match self.command_at(key_of(d.id@, d.page@)) {
                        Some(c) => r matches Ok(ControlPlan::Dispatch { command, update })
                            && command@ == c && update == StateUpdate::SwitchTo(target_state),
                        None => r == Err::<ControlPlan, ControlError>(
                            ControlError::NoCommandMapping,
                        ),
                    }
                }
            }),
    {
        let device = match self.registry.get(device_key) {
            Some(d) => d,
            None => return Err(ControlError::DeviceNotFound),
        };
        if device.is_on() == target_state {
            return Ok(ControlPlan::AlreadySet);
        }
        match self.command_mapper.get_command(device.id.as_str(), device.page.as_str()) {
            Some(c) => Ok(
                ControlPlan::Dispatch {
                    command: String::from_str(c),
                    update: StateUpdate::SwitchTo(target_state),
                },
            ),
            None => Err(ControlError::NoCommandMapping),
        }
    }

    /// Plans moving the cover under `device_key` towards `position`.
    pub fn set_blind_position(&self, device_key: &str, position: u8) -> (r: Result<
        ControlPlan,
        ControlError,
    >)
        requires
            self.wf(),
        ensures
            !self.devices().contains_key(device_key@) ==> r == Err::<ControlPlan, ControlError>(
                ControlError::DeviceNotFound,
            ),
            self.devices().contains_key(device_key@) ==> ({
                let d = self.devices()[device_key@];
                let (action, motion) = cover_bucket(position);
                match self.command_at(cover_key(key_of(d.id@, d.page@), action)) {
                    Some(c) => r matches Ok(ControlPlan::Dispatch { command, update })
                        && command@ == c && update == StateUpdate::Cover { position, motion },
                    None => r == Err::<ControlPlan, ControlError>(ControlError::NoCommandMapping),
                }
            }),
    {
        let device = match self.registry.get(device_key) {
            Some(d) => d,
            None => return Err(ControlError::DeviceNotFound),
        };
        let (action, motion) = cover_bucket_of(position);
        match self.command_mapper.get_cover_command(
            device.id.as_str(),
            device.page.as_str(),
            action,
        ) {
            Some(c) => Ok(
                ControlPlan::Dispatch {
                    command: String::from_str(c),
                    update: StateUpdate::Cover { position, motion },
                },
            ),
            None => Err(ControlError::NoCommandMapping),
        }
    }

    /// Commits a dispatched control call: on success the device's record
    /// is replaced by the updated one in a single step; on failure nothing
    /// changes and the dispatch error is returned.
    pub fn complete_control(
        &mut self,
        device_key: &str,
        update: StateUpdate,
        outcome: Result<(), DispatchError>,
    ) -> (r: Result<(), ControlError>)
        requires
            old(self).wf(),
        ensures
            final(self).wf(),
            forall|k: Seq<char>| final(self).command_at(k) == old(self).command_at(k),
            final(self).device_order() == old(self).device_order(),
            outcome is Err ==> r == Err::<(), ControlError>(ControlError::Dispatch(outcome->Err_0))
                && final(self).devices() == old(self).devices(),
            outcome is Ok ==> r == Ok::<(), ControlError>(()),
            outcome is Ok && old(self).devices().contains_key(device_key@) ==> final(self).devices()
                == old(self).devices().insert(
                device_key@,
                apply_update(old(self).devices()[device_key@], update),
            ),
            outcome is Ok && !old(self).devices().contains_key(device_key@) ==> final(
                self).devices() == old(self).devices(),
    {
        match outcome {
            Err(e) => Err(ControlError::Dispatch(e)),
            Ok(()) => {
                match update {
                    StateUpdate::SwitchTo(on) => {
                        self.registry.set_on(device_key, on);
                    },
                    StateUpdate::Cover { position, motion } => {
                        self.registry.set_state(
                            device_key,
                            DeviceState::WindowCovering { position, state: motion },
                        );
                    },
                }
                Ok(())
            },
        }
    }
}

} // verus!
