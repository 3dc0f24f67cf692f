//! Devices, their cached state, and the registry that owns them.
use crate::command_mapper::{key_of, CommandMapper};
use crate::table::KeyedTable;
use vstd::prelude::*;
use vstd::string::*;

verus! {

#[derive(Clone, Copy, Debug, PartialEq, Eq, Structural)]
pub enum DeviceType {
    Light,
    Dimmer,
    WindowCovering,
    TemperatureSensor,
    Fan,
    Scene,
    Switch,
}

#[derive(Clone, Copy, Debug, PartialEq, Eq, Structural)]
pub enum WindowCoveringState {
    Stopped,
    Opening,
    Closing,
}

/// The cached state of a device, one variant per kind of device.
#[derive(Clone, Copy, Debug, PartialEq, Eq, Structural)]
pub enum DeviceState {
    OnOff(bool),
    Brightness { on: bool, level: u8 },
    WindowCovering { position: u8, state: WindowCoveringState },
    /// Hundredths of a degree Celsius.
    Temperature(i32),
    FanSpeed(u8),
}

pub open spec fn device_type_name(t: DeviceType) -> Seq<char> {
    match t {
        DeviceType::Light => "Light"@,
        DeviceType::Dimmer => "Dimmer"@,
        DeviceType::WindowCovering => "WindowCovering"@,
        DeviceType::TemperatureSensor => "TemperatureSensor"@,
        DeviceType::Fan => "Fan"@,
        DeviceType::Scene => "Scene"@,
        DeviceType::Switch => "Switch"@,
    }
}

impl DeviceType {
    /// The type's name as the API reports it.
    pub fn name(&self) -> (r: &'static str)
        ensures
            r@ == device_type_name(*self),
    {
        match self {
            DeviceType::Light => "Light",
            DeviceType::Dimmer => "Dimmer",
            DeviceType::WindowCovering => "WindowCovering",
            DeviceType::TemperatureSensor => "TemperatureSensor",
            DeviceType::Fan => "Fan",
            DeviceType::Scene => "Scene",
            DeviceType::Switch => "Switch",
        }
    }
}

/// The state a device of type `t` starts in.
pub open spec fn initial_state(t: DeviceType) -> DeviceState {
    match t {
        DeviceType::Light | DeviceType::Switch | DeviceType::Scene | DeviceType::Fan => {
            DeviceState::OnOff(false)
        },
        DeviceType::Dimmer => DeviceState::Brightness { on: false, level: 0 },
        DeviceType::WindowCovering => DeviceState::WindowCovering {
            position: 0,
            state: WindowCoveringState::Stopped,
        },
        DeviceType::TemperatureSensor => DeviceState::Temperature(0),
    }
}

/// Whether a state reads as switched on; only switches and dimmers can.
pub open spec fn state_is_on(s: DeviceState) -> bool {
    match s {
        DeviceState::OnOff(on) => on,
        DeviceState::Brightness { on, .. } => on,
        _ => false,
    }
}

/// `s` with its on/off flag set to `value`; other states are unchanged.
pub open spec fn state_with_on(s: DeviceState, value: bool) -> DeviceState {
    match s {
        DeviceState::OnOff(_) => DeviceState::OnOff(value),
        DeviceState::Brightness { level, .. } => DeviceState::Brightness { on: value, level },
        _ => s,
    }
}

/// One controllable or observable element of the vendor UI.
#[derive(Debug)]
pub struct Device {
    pub id: String,
    pub name: String,
    pub device_type: DeviceType,
    pub page: String,
    pub index: String,
    pub state: DeviceState,
}

/// `d` with its state replaced by `s`.
pub open spec fn with_state(d: Device, s: DeviceState) -> Device {
    Device { state: s, ..d }
}

impl Clone for Device {
    fn clone(&self) -> (r: Self)
        ensures
            r == *self,
    {
        Device {
            id: self.id.clone(),
            name: self.name.clone(),
            device_type: self.device_type,
            page: self.page.clone(),
            index: self.index.clone(),
            state: self.state,
        }
    }
}

impl Device {
    /// The registry key of this device.
    pub open spec fn key_spec(&self) -> Seq<char> {
        key_of(self.id@, self.page@)
    }

    pub fn key(&self) -> (r: String)
        ensures
            r@ == self.key_spec(),
    {
        CommandMapper::device_key(self.id.as_str(), self.page.as_str())
    }

    pub fn new(id: String, name: String, device_type: DeviceType, page: String, index: String) -> (r:
        Self)
        ensures
            r == (Device { id, name, device_type, page, index, state: initial_state(device_type) }),
    {
        let state = match device_type {
            DeviceType::Light | DeviceType::Switch | DeviceType::Scene | DeviceType::Fan => {
                DeviceState::OnOff(false)
            },
            DeviceType::Dimmer => DeviceState::Brightness { on: false, level: 0 },
            DeviceType::WindowCovering => DeviceState::WindowCovering {
                position: 0,
                state: WindowCoveringState::Stopped,
            },
            DeviceType::TemperatureSensor => DeviceState::Temperature(0),
        };
        Device { id, name, device_type, page, index, state }
    }

    pub fn is_on(&self) -> (r: bool)
        ensures
            r == state_is_on(self.state),
    {
        match self.state {
            DeviceState::OnOff(on) => on,
            DeviceState::Brightness { on, .. } => on,
            _ => false,
        }
    }

    pub fn set_on(&mut self, value: bool)
        ensures
            *final(self) == with_state(*old(self), state_with_on(old(self).state, value)),
    {
        let next = match self.state {
            DeviceState::OnOff(_) => DeviceState::OnOff(value),
            DeviceState::Brightness { level, .. } => DeviceState::Brightness { on: value, level },
            other => other,
        };
        self.state = next;
    }
}

impl Default for DeviceRegistry {
    fn default() -> (r: Self)
        ensures
            r.wf(),
            r@ == Map::<Seq<char>, Device>::empty(),
    {
        DeviceRegistry::new()
    }
}

/// All known devices, keyed by device key.
pub struct DeviceRegistry {
    devices: KeyedTable<Device>,
}

impl View for DeviceRegistry {
    type V = Map<Seq<char>, Device>;

    closed spec fn view(&self) -> Map<Seq<char>, Device> {
        self.devices@
    }
}

impl DeviceRegistry {
    /// Each key once, in the order its device was first added.
    pub closed spec fn key_order(&self) -> Seq<Seq<char>> {
        self.devices.key_order()
    }

    /// The listed keys are the registry's keys, each once, and every device
    /// is stored under its own key.
    pub open spec fn wf(&self) -> bool {
        &&& self.key_order().no_duplicates()
        &&& forall|k: Seq<char>|
            #![trigger self@.contains_key(k)]
            #![trigger self.key_order().contains(k)]
            self@.contains_key(k) <==> self.key_order().contains(k)
        &&& forall|k: Seq<char>| #[trigger]
            self@.contains_key(k) ==> self@[k].key_spec() == k
    }

    pub fn new() -> (r: Self)
        ensures
            r.wf(),
            r@ == Map::<Seq<char>, Device>::empty(),
    {
        DeviceRegistry { devices: KeyedTable::new() }
    }

    /// Inserts `device` under its key, replacing any device there.
    pub fn add(&mut self, device: Device)
        requires
            old(self).wf(),
        ensures
            final(self).wf(),
            final(self)@ == old(self)@.insert(device.key_spec(), device),
    {
        let key = device.key();
        let ghost d = device;
        self.devices.insert(key, device);
        assert forall|k: Seq<char>| #[trigger] self@.contains_key(k) implies self@[k].key_spec()
            == k by {
            if k != d.key_spec() {
                assert(old(self)@.contains_key(k));
            }
        }
    }

    pub fn get(&self, key: &str) -> (r: Option<&Device>)
        ensures
            match r {
                Some(d) => self@.contains_key(key@) && *d == self@[key@],
                None => !self@.contains_key(key@),
            },
    {
        self.devices.get(key)
    }

    /// Looks a device up by element id and page.
    pub fn get_by_id_page(&self, id: &str, page: &str) -> (r: Option<&Device>)
        ensures
            match r {
                Some(d) => self@.contains_key(key_of(id@, page@)) && *d == self@[key_of(
                    id@,
                    page@,
                )],
                None => !self@.contains_key(key_of(id@, page@)),
            },
    {
        let key = CommandMapper::device_key(id, page);
        self.devices.get(key.as_str())
    }

    /// Replaces the state of the device under `key`, if there is one, in a
    /// single step.
    pub fn set_state(&mut self, key: &str, state: DeviceState) -> (found: bool)
        requires
            old(self).wf(),
        ensures
            final(self).wf(),
            found == old(self)@.contains_key(key@),
            final(self).key_order() == old(self).key_order(),
            final(self)@ == if found {
                old(self)@.insert(key@, with_state(old(self)@[key@], state))
            } else {
                old(self)@
            },
    {
        match self.devices.get(key) {
            Some(d) => {
                let mut next = d.clone();
                next.state = state;
                self.devices.insert(String::from_str(key), next);
                true
            },
            None => false,
        }
    }

    /// Sets the on/off flag of the device under `key`, if there is one.
    pub fn set_on(&mut self, key: &str, value: bool) -> (found: bool)
        requires
            old(self).wf(),
        ensures
            final(self).wf(),
            found == old(self)@.contains_key(key@),
            final(self).key_order() == old(self).key_order(),
            final(self)@ == if found {
                old(self)@.insert(
                    key@,
                    with_state(old(self)@[key@], state_with_on(old(self)@[key@].state, value)),
                )
            } else {
                old(self)@
            },
    {
        match self.devices.get(key) {
            Some(d) => {
                let mut next = d.clone();
                next.set_on(value);
                self.devices.insert(String::from_str(key), next);
                true
            },
            None => false,
        }
    }

    /// A copy of every device, in the order of `key_order`.
    pub fn all(&self) -> (r: Vec<Device>)
        requires
            self.wf(),
        ensures
            r@ == self.key_order().map_values(|k: Seq<char>| self@[k]),
    {
        let n = self.devices.len();
        let mut r: Vec<Device> = Vec::new();
        let mut i: usize = 0;
        while i < n
            invariant
                self.wf(),
                n == self.key_order().len(),
                i <= n,
                r@ == self.key_order().subrange(0, i as int).map_values(
                    |k: Seq<char>| self@[k],
                ),
            decreases n - i,
        {
            let k = self.devices.key_at(i);
            assert(self.key_order().contains(k@));
            match self.devices.get(k.as_str()) {
                Some(d) => {
                    r.push(d.clone());
                },
                None => {},
            }
            assert(r@ =~= self.key_order().subrange(0, i + 1).map_values(
                |k: Seq<char>| self@[k],
            ));
            i = i + 1;
        }
        assert(self.key_order().subrange(0, n as int) =~= self.key_order());
        r
    }

    pub fn count(&self) -> (r: usize)
        requires
            self.wf(),
        ensures
            r == self@.len(),
            r == self.key_order().len(),
    {
        self.devices.len()
    }
}

} // verus!
