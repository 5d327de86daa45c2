//! The known devices and their actuators, as the hardware layer reports them.
use vstd::prelude::*;
use crate::names::{same_text, views};
use crate::params::{Actuator, Capability};

verus! {

/// A device that has been seen, and whether it is connected now.
#[derive(Debug, Clone)]
pub struct DeviceInfo {
    pub name: String,
    pub connected: bool,
}

/// Some device of `devs` is called `name`.
pub open spec fn known(devs: Seq<DeviceInfo>, name: Seq<char>) -> bool {
    exists|i: int| 0 <= i < devs.len() && #[trigger] devs[i].name@ == name
}

/// Some device called `name` is connected.
pub open spec fn connected_now(devs: Seq<DeviceInfo>, name: Seq<char>) -> bool {
    exists|i: int| 0 <= i < devs.len() && #[trigger] devs[i].name@ == name && devs[i].connected
}

/// Some actuator of the device `name` vibrates.
pub open spec fn vibrates(acts: Seq<Actuator>, name: Seq<char>) -> bool {
    exists|i: int|
        0 <= i < acts.len() && #[trigger] acts[i].device@ == name && acts[i].capability
            == Capability::Vibrate
}

/// The devices after the one called `name` was seen again: marked connected.
pub open spec fn reconnected(devs: Seq<DeviceInfo>, name: Seq<char>, c: bool) -> Seq<DeviceInfo> {
    devs.map_values(
        |d: DeviceInfo|
            if d.name@ == name {
                DeviceInfo { connected: c, ..d }
            } else {
                d
            },
    )
}

/// Every device seen so far, kept after it disconnects, and the actuators of
/// each.
#[derive(Debug, Clone)]
pub struct Registry {
    pub devices: Vec<DeviceInfo>,
    pub actuators: Vec<Actuator>,
}

/// Sets the connection flag of every device called `name`.
fn mark_connected(devs: &mut Vec<DeviceInfo>, name: &String, c: bool)
    ensures
        final(devs)@ == reconnected(old(devs)@, name@, c),
{
    let ghost before = devs@;
    let mut i: usize = 0;
    while i < devs.len()
        invariant
            devs@.len() == before.len(),
            i <= before.len(),
            forall|j: int|
                0 <= j < i ==> #[trigger] devs@[j] == reconnected(before, name@, c)[j],
            forall|j: int| i <= j < before.len() ==> #[trigger] devs@[j] == before[j],
        decreases before.len() - i,
    {
        if devs[i].name == *name {
            let ghost cur = devs@;
            let mut d = devs.remove(i);
            d.connected = c;
            devs.insert(i, d);
            assert(devs@ =~= cur.update(i as int, DeviceInfo { connected: c, ..cur[i as int] }));
        }
        i = i + 1;
    }
    assert(devs@ =~= reconnected(before, name@, c));
}

impl Registry {
    /// No device seen yet.
    pub fn new() -> (r: Registry)
        ensures
            r.devices@.len() == 0,
            r.actuators@.len() == 0,
    {
        Registry { devices: Vec::new(), actuators: Vec::new() }
    }

    /// A device connected. A device seen before is marked connected again and
    /// keeps its actuators; a new one is added with `actuators`.
    pub fn device_added(&mut self, name: String, actuators: Vec<Actuator>)
        ensures
            known(old(self).devices@, name@) ==> final(self).devices@ == reconnected(
                old(self).devices@,
                name@,
                true,
            ) && final(self).actuators@ == old(self).actuators@,
            !known(old(self).devices@, name@) ==> final(self).devices@ == old(self).devices@.push(
                DeviceInfo { name, connected: true },
            ) && final(self).actuators@ == old(self).actuators@ + actuators@,
    {
        if self.is_known(&name) {
            mark_connected(&mut self.devices, &name, true);
        } else {
            self.devices.push(DeviceInfo { name, connected: true });
            let mut more = actuators;
            self.actuators.append(&mut more);
        }
    }

    /// A device disconnected: it stays listed, marked disconnected.
    pub fn device_removed(&mut self, name: &String)
        ensures
            final(self).devices@ == reconnected(old(self).devices@, name@, false),
            final(self).actuators@ == old(self).actuators@,
    {
        mark_connected(&mut self.devices, name, false);
    }

    /// Whether a device of that name has been seen.
    pub fn is_known(&self, name: &String) -> (r: bool)
        ensures
            r == known(self.devices@, name@),
    {
        let mut i: usize = 0;
        while i < self.devices.len()
            invariant
                i <= self.devices@.len(),
                forall|j: int| 0 <= j < i ==> #[trigger] self.devices@[j].name@ != name@,
            decreases self.devices@.len() - i,
        {
            if self.devices[i].name == *name {
                return true;
            }
            i = i + 1;
        }
        false
    }

    /// The names of all devices seen, in order.
    pub fn device_names(&self) -> (r: Vec<String>)
        ensures
            views(r@) == self.devices@.map_values(|d: DeviceInfo| d.name@),
    {
        let mut r: Vec<String> = Vec::new();
        let mut i: usize = 0;
        while i < self.devices.len()
            invariant
                i <= self.devices@.len(),
                views(r@) == self.devices@.subrange(0, i as int).map_values(
                    |d: DeviceInfo| d.name@,
                ),
            decreases self.devices@.len() - i,
        {
            let ghost prev = r@;
            r.push(self.devices[i].name.clone());
            assert(views(r@) =~= views(prev).push(self.devices@[i as int].name@));
            assert(self.devices@.subrange(0, i as int + 1).map_values(|d: DeviceInfo| d.name@)
                =~= self.devices@.subrange(0, i as int).map_values(|d: DeviceInfo| d.name@).push(
                self.devices@[i as int].name@,
            ));
            assert(views(r@) =~= self.devices@.subrange(0, i as int + 1).map_values(
                |d: DeviceInfo| d.name@,
            ));
            i = i + 1;
        }
        assert(self.devices@.subrange(0, i as int) =~= self.devices@);
        r
    }

    /// Whether a device of that name is connected.
    pub fn device_connected(&self, name: &str) -> (r: bool)
        ensures
            r == connected_now(self.devices@, name@),
    {
        let mut i: usize = 0;
        while i < self.devices.len()
            invariant
                i <= self.devices@.len(),
                forall|j: int|
                    0 <= j < i ==> !(#[trigger] self.devices@[j].name@ == name@
                        && self.devices@[j].connected),
            decreases self.devices@.len() - i,
        {
            if self.devices[i].connected && same_text(self.devices[i].name.as_str(), name) {
                return true;
            }
            i = i + 1;
        }
        false
    }

    /// `["Vibrate"]` where the device has a vibrating actuator, else nothing:
    /// other capabilities are not offered to callers.
    pub fn device_capabilities(&self, name: &str) -> (r: Vec<String>)
        ensures
            vibrates(self.actuators@, name@) ==> views(r@) == seq!["Vibrate"@],
            !vibrates(self.actuators@, name@) ==> r@.len() == 0,
    {
        let mut i: usize = 0;
        while i < self.actuators.len()
            invariant
                i <= self.actuators@.len(),
                forall|j: int|
                    0 <= j < i ==> !(#[trigger] self.actuators@[j].device@ == name@
                        && self.actuators@[j].capability == Capability::Vibrate),
            decreases self.actuators@.len() - i,
        {
            if self.actuators[i].capability == Capability::Vibrate
                && same_text(self.actuators[i].device.as_str(), name) {
                let mut r: Vec<String> = Vec::new();
                r.push(String::from_str("Vibrate"));
                assert(views(r@) =~= seq!["Vibrate"@]);
                return r;
            }
            i = i + 1;
        }
        Vec::new()
    }

    /// The identifiers of all known actuators, in order.
    pub fn list_actuator_identifiers(&self) -> (r: Vec<String>)
        ensures
            views(r@) == self.actuators@.map_values(|a: Actuator| a.identifier@),
    {
        let mut r: Vec<String> = Vec::new();
        let mut i: usize = 0;
        while i < self.actuators.len()
            invariant
                i <= self.actuators@.len(),
                views(r@) == self.actuators@.subrange(0, i as int).map_values(
                    |a: Actuator| a.identifier@,
                ),
            decreases self.actuators@.len() - i,
        {
            let ghost prev = r@;
            r.push(self.actuators[i].identifier.clone());
            assert(views(r@) =~= views(prev).push(self.actuators@[i as int].identifier@));
            assert(self.actuators@.subrange(0, i as int + 1).map_values(|a: Actuator| a.identifier@)
                =~= self.actuators@.subrange(0, i as int).map_values(
                |a: Actuator| a.identifier@,
            ).push(self.actuators@[i as int].identifier@));
            i = i + 1;
        }
        assert(self.actuators@.subrange(0, i as int) =~= self.actuators@);
        r
    }

    /// The first actuator with identifier `id`, if any.
    pub fn find_by_identifier(&self, id: &str) -> (r: Option<&Actuator>)
        ensures
            r matches Some(a) ==> exists|i: int|
                0 <= i < self.actuators@.len() && *a == #[trigger] self.actuators@[i]
                    && a.identifier@ == id@,
            r is None ==> forall|i: int|
                0 <= i < self.actuators@.len() ==> #[trigger] self.actuators@[i].identifier@
                    != id@,
    {
        let mut i: usize = 0;
        while i < self.actuators.len()
            invariant
                i <= self.actuators@.len(),
                forall|j: int| 0 <= j < i ==> #[trigger] self.actuators@[j].identifier@ != id@,
            decreases self.actuators@.len() - i,
        {
            if same_text(self.actuators[i].identifier.as_str(), id) {
                return Some(&self.actuators[i]);
            }
            i = i + 1;
        }
        None
    }
}

} // verus!
