//! The admitted devices, keyed by their address.

use vstd::prelude::*;
use vstd::slice::slice_to_vec;

verus! {

/// A network address.
#[derive(Debug, Clone, Copy, PartialEq, Eq, Structural, Hash)]
pub enum IpAddress {
    /// An IPv4 address, most significant octet first.
    V4(u32),
    /// An IPv6 address, most significant octet first.
    V6(u128),
}

/// A client that passed admission.
#[derive(Debug)]
pub struct Device {
    /// Display name, as UTF-8 bytes.
    pub name: Vec<u8>,
    pub ip: IpAddress,
    pub width: u32,
    pub height: u32,
}

/// `d` holds exactly these values.
pub open spec fn device_is(d: Device, name: Seq<u8>, ip: IpAddress, width: u32, height: u32) -> bool {
    d.name@ == name && d.ip == ip && d.width == width && d.height == height
}

/// Whether some device of `s` has address `ip`.
pub open spec fn has_ip(s: Seq<Device>, ip: IpAddress) -> bool {
    exists|i: int| 0 <= i < s.len() && (#[trigger] s[i]).ip == ip
}

/// No two devices of `s` share an address.
pub open spec fn unique_ips(s: Seq<Device>) -> bool {
    forall|i: int, j: int| 0 <= i < j < s.len() ==> (#[trigger] s[i]).ip != (#[trigger] s[j]).ip
}

/// `after` is `before` with the device at `ip` set to these values: replaced
/// in place if the address was known, appended otherwise.
pub open spec fn upserted(
    before: Seq<Device>,
    after: Seq<Device>,
    name: Seq<u8>,
    ip: IpAddress,
    width: u32,
    height: u32,
) -> bool {
    if has_ip(before, ip) {
        exists|i: int|
            #![trigger before[i]]
            0 <= i < before.len() && before[i].ip == ip && after.len() == before.len() && device_is(
                after[i],
                name,
                ip,
                width,
                height,
            ) && forall|j: int| 0 <= j < before.len() && j != i ==> after[j] == before[j]
    } else {
        after.len() == before.len() + 1 && after.drop_last() == before && device_is(
            after.last(),
            name,
            ip,
            width,
            height,
        )
    }
}

impl Device {
    /// A device with the same values.
    pub fn duplicate(&self) -> (r: Device)
        ensures
            device_is(r, self.name@, self.ip, self.width, self.height),
    {
        Device {
            name: slice_to_vec(self.name.as_slice()),
            ip: self.ip,
            width: self.width,
            height: self.height,
        }
    }
}

/// The admitted devices, in the order they were admitted, at most one per
/// address.
pub struct DeviceRegistry {
    devices: Vec<Device>,
}

impl View for DeviceRegistry {
    type V = Seq<Device>;

    closed spec fn view(&self) -> Seq<Device> {
        self.devices@
    }
}

impl DeviceRegistry {
    pub open spec fn wf(&self) -> bool {
        unique_ips(self@)
    }

    pub fn new() -> (r: DeviceRegistry)
        ensures
            r.wf(),
            r@ == Seq::<Device>::empty(),
    {
        DeviceRegistry { devices: Vec::new() }
    }

    /// The position of the device at `ip`, if there is one.
    fn position(&self, ip: IpAddress) -> (r: Option<usize>)
        ensures
            match r {
                Some(i) => i < self@.len() && self@[i as int].ip == ip,
                None => !has_ip(self@, ip),
            },
    {
        let mut i: usize = 0;
        while i < self.devices.len()
            invariant
                i <= self@.len(),
                self@ == self.devices@,
                forall|k: int| 0 <= k < i ==> (#[trigger] self@[k]).ip != ip,
            decreases self@.len() - i,
        {
            if self.devices[i].ip == ip {
                return Some(i);
            }
            i = i + 1;
        }
        None
    }

    /// Whether a device with address `ip` is admitted.
    pub fn contains(&self, ip: IpAddress) -> (r: bool)
        ensures
            r == has_ip(self@, ip),
    {
        self.position(ip).is_some()
    }

    /// Admits `device`, whose address must be new.
    pub fn insert(&mut self, device: Device)
        requires
            old(self).wf(),
            !has_ip(old(self)@, device.ip),
        ensures
            final(self).wf(),
            final(self)@ == old(self)@.push(device),
    {
        self.devices.push(device);
        proof {
            assert forall|i: int, j: int| 0 <= i < j < self@.len() implies (
            #[trigger] self@[i]).ip != (#[trigger] self@[j]).ip by {
                if j == self@.len() - 1 {
                    assert(old(self)@[i] == self@[i]);
                }
            }
        }
    }

    /// Records `device`, replacing the one at its address if there is one.
    pub fn upsert(&mut self, device: Device)
        requires
            old(self).wf(),
        ensures
            final(self).wf(),
            upserted(old(self)@, final(self)@, device.name@, device.ip, device.width, device.height),
    {
        match self.position(device.ip) {
            Some(i) => {
                self.devices.set(i, device);
                proof {
                    assert(self@ == old(self)@.update(i as int, device));
                    assert forall|a: int, b: int| 0 <= a < b < self@.len() implies (
                    #[trigger] self@[a]).ip != (#[trigger] self@[b]).ip by {
                        if a != i && b != i {
                            assert(old(self)@[a] == self@[a]);
                            assert(old(self)@[b] == self@[b]);
                        }
                    }
                }
            },
            None => {
                let ghost before = self@;
                self.insert(device);
                assert(self@.drop_last() =~= before);
            },
        }
    }

    /// Removes the device at `ip`, if there is one, and returns it.
    pub fn remove(&mut self, ip: IpAddress) -> (r: Option<Device>)
        requires
            old(self).wf(),
        ensures
            final(self).wf(),
            r is None <==> !has_ip(old(self)@, ip),
            r is None ==> final(self)@ == old(self)@,
            r matches Some(d) ==> exists|i: int|
                0 <= i < old(self)@.len() && old(self)@[i].ip == ip && d == old(self)@[i]
                    && final(self)@ == old(self)@.remove(i),
            !has_ip(final(self)@, ip),
    {
        match self.position(ip) {
            Some(i) => {
                let d = self.devices.remove(i);
                proof {
                    let o = old(self)@;
                    assert(self@ =~= o.remove(i as int));
                    assert forall|a: int, b: int| 0 <= a < b < self@.len() implies (
                    #[trigger] self@[a]).ip != (#[trigger] self@[b]).ip by {
                        let a0 = if a < i { a } else { a + 1 };
                        let b0 = if b < i { b } else { b + 1 };
                        assert(self@[a] == o[a0]);
                        assert(self@[b] == o[b0]);
                    }
                    assert forall|k: int| 0 <= k < self@.len() implies (#[trigger] self@[k]).ip
                        != ip by {
                        let k0 = if k < i { k } else { k + 1 };
                        assert(self@[k] == o[k0]);
                    }
                }
                Some(d)
            },
            None => None,
        }
    }

    /// Forgets every device.
    pub fn clear(&mut self)
        ensures
            final(self).wf(),
            final(self)@ == Seq::<Device>::empty(),
    {
        self.devices.clear();
    }

    /// The number of admitted devices.
    pub fn len(&self) -> (r: usize)
        ensures
            r == self@.len(),
    {
        self.devices.len()
    }

    /// Every admitted device, in the order of admission.
    pub fn devices(&self) -> (r: &[Device])
        ensures
            r@ == self@,
    {
        self.devices.as_slice()
    }
}

} // verus!
