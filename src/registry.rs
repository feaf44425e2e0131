//! The table of supported device types, the names under which their
//! backends listen, and the store paths of a device.

use vstd::prelude::*;
use crate::error::Error;

verus! {

/// The character of the decimal digit `d`.
pub open spec fn digit_char(d: nat) -> char {
    seq!['0', '1', '2', '3', '4', '5', '6', '7', '8', '9'][d as int]
}

/// The decimal digits of `n`, without leading zeros.
pub open spec fn decimal(n: nat) -> Seq<char>
    decreases n,
{
    if n < 10 {
        seq![digit_char(n)]
    } else {
        decimal(n / 10).push(digit_char(n % 10))
    }
}

/// The one-character string of the decimal digit `d`.
fn digit_str(d: u32) -> (r: &'static str)
    requires
        d < 10,
    ensures
        r@ == seq![digit_char(d as nat)],
{
    if d == 0 {
        proof {
            reveal_strlit("0");
        }
        "0"
    } else if d == 1 {
        proof {
            reveal_strlit("1");
        }
        "1"
    } else if d == 2 {
        proof {
            reveal_strlit("2");
        }
        "2"
    } else if d == 3 {
        proof {
            reveal_strlit("3");
        }
        "3"
    } else if d == 4 {
        proof {
            reveal_strlit("4");
        }
        "4"
    } else if d == 5 {
        proof {
            reveal_strlit("5");
        }
        "5"
    } else if d == 6 {
        proof {
            reveal_strlit("6");
        }
        "6"
    } else if d == 7 {
        proof {
            reveal_strlit("7");
        }
        "7"
    } else if d == 8 {
        proof {
            reveal_strlit("8");
        }
        "8"
    } else {
        proof {
            reveal_strlit("9");
        }
        "9"
    }
}

/// Appends the decimal digits of `n` to `s`.
fn append_decimal(s: &mut String, n: u32)
    ensures
        final(s)@ == old(s)@ + decimal(n as nat),
    decreases n,
{
    if n >= 10 {
        append_decimal(s, n / 10);
    }
    s.append(digit_str(n % 10));
    proof {
        if n >= 10 {
            assert(decimal(n as nat) == decimal((n / 10) as nat).push(digit_char((n % 10) as nat)));
            assert(old(s)@ + decimal((n / 10) as nat) + seq![digit_char((n % 10) as nat)]
                =~= old(s)@ + decimal(n as nat));
        } else {
            assert(decimal(n as nat) == seq![digit_char(n as nat)]);
        }
    }
}

/// The decimal digits of `n`, with no sign and no leading zeros.
fn decimal_string(n: u32) -> (r: String)
    ensures
        r@ == decimal(n as nat),
{
    let mut s = String::new();
    append_decimal(&mut s, n);
    s
}

/// Whether two strings hold the same characters.
pub fn str_eq(a: &str, b: &str) -> (r: bool)
    ensures
        r == (a@ == b@),
{
    let n = a.unicode_len();
    if n != b.unicode_len() {
        return false;
    }
    let mut i: usize = 0;
    while i < n
        invariant
            i <= n == a@.len() == b@.len(),
            forall|k: int| 0 <= k < i ==> a@[k] == b@[k],
        decreases n - i,
    {
        if a.get_char(i) != b.get_char(i) {
            return false;
        }
        i = i + 1;
    }
    assert(a@ =~= b@);
    true
}

/// A supported device type: its name, the device tree compatible string
/// that announces it, and how many of its backends were handed out.
pub struct DeviceInfo {
    pub name: String,
    pub compatible: String,
    pub index: u32,
}

impl DeviceInfo {
    /// The entry for device type `name` with virtio device id `id`: it is
    /// announced as `virtio,device<id>`.
    pub fn new(name: &str, id: u32) -> (r: DeviceInfo)
        ensures
            r.name@ == name@,
            r.compatible@ == "virtio,device"@ + decimal(id as nat),
            r.index == 0,
    {
        let mut compatible = String::from_str("virtio,device");
        let digits = decimal_string(id);
        compatible.append(digits.as_str());
        DeviceInfo { name: String::from_str(name), compatible, index: 0 }
    }

    /// Hands out the next backend instance number of this type.
    pub fn index(&mut self) -> (r: String)
        requires
            old(self).index < u32::MAX,
        ensures
            r@ == decimal(old(self).index as nat),
            final(self).index == old(self).index + 1,
            final(self).name == old(self).name,
            final(self).compatible == old(self).compatible,
    {
        self.index = self.index + 1;
        decimal_string(self.index - 1)
    }
}

/// A backend that was handed out: the device type's name and the socket the
/// backend listens on.
pub struct Backend {
    pub name: String,
    pub socket: String,
}

/// The supported device types.
pub struct DeviceTable {
    pub devices: Vec<DeviceInfo>,
}

/// Index of the first entry announced as `compatible`.
pub open spec fn find_compatible(devs: Seq<DeviceInfo>, compatible: Seq<char>) -> Option<int>
    decreases devs.len(),
{
    if devs.len() == 0 {
        None
    } else {
        match find_compatible(devs.drop_last(), compatible) {
            Some(i) => Some(i),
            None => if devs.last().compatible@ == compatible {
                Some(devs.len() - 1)
            } else {
                None
            },
        }
    }
}

proof fn lemma_find_compatible_bound(devs: Seq<DeviceInfo>, c: Seq<char>)
    ensures
        find_compatible(devs, c) matches Some(i) ==> 0 <= i < devs.len() && devs[i].compatible@ == c,
    decreases devs.len(),
{
    if devs.len() > 0 {
        lemma_find_compatible_bound(devs.drop_last(), c);
    }
}

proof fn lemma_find_compatible_prefix(devs: Seq<DeviceInfo>, c: Seq<char>, n: int)
    requires
        0 <= n <= devs.len(),
        find_compatible(devs.subrange(0, n), c) is Some,
    ensures
        find_compatible(devs, c) == find_compatible(devs.subrange(0, n), c),
    decreases devs.len() - n,
{
    if n < devs.len() {
        assert(devs.subrange(0, n + 1).drop_last() =~= devs.subrange(0, n));
        lemma_find_compatible_prefix(devs, c, n + 1);
    } else {
        assert(devs.subrange(0, n) =~= devs);
    }
}

/// Socket path of backend number `index` of device type `name`.
pub open spec fn socket_path(prefix: Seq<char>, name: Seq<char>, index: u32) -> Seq<char> {
    prefix + name + ".sock"@ + decimal(index as nat)
}

impl DeviceTable {
    /// The device types this frontend serves: I2C (virtio id 22) and GPIO
    /// (virtio id 29).
    pub fn supported() -> (r: DeviceTable)
        ensures
            r.devices@.len() == 2,
            r.devices@[0].name@ == "i2c"@,
            r.devices@[0].compatible@ == "virtio,device"@ + decimal(22),
            r.devices@[1].name@ == "gpio"@,
            r.devices@[1].compatible@ == "virtio,device"@ + decimal(29),
            forall|i: int| 0 <= i < r.devices@.len() ==> (#[trigger] r.devices@[i]).index == 0,
    {
        let mut devices: Vec<DeviceInfo> = Vec::new();
        devices.push(DeviceInfo::new("i2c", 22));
        devices.push(DeviceInfo::new("gpio", 29));
        DeviceTable { devices }
    }

    /// Index of the entry announced as `compatible`.
    pub fn find(&self, compatible: &str) -> (r: Option<usize>)
        ensures
            r matches Some(i) ==> find_compatible(self.devices@, compatible@) == Some(i as int),
            r is None ==> find_compatible(self.devices@, compatible@) is None,
    {
        let mut i: usize = 0;
        while i < self.devices.len()
            invariant
                i <= self.devices.len(),
                find_compatible(self.devices@.subrange(0, i as int), compatible@) is None,
            decreases self.devices.len() - i,
        {
            let ghost p = self.devices@.subrange(0, i + 1);
            assert(p.drop_last() =~= self.devices@.subrange(0, i as int));
            if str_eq(self.devices[i].compatible.as_str(), compatible) {
                proof {
                    lemma_find_compatible_prefix(self.devices@, compatible@, i + 1);
                }
                return Some(i);
            }
            i = i + 1;
        }
        assert(self.devices@.subrange(0, i as int) =~= self.devices@);
        None
    }

    /// Hands out the next backend of the type announced as `compatible`:
    /// its socket is `<prefix><name>.sock<n>`, where `n` counts the backends
    /// of that type handed out before. A type with no entry, or whose
    /// instance numbers are used up, is not supported.
    pub fn claim(&mut self, compatible: &str, prefix: &str) -> (r: Result<Backend, Error>)
        ensures
            final(self).devices@.len() == old(self).devices@.len(),
            match find_compatible(old(self).devices@, compatible@) {
                None => r matches Err(Error::XenDevNotSupported(c)) && c@ == compatible@
                    && final(self).devices@ == old(self).devices@,
                Some(i) => {
                    let d = old(self).devices@[i];
                    if d.index == u32::MAX {
                        r matches Err(Error::XenDevNotSupported(c)) && c@ == compatible@
                            && final(self).devices@ == old(self).devices@
                    } else {
                        &&& r matches Ok(b) && b.name@ == d.name@ && b.socket@ == socket_path(
                            prefix@,
                            d.name@,
                            d.index,
                        )
                        &&& final(self).devices@[i].index == d.index + 1
                        &&& final(self).devices@[i].name == d.name
                        &&& final(self).devices@[i].compatible == d.compatible
                        &&& forall|j: int| 0 <= j < old(self).devices@.len() && j != i
                            ==> final(self).devices@[j] == old(self).devices@[j]
                    }
                },
            },
    {
        proof {
            lemma_find_compatible_bound(self.devices@, compatible@);
        }
        match self.find(compatible) {
            None => Err(Error::XenDevNotSupported(String::from_str(compatible))),
            Some(i) => {
                if self.devices[i].index == u32::MAX {
                    return Err(Error::XenDevNotSupported(String::from_str(compatible)));
                }
                let n = self.devices[i].index();
                let mut socket = String::from_str(prefix);
                socket.append(self.devices[i].name.as_str());
                socket.append(".sock");
                socket.append(n.as_str());
                let name = String::from_str(self.devices[i].name.as_str());
                Ok(Backend { name, socket })
            },
        }
    }
}

/// Root of the store directory under which backends find their devices.
pub const BACKEND_PATH: &'static str = "backend/virtio";

/// Store directory of device `dev_id` of domain `domid`:
/// `backend/virtio/<domid>/<dev_id>`.
pub fn device_dir(domid: u16, dev_id: u32) -> (r: String)
    ensures
        r@ == BACKEND_PATH@ + "/"@ + decimal(domid as nat) + "/"@ + decimal(dev_id as nat),
{
    let mut s = String::from_str(BACKEND_PATH);
    s.append("/");
    let d = decimal_string(domid as u32);
    s.append(d.as_str());
    s.append("/");
    let v = decimal_string(dev_id);
    s.append(v.as_str());
    s
}

/// Store path of `node` under `dir`.
pub fn node_path(dir: &str, node: &str) -> (r: String)
    ensures
        r@ == dir@ + "/"@ + node@,
{
    let mut s = String::from_str(dir);
    s.append("/");
    s.append(node);
    s
}

/// Index of `port` among the event channel ports bound for each virtual
/// CPU: the virtual CPU whose request is pending.
pub fn vcpu_of_port(ports: &Vec<u32>, port: u32) -> (r: Option<u32>)
    requires
        ports@.len() <= u32::MAX,
    ensures
        r matches Some(c) ==> c < ports@.len() && ports@[c as int] == port
            && forall|k: int| 0 <= k < c ==> ports@[k] != port,
        r is None ==> forall|k: int| 0 <= k < ports@.len() ==> ports@[k] != port,
{
    let mut i: usize = 0;
    while i < ports.len()
        invariant
            i <= ports@.len() <= u32::MAX,
            forall|k: int| 0 <= k < i ==> ports@[k] != port,
        decreases ports.len() - i,
    {
        if ports[i] == port {
            return Some(i as u32);
        }
        i = i + 1;
    }
    None
}

} // verus!
