//! Driver selection: which models this build supports, which port and
//! configuration a driver connects with, and which address of a discovered
//! speaker to use.
use vstd::prelude::*;

use crate::device::{DiscoveredDevice, Error, IpAddress, ModelId, Result};
use crate::s260::client::ClientConfig;
use crate::text::{decimal, push_char, push_decimal};

verus! {

/// Whether this build contains a driver for a model.
pub open spec fn is_supported(model: Seq<char>) -> bool {
    model == "s260"@
}

/// Returns whether this build contains a driver for the model.
pub fn supports_model(model: &ModelId) -> (r: bool)
    ensures
        r == is_supported(model@),
{
    crate::text::chars_eq(
        &crate::text::chars_of(model.as_str()),
        &crate::text::chars_of(crate::s260::MODEL_ID),
    )
}

/// The port a model's driver connects to: the requested port, else the
/// driver's verified default; a model without a driver is refused.
pub fn driver_port(model: &ModelId, port: Option<u16>) -> (r: Result<u16>)
    ensures
        match r {
            Ok(p) => is_supported(model@) && p == match port {
                Some(p) => p,
                None => crate::s260::DEFAULT_PORT,
            },
            Err(Error::UnsupportedModel(m)) => !is_supported(model@) && m@ == model@,
            Err(_) => false,
        },
{
    if !supports_model(model) {
        return Err(Error::UnsupportedModel(model.duplicate()));
    }
    Ok(
        match port {
            Some(p) => p,
            None => crate::s260::DEFAULT_PORT,
        },
    )
}

/// The S260 configuration the facade connects with: the given host and port,
/// with `timeout_ms` bounding both the connection and each request.
pub fn s260_config(host: String, port: u16, timeout_ms: u64) -> (c: ClientConfig)
    ensures
        c.host == host,
        c.port == port,
        c.connect_timeout_ms == timeout_ms,
        c.request_timeout_ms == timeout_ms,
        c.verification_timeout_ms == 1000,
        c.verification_interval_ms == 50,
{
    let mut config = ClientConfig::new(host);
    config.port = port;
    config.connect_timeout_ms = timeout_ms;
    config.request_timeout_ms = timeout_ms;
    config
}

/// The dotted-decimal text of an IPv4 address.
pub open spec fn dotted(o: Seq<u8>) -> Seq<char> {
    decimal(o[0] as nat) + seq!['.'] + decimal(o[1] as nat) + seq!['.'] + decimal(o[2] as nat)
        + seq!['.'] + decimal(o[3] as nat)
}

/// The first IPv4 address in a list.
pub open spec fn first_ipv4(a: Seq<IpAddress>) -> Option<Seq<u8>>
    decreases a.len(),
{
    if a.len() == 0 {
        None
    } else {
        match first_ipv4(a.drop_last()) {
            Some(o) => Some(o),
            None => match a.last() {
                IpAddress::V4(o) => Some(o@),
                IpAddress::V6(_) => None,
            },
        }
    }
}

/// The host to connect to: the first advertised IPv4 address, else the
/// advertised host name.
pub open spec fn preferred_host_of(d: DiscoveredDevice) -> Seq<char> {
    match first_ipv4(d.addresses@) {
        Some(o) => dotted(o),
        None => d.host@,
    }
}

/// Chooses the host to connect to for a discovered speaker.
pub fn preferred_host(device: &DiscoveredDevice) -> (h: String)
    ensures
        h@ == preferred_host_of(*device),
{
    let mut i: usize = 0;
    while i < device.addresses.len()
        invariant
            i <= device.addresses.len(),
            first_ipv4(device.addresses@.take(i as int)) is None,
        decreases device.addresses.len() - i,
    {
        assert(device.addresses@.take(i + 1).drop_last() == device.addresses@.take(i as int));
        match device.addresses[i] {
            IpAddress::V4(o) => {
                proof {
                    lemma_first_ipv4_prefix(device.addresses@, i as int + 1, o@);
                }
                let mut h = String::new();
                push_decimal(&mut h, o[0] as u128);
                push_char(&mut h, '.');
                push_decimal(&mut h, o[1] as u128);
                push_char(&mut h, '.');
                push_decimal(&mut h, o[2] as u128);
                push_char(&mut h, '.');
                push_decimal(&mut h, o[3] as u128);
                return h;
            },
            IpAddress::V6(_) => {},
        }
        i = i + 1;
    }
    assert(device.addresses@.take(device.addresses@.len() as int) == device.addresses@);
    device.host.clone()
}

proof fn lemma_first_ipv4_prefix(a: Seq<IpAddress>, n: int, o: Seq<u8>)
    requires
        0 < n <= a.len(),
        first_ipv4(a.take(n)) == Some(o),
    ensures
        first_ipv4(a) == Some(o),
    decreases a.len() - n,
{
    if n < a.len() {
        assert(a.take(n + 1).drop_last() == a.take(n));
        lemma_first_ipv4_prefix(a, n + 1, o);
    } else {
        assert(a.take(n) == a);
    }
}

/// The discovered devices whose model has a driver, in their order.
pub open spec fn supported_only(devices: Seq<DiscoveredDevice>) -> Seq<DiscoveredDevice>
    decreases devices.len(),
{
    if devices.len() == 0 {
        devices
    } else if is_supported(devices.last().model@) {
        supported_only(devices.drop_last()).push(devices.last())
    } else {
        supported_only(devices.drop_last())
    }
}


/// Every device the facade keeps has a driver in this build, and every
/// supported device is kept.
pub proof fn kept_devices_are_exactly_the_supported(devices: Seq<DiscoveredDevice>)
    ensures
        forall|i: int|
            0 <= i < supported_only(devices).len() ==> is_supported(
                #[trigger] supported_only(devices)[i].model@,
            ),
        forall|i: int|
            0 <= i < devices.len() && is_supported(#[trigger] devices[i].model@) ==> supported_only(
                devices,
            ).contains(devices[i]),
    decreases devices.len(),
{
    if devices.len() > 0 {
        let rest = devices.drop_last();
        kept_devices_are_exactly_the_supported(rest);
        assert forall|i: int|
            0 <= i < devices.len() && is_supported(#[trigger] devices[i].model@) implies supported_only(
                devices,
            ).contains(devices[i]) by {
            if i < devices.len() - 1 {
                assert(rest[i] == devices[i]);
                let k = choose|k: int| 0 <= k < supported_only(rest).len() && supported_only(rest)[k] == rest[i];
                assert(supported_only(devices)[k] == devices[i]);
            } else {
                assert(supported_only(devices).last() == devices[i]);
            }
        }
    }
}

/// Keeps only the devices supported by a driver in this build.
pub fn retain_supported(devices: Vec<DiscoveredDevice>) -> (r: Vec<DiscoveredDevice>)
    ensures
        r@ == supported_only(devices@),
{
    let mut devices = devices;
    let ghost all = devices@;
    let ghost mut taken: Seq<DiscoveredDevice> = Seq::empty();
    let mut kept: Vec<DiscoveredDevice> = Vec::new();
    assert(taken + devices@ =~= all);
    while devices.len() > 0
        invariant
            all == taken + devices@,
            kept@ == supported_only(taken),
        decreases devices.len(),
    {
        let ghost before = devices@;
        let d = devices.remove(0);
        let supported = supports_model(&d.model);
        proof {
            assert(taken.push(d) + devices@ =~= taken + before);
            assert(taken.push(d).drop_last() == taken);
            taken = taken.push(d);
        }
        if supported {
            kept.push(d);
        }
    }
    assert(taken + Seq::<DiscoveredDevice>::empty() == taken);
    kept
}

} // verus!
