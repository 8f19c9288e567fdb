//! Recognition of EDIFIER speakers among the AirPlay services announced on
//! the local network. Browsing mDNS is the caller's; the records it resolves
//! are classified here.
use vstd::prelude::*;

use crate::device::{DiscoveredDevice, IpAddress, ModelId};
use crate::text::{
    chars_eq, chars_of, contains, contains_chars, eq_ignore_ascii_case, eq_ignore_case, lower,
    lower_chars, string_of,
};

verus! {

/// DNS-SD service used to identify the verified S260.
pub const AIRPLAY_SERVICE: &'static str = "_airplay._tcp.local.";

/// AirPlay `model` property advertised by the S260.
pub const S260_AIRPLAY_MODEL: &'static str = "EDF100122";

/// The model a service is classified as: the S260 when it advertises the
/// verified S260 AirPlay hardware model (ASCII case ignored), else the
/// advertised model in lower case. The instance name, which users may choose
/// freely, never selects a driver.
pub open spec fn model_of(advertised_model: Seq<char>) -> Seq<char> {
    if eq_ignore_case(advertised_model, "EDF100122"@) {
        lower("s260"@)
    } else {
        lower(advertised_model)
    }
}

/// Classifies an advertised service by its AirPlay hardware model; the
/// instance name is accepted for the record but does not take part.
pub fn classify_model(name: &str, advertised_model: &str) -> (m: ModelId)
    ensures
        m@ == model_of(advertised_model@),
{
    if eq_ignore_ascii_case(advertised_model, "EDF100122") {
        ModelId::new("s260")
    } else {
        ModelId::new(advertised_model)
    }
}

/// A resolved AirPlay service record, as far as classification reads it.
#[derive(Debug, Clone, PartialEq, Eq)]
pub struct ServiceRecord {
    /// Full DNS-SD instance name, such as `Living Room._airplay._tcp.local.`.
    pub fullname: String,
    /// Advertised host name.
    pub hostname: String,
    /// The `manufacturer` TXT property, when present.
    pub manufacturer: Option<String>,
    /// The `model` TXT property, when present.
    pub model: Option<String>,
    /// The `deviceid` TXT property, when present.
    pub device_id: Option<String>,
    /// Advertised addresses.
    pub addresses: Vec<IpAddress>,
}

/// A text without its trailing copies of `c`.
pub open spec fn trim_end(s: Seq<char>, c: char) -> Seq<char>
    decreases s.len(),
{
    if s.len() > 0 && s.last() == c {
        trim_end(s.drop_last(), c)
    } else {
        s
    }
}

/// A text without `suffix`, when it ends with it.
pub open spec fn strip_suffix(s: Seq<char>, suffix: Seq<char>) -> Seq<char> {
    if suffix.len() <= s.len() && s.subrange(s.len() - suffix.len(), s.len() as int) == suffix {
        s.take(s.len() - suffix.len())
    } else {
        s
    }
}

/// The sort key of an address: every IPv4 address before every IPv6
/// address, each family in numeric order, as the standard library orders
/// `IpAddr`.
pub open spec fn address_key(a: IpAddress) -> int {
    match a {
        IpAddress::V4(o) => 16777216 * (o[0] as int) + 65536 * (o[1] as int) + 256 * (o[2] as int)
            + o[3] as int,
        IpAddress::V6(s) => 0x1_0000_0000 + 0x10000_0000_0000_0000_0000_0000_0000 * (s[0] as int)
            + 0x1_0000_0000_0000_0000_0000_0000 * (s[1] as int) + 0x1_0000_0000_0000_0000_0000
            * (s[2] as int) + 0x1_0000_0000_0000_0000 * (s[3] as int) + 0x1_0000_0000_0000
            * (s[4] as int) + 0x1_0000_0000 * (s[5] as int) + 0x1_0000 * (s[6] as int) + s[7] as int,
    }
}

/// Whether addresses are in ascending order.
pub open spec fn addresses_sorted(a: Seq<IpAddress>) -> bool {
    forall|i: int, j: int| 0 <= i < j < a.len() ==> address_key(a[i]) <= address_key(a[j])
}

fn address_le(a: &IpAddress, b: &IpAddress) -> (r: bool)
    ensures
        r == (address_key(*a) <= address_key(*b)),
{
    match (a, b) {
        (IpAddress::V4(_), IpAddress::V6(_)) => true,
        (IpAddress::V6(_), IpAddress::V4(_)) => false,
        (IpAddress::V4(x), IpAddress::V4(y)) => {
            let kx = (x[0] as u32) * 16777216 + (x[1] as u32) * 65536 + (x[2] as u32) * 256
                + x[3] as u32;
            let ky = (y[0] as u32) * 16777216 + (y[1] as u32) * 65536 + (y[2] as u32) * 256
                + y[3] as u32;
            kx <= ky
        },
        (IpAddress::V6(x), IpAddress::V6(y)) => {
            let mut kx: u128 = 0;
            let mut ky: u128 = 0;
            let mut i: usize = 0;
            while i < 8
                invariant
                    i <= 8,
                    kx == segments_value(x@.take(i as int)),
                    ky == segments_value(y@.take(i as int)),
                    kx < pow65536(i as nat),
                    ky < pow65536(i as nat),
                decreases 8 - i,
            {
                proof {
                    assert(x@.take(i + 1).drop_last() == x@.take(i as int));
                    assert(y@.take(i + 1).drop_last() == y@.take(i as int));
                    assert(pow65536((i + 1) as nat) == 65536 * pow65536(i as nat));
                    assert(kx * 65536 + 65535 < pow65536((i + 1) as nat)) by (nonlinear_arith)
                        requires
                            kx < pow65536(i as nat),
                            pow65536((i + 1) as nat) == 65536 * pow65536(i as nat),
                    ;
                    assert(ky * 65536 + 65535 < pow65536((i + 1) as nat)) by (nonlinear_arith)
                        requires
                            ky < pow65536(i as nat),
                            pow65536((i + 1) as nat) == 65536 * pow65536(i as nat),
                    ;
                    lemma_pow65536_8();
                    assert(pow65536((i + 1) as nat) <= pow65536(8)) by {
                        lemma_pow65536_mono((i + 1) as nat, 8);
                    }
                }
                kx = kx * 65536 + x[i] as u128;
                ky = ky * 65536 + y[i] as u128;
                i = i + 1;
            }
            proof {
                assert(x@.take(8) == x@);
                assert(y@.take(8) == y@);
                lemma_segments_value_8(x@);
                lemma_segments_value_8(y@);
            }
            kx <= ky
        },
    }
}

/// The number whose base-65536 digits are the segments, most significant first.
pub open spec fn segments_value(s: Seq<u16>) -> nat
    decreases s.len(),
{
    if s.len() == 0 {
        0
    } else {
        segments_value(s.drop_last()) * 65536 + s.last() as nat
    }
}

/// `65536` to the power `n`.
pub open spec fn pow65536(n: nat) -> nat
    decreases n,
{
    if n == 0 {
        1
    } else {
        65536 * pow65536((n - 1) as nat)
    }
}

proof fn lemma_pow65536_8()
    ensures
        pow65536(8) == 0x1_0000_0000_0000_0000_0000_0000_0000_0000,
{
    reveal_with_fuel(pow65536, 9);
}

proof fn lemma_pow65536_mono(a: nat, b: nat)
    requires
        a <= b,
    ensures
        pow65536(a) <= pow65536(b),
    decreases b,
{
    if a < b {
        lemma_pow65536_mono(a, (b - 1) as nat);
    }
}

proof fn lemma_segments_value_8(s: Seq<u16>)
    requires
        s.len() == 8,
    ensures
        segments_value(s) == 0x10000_0000_0000_0000_0000_0000_0000 * (s[0] as int)
            + 0x1_0000_0000_0000_0000_0000_0000 * (s[1] as int) + 0x1_0000_0000_0000_0000_0000
            * (s[2] as int) + 0x1_0000_0000_0000_0000 * (s[3] as int) + 0x1_0000_0000_0000
            * (s[4] as int) + 0x1_0000_0000 * (s[5] as int) + 0x1_0000 * (s[6] as int)
            + s[7] as int,
{
    reveal_with_fuel(segments_value, 9);
    assert(s.drop_last().drop_last().drop_last().drop_last().drop_last().drop_last().drop_last().drop_last().len() == 0);
}

/// Sorts addresses in ascending order, keeping equal addresses in their
/// original order.
pub fn sort_addresses(addresses: Vec<IpAddress>) -> (r: Vec<IpAddress>)
    ensures
        addresses_sorted(r@),
        r@.to_multiset() == addresses@.to_multiset(),
{
    let mut out: Vec<IpAddress> = Vec::new();
    let mut i: usize = 0;
    broadcast use vstd::seq_lib::group_to_multiset_ensures;
    while i < addresses.len()
        invariant
            i <= addresses.len(),
            addresses_sorted(out@),
            out@.to_multiset() == addresses@.take(i as int).to_multiset(),
        decreases addresses.len() - i,
    {
        let a = addresses[i];
        let mut pos: usize = out.len();
        while pos > 0 && !address_le(&out[pos - 1], &a)
            invariant
                pos <= out.len(),
                addresses_sorted(out@),
                forall|j: int| pos <= j < out.len() ==> address_key(a) < address_key(#[trigger] out@[j]),
            decreases pos,
        {
            pos = pos - 1;
        }
        let ghost before = out@;
        out.insert(pos, a);
        proof {
            assert(out@ == before.insert(pos as int, a));
            assert forall|x: int, y: int| 0 <= x < y < out@.len() implies address_key(out@[x])
                <= address_key(out@[y]) by {
                if pos > 0 {
                    assert(address_key(before[pos - 1]) <= address_key(a));
                }
            }
            assert(addresses@.take(i + 1) == addresses@.take(i as int).push(a));
            vstd::seq_lib::to_multiset_insert(before, pos as int, a);
            vstd::seq_lib::to_multiset_build(addresses@.take(i as int), a);
        }
        i = i + 1;
    }
    assert(addresses@.take(addresses@.len() as int) == addresses@);
    out
}

/// `"edifier"`.
pub open spec fn edifier_word() -> Seq<char> {
    "edifier"@
}

/// Whether a record announces an EDIFIER device: its manufacturer or its
/// full name mentions `edifier` in any case.
pub open spec fn is_edifier(r: ServiceRecord) -> bool {
    contains(
        lower(
            match r.manufacturer {
                Some(m) => m@,
                None => Seq::empty(),
            },
        ),
        edifier_word(),
    ) || contains(lower(r.fullname@), edifier_word())
}

/// The speaker name a record announces: its full name without the service
/// suffix and trailing dots.
pub open spec fn service_name(r: ServiceRecord) -> Seq<char> {
    trim_end(strip_suffix(r.fullname@, AIRPLAY_SERVICE@), '.')
}

/// The device identifier a record announces: its non-empty `deviceid`, else
/// its host name.
pub open spec fn service_id(r: ServiceRecord) -> Seq<char> {
    match r.device_id {
        Some(id) => if id@.len() > 0 {
            id@
        } else {
            r.hostname@
        },
        None => r.hostname@,
    }
}

/// A device is identified by the `deviceid` it advertises; its host name
/// stands in only when it advertises none, or an empty one.
pub proof fn devices_are_identified_by_their_deviceid(r: ServiceRecord)
    ensures
        r.device_id matches Some(id) ==> (id@.len() > 0 ==> service_id(r) == id@),
        (r.device_id is None || (r.device_id matches Some(id) && id@.len() == 0)) ==> service_id(r)
            == r.hostname@,
{
}

fn trim_end_chars(v: &Vec<char>, c: char) -> (r: Vec<char>)
    ensures
        r@ == trim_end(v@, c),
{
    let mut n = v.len();
    assert(v@.take(n as int) == v@);
    while n > 0 && v[n - 1] == c
        invariant
            n <= v.len(),
            trim_end(v@.take(n as int), c) == trim_end(v@, c),
        decreases n,
    {
        assert(v@.take(n as int).drop_last() == v@.take(n - 1));
        n = n - 1;
    }
    let mut r: Vec<char> = Vec::new();
    let mut i: usize = 0;
    while i < n
        invariant
            i <= n <= v.len(),
            r@ == v@.take(i as int),
        decreases n - i,
    {
        r.push(v[i]);
        i = i + 1;
        assert(r@ == v@.take(i as int));
    }
    assert(v@.take(v@.len() as int) == v@);
    r
}

fn strip_suffix_chars(v: &Vec<char>, suffix: &Vec<char>) -> (r: Vec<char>)
    ensures
        r@ == strip_suffix(v@, suffix@),
{
    if suffix.len() > v.len() {
        return v.clone();
    }
    let start = v.len() - suffix.len();
    let mut tail: Vec<char> = Vec::new();
    let mut i: usize = start;
    while i < v.len()
        invariant
            start <= i <= v.len(),
            start == v.len() - suffix.len(),
            tail@ == v@.subrange(start as int, i as int),
        decreases v.len() - i,
    {
        tail.push(v[i]);
        i = i + 1;
    }
    if !chars_eq(&tail, suffix) {
        return v.clone();
    }
    let mut r: Vec<char> = Vec::new();
    let mut i: usize = 0;
    while i < start
        invariant
            i <= start <= v.len(),
            r@ == v@.take(i as int),
        decreases start - i,
    {
        r.push(v[i]);
        i = i + 1;
        assert(r@ == v@.take(i as int));
    }
    r
}

/// Turns a resolved AirPlay record into a speaker candidate, or `None` when
/// it does not announce an EDIFIER device.
pub fn classify(record: ServiceRecord) -> (r: Option<DiscoveredDevice>)
    ensures
        match r {
            None => !is_edifier(record),
            Some(d) => is_edifier(record) && d.name@ == service_name(record) && d.model@
                == model_of(
                match record.model {
                    Some(m) => m@,
                    None => "unknown"@,
                },
            ) && d.id@ == service_id(record) && d.host@ == trim_end(record.hostname@, '.')
                && addresses_sorted(d.addresses@) && d.addresses@.to_multiset()
                == record.addresses@.to_multiset(),
        },
        r matches Some(d) ==> (record.device_id matches Some(id) ==> (id@.len() > 0 ==> d.id@
            == id@)),
{
    let manufacturer = match &record.manufacturer {
        Some(m) => chars_of(m.as_str()),
        None => Vec::new(),
    };
    let edifier = chars_of("edifier");
    let fullname = chars_of(record.fullname.as_str());
    if !contains_chars(&lower_chars(&manufacturer), &edifier) && !contains_chars(
        &lower_chars(&fullname),
        &edifier,
    ) {
        return None;
    }
    let name = string_of(&trim_end_chars(&strip_suffix_chars(&fullname, &chars_of(AIRPLAY_SERVICE)), '.'));
    let model = match &record.model {
        Some(m) => classify_model(name.as_str(), m.as_str()),
        None => classify_model(name.as_str(), "unknown"),
    };
    let id = match &record.device_id {
        Some(id) => if id.as_str().unicode_len() > 0 {
            id.clone()
        } else {
            record.hostname.clone()
        },
        None => record.hostname.clone(),
    };
    let host = string_of(&trim_end_chars(&chars_of(record.hostname.as_str()), '.'));
    Some(
        DiscoveredDevice { id, name, model, host, addresses: sort_addresses(record.addresses) },
    )
}


/// Whether one name sorts before or equal to another: lexicographic order
/// of code points, which is the order of `String` (byte-wise on UTF-8).
pub open spec fn name_le(a: Seq<char>, b: Seq<char>) -> bool
    decreases a.len(),
{
    if a.len() == 0 {
        true
    } else if b.len() == 0 {
        false
    } else if a[0] != b[0] {
        a[0] < b[0]
    } else {
        name_le(a.drop_first(), b.drop_first())
    }
}

proof fn lemma_name_le_total(a: Seq<char>, b: Seq<char>)
    ensures
        name_le(a, b) || name_le(b, a),
    decreases a.len(),
{
    if a.len() > 0 && b.len() > 0 && a[0] == b[0] {
        lemma_name_le_total(a.drop_first(), b.drop_first());
    }
}

proof fn lemma_name_le_transitive(a: Seq<char>, b: Seq<char>, c: Seq<char>)
    requires
        name_le(a, b),
        name_le(b, c),
    ensures
        name_le(a, c),
    decreases a.len(),
{
    if a.len() > 0 && b.len() > 0 && c.len() > 0 && a[0] == b[0] && b[0] == c[0] {
        lemma_name_le_transitive(a.drop_first(), b.drop_first(), c.drop_first());
    }
}

fn name_le_exec(a: &str, b: &str) -> (r: bool)
    ensures
        r == name_le(a@, b@),
{
    let x = chars_of(a);
    let y = chars_of(b);
    let mut i: usize = 0;
    assert(a@.skip(0) == a@ && b@.skip(0) == b@);
    while i < x.len() && i < y.len() && x[i] == y[i]
        invariant
            x@ == a@,
            y@ == b@,
            i <= x.len(),
            i <= y.len(),
            name_le(a@, b@) == name_le(a@.skip(i as int), b@.skip(i as int)),
        decreases x.len() - i,
    {
        assert(a@.skip(i as int).drop_first() == a@.skip(i + 1));
        assert(b@.skip(i as int).drop_first() == b@.skip(i + 1));
        i = i + 1;
    }
    if i == x.len() {
        return true;
    }
    if i == y.len() {
        return false;
    }
    x[i] < y[i]
}

/// Whether candidates are in ascending order of name.
pub open spec fn sorted_by_name(d: Seq<DiscoveredDevice>) -> bool {
    forall|i: int, j: int| 0 <= i < j < d.len() ==> name_le(d[i].name@, d[j].name@)
}

/// The candidates with the first of each identifier kept, in their order.
pub open spec fn unique_by_id(s: Seq<DiscoveredDevice>) -> Seq<DiscoveredDevice>
    decreases s.len(),
{
    if s.len() == 0 {
        s
    } else {
        let r = unique_by_id(s.drop_last());
        if exists|k: int| 0 <= k < r.len() && r[k].id@ == s.last().id@ {
            r
        } else {
            r.push(s.last())
        }
    }
}

/// Inserts a candidate into a run sorted by name, after every candidate whose
/// name sorts before or equal to its own.
pub open spec fn insert_by_name(sorted: Seq<DiscoveredDevice>, d: DiscoveredDevice) -> Seq<
    DiscoveredDevice,
>
    decreases sorted.len(),
{
    if sorted.len() == 0 || name_le(sorted.last().name@, d.name@) {
        sorted.push(d)
    } else {
        insert_by_name(sorted.drop_last(), d).push(sorted.last())
    }
}

/// The candidates in ascending order of name; candidates with equal names
/// keep their relative order.
pub open spec fn stable_sort_by_name(s: Seq<DiscoveredDevice>) -> Seq<DiscoveredDevice>
    decreases s.len(),
{
    if s.len() == 0 {
        s
    } else {
        insert_by_name(stable_sort_by_name(s.drop_last()), s.last())
    }
}

/// Whether no two candidates share an identifier.
pub open spec fn ids_distinct(s: Seq<DiscoveredDevice>) -> bool {
    forall|i: int, j: int| 0 <= i < j < s.len() ==> s[i].id@ != s[j].id@
}

/// Whether some candidate carries the identifier `id`.
pub open spec fn has_id(s: Seq<DiscoveredDevice>, id: Seq<char>) -> bool {
    exists|k: int| 0 <= k < s.len() && #[trigger] s[k].id@ == id
}

proof fn lemma_unique_ids(s: Seq<DiscoveredDevice>)
    ensures
        ids_distinct(unique_by_id(s)),
        forall|id: Seq<char>| has_id(unique_by_id(s), id) <==> has_id(s, id),
    decreases s.len(),
{
    if s.len() > 0 {
        let t = s.drop_last();
        let last = s.last();
        lemma_unique_ids(t);
        let r = unique_by_id(t);
        let u = unique_by_id(s);
        assert forall|id: Seq<char>| has_id(s, id) <==> (has_id(t, id) || id == last.id@) by {
            if has_id(s, id) {
                let k = choose|k: int| 0 <= k < s.len() && #[trigger] s[k].id@ == id;
                if k < t.len() {
                    assert(t[k].id@ == id);
                }
            }
            if has_id(t, id) {
                let k = choose|k: int| 0 <= k < t.len() && #[trigger] t[k].id@ == id;
                assert(s[k].id@ == id);
            }
            if id == last.id@ {
                assert(s[s.len() - 1].id@ == id);
            }
        }
        if exists|k: int| 0 <= k < r.len() && r[k].id@ == last.id@ {
            assert(u == r);
            let k = choose|k: int| 0 <= k < r.len() && r[k].id@ == last.id@;
            assert(r[k].id@ == last.id@);
            assert(has_id(r, last.id@));
        } else {
            assert(u == r.push(last));
            assert forall|id: Seq<char>| has_id(u, id) <==> (has_id(r, id) || id == last.id@) by {
                if has_id(r, id) {
                    let k = choose|k: int| 0 <= k < r.len() && #[trigger] r[k].id@ == id;
                    assert(u[k].id@ == id);
                }
                if id == last.id@ {
                    assert(u[r.len() as int].id@ == id);
                }
                if has_id(u, id) {
                    let k = choose|k: int| 0 <= k < u.len() && #[trigger] u[k].id@ == id;
                    if k < r.len() {
                        assert(r[k].id@ == id);
                    }
                }
            }
            assert forall|i: int, j: int| 0 <= i < j < u.len() implies u[i].id@ != u[j].id@ by {
                assert(u[i] == r[i] || i == r.len());
                if j == r.len() {
                    assert(u[i].id@ == r[i].id@);
                }
            }
        }
    }
}

proof fn lemma_insert_ids(sorted: Seq<DiscoveredDevice>, d: DiscoveredDevice)
    requires
        ids_distinct(sorted),
        !has_id(sorted, d.id@),
    ensures
        ids_distinct(insert_by_name(sorted, d)),
        forall|id: Seq<char>|
            has_id(insert_by_name(sorted, d), id) <==> (has_id(sorted, id) || id == d.id@),
    decreases sorted.len(),
{
    let r = insert_by_name(sorted, d);
    if sorted.len() == 0 || name_le(sorted.last().name@, d.name@) {
        assert forall|id: Seq<char>| has_id(r, id) <==> (has_id(sorted, id) || id == d.id@) by {
            if has_id(sorted, id) {
                let k = choose|k: int| 0 <= k < sorted.len() && #[trigger] sorted[k].id@ == id;
                assert(r[k].id@ == id);
            }
            if id == d.id@ {
                assert(r[sorted.len() as int].id@ == id);
            }
            if has_id(r, id) {
                let k = choose|k: int| 0 <= k < r.len() && #[trigger] r[k].id@ == id;
                if k < sorted.len() {
                    assert(sorted[k].id@ == id);
                }
            }
        }
        assert forall|i: int, j: int| 0 <= i < j < r.len() implies r[i].id@ != r[j].id@ by {
            if j == sorted.len() {
                assert(sorted[i].id@ == r[i].id@);
            }
        }
    } else {
        let t = sorted.drop_last();
        let last = sorted.last();
        assert forall|id: Seq<char>| has_id(t, id) implies has_id(sorted, id) by {
            let k = choose|k: int| 0 <= k < t.len() && #[trigger] t[k].id@ == id;
            assert(sorted[k].id@ == id);
        }
        lemma_insert_ids(t, d);
        let q = insert_by_name(t, d);
        assert(has_id(sorted, last.id@)) by {
            assert(sorted[sorted.len() - 1].id@ == last.id@);
        }
        assert(!has_id(t, last.id@)) by {
            if has_id(t, last.id@) {
                let k = choose|k: int| 0 <= k < t.len() && #[trigger] t[k].id@ == last.id@;
                assert(sorted[k].id@ == sorted[sorted.len() - 1].id@);
            }
        }
        assert forall|id: Seq<char>| has_id(r, id) <==> (has_id(sorted, id) || id == d.id@) by {
            if has_id(sorted, id) {
                let k = choose|k: int| 0 <= k < sorted.len() && #[trigger] sorted[k].id@ == id;
                if k < t.len() {
                    assert(t[k].id@ == id);
                    assert(has_id(t, id));
                    assert(has_id(q, id));
                    let m = choose|m: int| 0 <= m < q.len() && #[trigger] q[m].id@ == id;
                    assert(r[m].id@ == id);
                } else {
                    assert(r[q.len() as int].id@ == id);
                }
            }
            if id == d.id@ {
                assert(has_id(q, id));
                let m = choose|m: int| 0 <= m < q.len() && #[trigger] q[m].id@ == id;
                assert(r[m].id@ == id);
            }
            if has_id(r, id) {
                let k = choose|k: int| 0 <= k < r.len() && #[trigger] r[k].id@ == id;
                if k < q.len() {
                    assert(q[k].id@ == id);
                } else {
                    assert(sorted[sorted.len() - 1].id@ == id);
                }
            }
        }
        assert forall|i: int, j: int| 0 <= i < j < r.len() implies r[i].id@ != r[j].id@ by {
            if j == q.len() {
                assert(q[i].id@ == r[i].id@);
                if q[i].id@ == last.id@ {
                    assert(has_id(q, last.id@));
                }
            }
        }
    }
}

proof fn lemma_sort_ids(s: Seq<DiscoveredDevice>)
    requires
        ids_distinct(s),
    ensures
        ids_distinct(stable_sort_by_name(s)),
        forall|id: Seq<char>| has_id(stable_sort_by_name(s), id) <==> has_id(s, id),
    decreases s.len(),
{
    if s.len() > 0 {
        let t = s.drop_last();
        let d = s.last();
        assert(ids_distinct(t));
        lemma_sort_ids(t);
        assert(!has_id(t, d.id@)) by {
            if has_id(t, d.id@) {
                let k = choose|k: int| 0 <= k < t.len() && #[trigger] t[k].id@ == d.id@;
                assert(s[k].id@ == s[s.len() - 1].id@);
            }
        }
        lemma_insert_ids(stable_sort_by_name(t), d);
        assert forall|id: Seq<char>| has_id(stable_sort_by_name(s), id) <==> has_id(s, id) by {
            if has_id(t, id) {
                let k = choose|k: int| 0 <= k < t.len() && #[trigger] t[k].id@ == id;
                assert(s[k].id@ == id);
            }
            if id == d.id@ {
                assert(s[s.len() - 1].id@ == id);
            }
            if has_id(s, id) {
                let k = choose|k: int| 0 <= k < s.len() && #[trigger] s[k].id@ == id;
                if k < t.len() {
                    assert(t[k].id@ == id);
                }
            }
        }
    }
}

/// Discovery reports each identifier once: the devices that
/// `collect_devices` returns for the candidates `found` carry pairwise
/// distinct identifiers, and every identifier among the candidates is among
/// them (and no other).
pub proof fn discovered_ids_are_distinct(found: Seq<DiscoveredDevice>)
    ensures
        ids_distinct(stable_sort_by_name(unique_by_id(found))),
        forall|id: Seq<char>|
            has_id(stable_sort_by_name(unique_by_id(found)), id) <==> has_id(found, id),
{
    lemma_unique_ids(found);
    lemma_sort_ids(unique_by_id(found));
}

/// The result of a discovery pass: the first candidate announced under each
/// identifier, in ascending order of name.
pub fn collect_devices(found: Vec<DiscoveredDevice>) -> (r: Vec<DiscoveredDevice>)
    ensures
        r@ == stable_sort_by_name(unique_by_id(found@)),
        sorted_by_name(r@),
        r@.to_multiset() == unique_by_id(found@).to_multiset(),
{
    let mut found = found;
    let ghost all = found@;
    let ghost mut taken: Seq<DiscoveredDevice> = Seq::empty();
    let mut unique: Vec<DiscoveredDevice> = Vec::new();
    assert(taken + found@ =~= all);
    while found.len() > 0
        invariant
            all == taken + found@,
            unique@ == unique_by_id(taken),
        decreases found.len(),
    {
        let ghost before = found@;
        let d = found.remove(0);
        let id = chars_of(d.id.as_str());
        let mut seen = false;
        let mut k: usize = 0;
        while k < unique.len()
            invariant
                k <= unique.len(),
                id@ == d.id@,
                seen == (exists|j: int| 0 <= j < k && unique@[j].id@ == d.id@),
            decreases unique.len() - k,
        {
            if chars_eq(&chars_of(unique[k].id.as_str()), &id) {
                seen = true;
            }
            k = k + 1;
        }
        proof {
            assert(taken.push(d) + found@ =~= taken + before);
            assert(taken.push(d).drop_last() == taken);
            assert(taken.push(d).last() == d);
            taken = taken.push(d);
        }
        if !seen {
            unique.push(d);
        }
    }
    assert(taken + Seq::<DiscoveredDevice>::empty() == taken);
    sort_by_name(unique)
}

fn sort_by_name(devices: Vec<DiscoveredDevice>) -> (r: Vec<DiscoveredDevice>)
    ensures
        r@ == stable_sort_by_name(devices@),
        sorted_by_name(r@),
        r@.to_multiset() == devices@.to_multiset(),
{
    broadcast use vstd::seq_lib::group_to_multiset_ensures;

    let mut devices = devices;
    let ghost all = devices@;
    let ghost mut taken: Seq<DiscoveredDevice> = Seq::empty();
    let mut out: Vec<DiscoveredDevice> = Vec::new();
    assert(taken + devices@ =~= all);
    while devices.len() > 0
        invariant
            all == taken + devices@,
            out@ == stable_sort_by_name(taken),
            sorted_by_name(out@),
            out@.to_multiset() == taken.to_multiset(),
        decreases devices.len(),
    {
        let ghost rest = devices@;
        let d = devices.remove(0);
        let mut pos: usize = out.len();
        assert(out@.take(pos as int) == out@ && out@.skip(pos as int) =~= Seq::<DiscoveredDevice>::empty());
        while pos > 0 && !name_le_exec(out[pos - 1].name.as_str(), d.name.as_str())
            invariant
                pos <= out.len(),
                sorted_by_name(out@),
                insert_by_name(out@, d) == insert_by_name(out@.take(pos as int), d) + out@.skip(
                    pos as int,
                ),
                forall|j: int|
                    pos <= j < out.len() ==> !name_le(#[trigger] out@[j].name@, d.name@),
            decreases pos,
        {
            proof {
                let t = out@.take(pos as int);
                assert(t.drop_last() == out@.take(pos - 1));
                assert(t.last() == out@[pos - 1]);
                assert(insert_by_name(out@.take(pos - 1), d).push(out@[pos - 1]) + out@.skip(
                    pos as int,
                ) =~= insert_by_name(out@.take(pos - 1), d) + out@.skip(pos - 1));
            }
            pos = pos - 1;
        }
        let ghost before = out@;
        proof {
            assert(insert_by_name(before.take(pos as int), d) == before.take(pos as int).push(d))
                by {
                if pos > 0 {
                    assert(before.take(pos as int).last() == before[pos - 1]);
                }
            }
            assert(before.insert(pos as int, d) =~= before.take(pos as int).push(d) + before.skip(
                pos as int,
            ));
            assert(taken.push(d).drop_last() == taken);
            assert(taken.push(d) + devices@ =~= taken + rest);
            vstd::seq_lib::to_multiset_build(taken, d);
            vstd::seq_lib::to_multiset_insert(before, pos as int, d);
            taken = taken.push(d);
        }
        out.insert(pos, d);
        proof {
            assert(out@ == before.insert(pos as int, d));
            assert forall|x: int, y: int| 0 <= x < y < out@.len() implies name_le(
                out@[x].name@,
                out@[y].name@,
            ) by {
                if x < pos && y == pos {
                    if pos > 0 {
                        if x < pos - 1 {
                            lemma_name_le_transitive(
                                before[x].name@,
                                before[pos - 1].name@,
                                d.name@,
                            );
                        }
                    }
                } else if x == pos && y > pos {
                    lemma_name_le_total(before[y - 1].name@, d.name@);
                } else if x < pos && y > pos {
                    assert(name_le(before[x].name@, before[y - 1].name@));
                } else if x > pos {
                    assert(name_le(before[x - 1].name@, before[y - 1].name@));
                }
            }
        }
    }
    assert(taken + Seq::<DiscoveredDevice>::empty() == taken);
    out
}

} // verus!
