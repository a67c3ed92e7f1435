//! Device identities and the decisions of the process-level modes: parsing a
//! "bus:address" request, finding it among the enumerated devices, and
//! classifying an open failure. The enumeration itself, opening the device
//! and streaming are the frame source's side and stay outside the library.

use vstd::prelude::*;
use vstd::string::StringSliceAdditionalSpecFns;

verus! {

/// A device identity: USB bus number and address on that bus.
#[derive(Clone, Copy, PartialEq, Eq, Structural, Debug)]
pub struct DeviceAddress {
    pub bus: u8,
    pub address: u8,
}

pub open spec fn is_ascii_digit(b: u8) -> bool {
    48 <= b && b <= 57
}

/// The numeric value of a digit sequence read left to right.
pub open spec fn dec_value(s: Seq<u8>) -> int
    recommends
        forall|i: int| 0 <= i < s.len() ==> is_ascii_digit(s[i]),
    decreases s.len(),
{
    if s.len() == 0 {
        0
    } else {
        dec_value(s.drop_last()) * 10 + s.last() - 48
    }
}

/// The digits of a decimal field, with an optional leading '+' sign removed.
pub open spec fn digits_of(s: Seq<u8>) -> Seq<u8> {
    if s.len() > 0 && s[0] == 43 {
        s.skip(1)
    } else {
        s
    }
}

/// A decimal field: an optional leading '+', then at least one digit.
pub open spec fn is_dec_field(s: Seq<u8>) -> bool {
    &&& digits_of(s).len() > 0
    &&& forall|i: int| 0 <= i < digits_of(s).len() ==> is_ascii_digit(#[trigger] digits_of(s)[i])
}

pub open spec fn field_value(s: Seq<u8>) -> int {
    dec_value(digits_of(s))
}

/// `j` is the position of the first ':' of `s`.
pub open spec fn first_colon_is(s: Seq<u8>, j: int) -> bool {
    &&& 0 <= j < s.len()
    &&& s[j] == 58
    &&& forall|i: int| 0 <= i < j ==> s[i] != 58
}

/// `k` is where the second field of `s` ends: the next ':' after `j`, or the
/// end of `s`. Anything after a second ':' is ignored.
pub open spec fn second_end_is(s: Seq<u8>, j: int, k: int) -> bool {
    &&& j < k <= s.len()
    &&& forall|i: int| j < i < k ==> s[i] != 58
    &&& (k == s.len() || s[k] == 58)
}

pub open spec fn bus_field(s: Seq<u8>, j: int) -> Seq<u8> {
    s.subrange(0, j)
}

pub open spec fn addr_field(s: Seq<u8>, j: int, k: int) -> Seq<u8> {
    s.subrange(j + 1, k)
}

/// `d` is the device identity that the byte sequence `s` names: a bus field
/// before the first ':', an address field up to the next ':' or the end,
/// both decimal values that fit in a byte.
pub open spec fn device_id_parsed(s: Seq<u8>, d: DeviceAddress) -> bool {
    exists|j: int, k: int|
        {
            &&& #[trigger] first_colon_is(s, j)
            &&& #[trigger] second_end_is(s, j, k)
            &&& is_dec_field(bus_field(s, j))
            &&& is_dec_field(addr_field(s, j, k))
            &&& d.bus == field_value(bus_field(s, j))
            &&& d.address == field_value(addr_field(s, j, k))
        }
}

/// `s` names some device identity.
pub open spec fn valid_device_id(s: Seq<u8>) -> bool {
    exists|d: DeviceAddress| #[trigger] device_id_parsed(s, d)
}

proof fn lemma_first_colon_unique(s: Seq<u8>, j1: int, j2: int)
    requires
        first_colon_is(s, j1),
        first_colon_is(s, j2),
    ensures
        j1 == j2,
{
    if j1 < j2 {
        assert(s[j1] != 58);
    }
    if j2 < j1 {
        assert(s[j2] != 58);
    }
}

proof fn lemma_second_end_unique(s: Seq<u8>, j: int, k1: int, k2: int)
    requires
        second_end_is(s, j, k1),
        second_end_is(s, j, k2),
    ensures
        k1 == k2,
{
    if k1 < k2 {
        assert(s[k1] != 58);
    }
    if k2 < k1 {
        assert(s[k2] != 58);
    }
}

/// A byte sequence names at most one device identity: parsing is a function.
pub proof fn lemma_parsed_unique(s: Seq<u8>, d1: DeviceAddress, d2: DeviceAddress)
    requires
        device_id_parsed(s, d1),
        device_id_parsed(s, d2),
    ensures
        d1 == d2,
{
    let (j1, k1): (int, int) = choose|j: int, k: int|
        #[trigger] first_colon_is(s, j) && #[trigger] second_end_is(s, j, k) && is_dec_field(
            bus_field(s, j),
        ) && is_dec_field(addr_field(s, j, k)) && d1.bus == field_value(bus_field(s, j))
            && d1.address == field_value(addr_field(s, j, k));
    let (j2, k2): (int, int) = choose|j: int, k: int|
        #[trigger] first_colon_is(s, j) && #[trigger] second_end_is(s, j, k) && is_dec_field(
            bus_field(s, j),
        ) && is_dec_field(addr_field(s, j, k)) && d2.bus == field_value(bus_field(s, j))
            && d2.address == field_value(addr_field(s, j, k));
    lemma_first_colon_unique(s, j1, j2);
    lemma_second_end_unique(s, j1, k1, k2);
}

/// Appending digits to a digit sequence never lowers its value.
proof fn lemma_dec_value_prefix(s: Seq<u8>, n: int)
    requires
        0 <= n <= s.len(),
        forall|i: int| 0 <= i < s.len() ==> is_ascii_digit(#[trigger] s[i]),
    ensures
        dec_value(s) >= dec_value(s.subrange(0, n)),
        dec_value(s.subrange(0, n)) >= 0,
    decreases s.len() - n,
{
    if n == s.len() {
        assert(s.subrange(0, n) =~= s);
        lemma_dec_value_nonneg(s);
    } else {
        lemma_dec_value_prefix(s, n + 1);
        assert(s.subrange(0, n + 1).drop_last() =~= s.subrange(0, n));
        lemma_dec_value_nonneg(s.subrange(0, n));
    }
}

proof fn lemma_dec_value_nonneg(s: Seq<u8>)
    requires
        forall|i: int| 0 <= i < s.len() ==> is_ascii_digit(#[trigger] s[i]),
    ensures
        dec_value(s) >= 0,
    decreases s.len(),
{
    if s.len() > 0 {
        lemma_dec_value_nonneg(s.drop_last());
    }
}

/// Reads the decimal field in `bytes[lo..hi]`: an optional '+', then
/// digits, value at most 255. Returns the value, or nothing exactly when the
/// field is not of that shape.
fn parse_u8_field(bytes: &[u8], lo: usize, hi: usize) -> (r: Option<u8>)
    requires
        lo <= hi <= bytes@.len(),
    ensures
        r matches Some(v) ==> {
            &&& is_dec_field(bytes@.subrange(lo as int, hi as int))
            &&& v == field_value(bytes@.subrange(lo as int, hi as int))
        },
        r is None ==> !(is_dec_field(bytes@.subrange(lo as int, hi as int)) && field_value(
            bytes@.subrange(lo as int, hi as int),
        ) <= 255),
{
    let ghost sub = bytes@.subrange(lo as int, hi as int);
    let mut i = lo;
    if i < hi && bytes[i] == 43 {
        i += 1;
    }
    proof {
        assert(digits_of(sub) =~= bytes@.subrange(i as int, hi as int));
    }
    if i == hi {
        return None;
    }
    let mut acc: u32 = 0;
    let mut p = i;
    while p < hi
        invariant
            lo <= i <= p <= hi <= bytes@.len(),
            digits_of(sub) =~= bytes@.subrange(i as int, hi as int),
            sub == bytes@.subrange(lo as int, hi as int),
            forall|q: int| i <= q < p ==> is_ascii_digit(#[trigger] bytes@[q]),
            acc == dec_value(bytes@.subrange(i as int, p as int)),
            acc <= 255,
        decreases hi - p,
    {
        let b = bytes[p];
        if b < 48 || b > 57 {
            // a non-digit inside the field: not a decimal field at all
            proof {
                assert(digits_of(sub)[p - i] == b);
            }
            return None;
        }
        proof {
            assert(bytes@.subrange(i as int, p + 1).drop_last() =~= bytes@.subrange(
                i as int,
                p as int,
            ));
        }
        acc = acc * 10 + (b - 48) as u32;
        p += 1;
        if acc > 255 {
            // the digits read so far already exceed a byte; more digits
            // cannot lower the value
            proof {
                if is_dec_field(sub) {
                    lemma_dec_value_prefix(digits_of(sub), p - i);
                    assert(digits_of(sub).subrange(0, p - i) =~= bytes@.subrange(
                        i as int,
                        p as int,
                    ));
                }
            }
            return None;
        }
    }
    proof {
        assert(bytes@.subrange(i as int, p as int) =~= digits_of(sub));
    }
    Some(acc as u8)
}

/// Parses a "bus:address" device id: bus before the first ':', address up
/// to the next ':' or the end (anything further is ignored), both decimal
/// bytes. Returns the identity, or nothing exactly when the id has no such
/// shape.
pub fn parse_device_id(id: &str) -> (r: Option<DeviceAddress>)
    ensures
        r matches Some(d) ==> device_id_parsed(id.spec_bytes(), d),
        r is Some <==> valid_device_id(id.spec_bytes()),
{
    let bytes = id.as_bytes();
    let ghost s = id.spec_bytes();
    let n = bytes.len();
    let mut j: usize = 0;
    while j < n && bytes[j] != 58
        invariant
            j <= n,
            n == s.len(),
            bytes@ == s,
            forall|i: int| 0 <= i < j ==> s[i] != 58,
        decreases n - j,
    {
        j += 1;
    }
    if j == n {
        // no ':' anywhere: nothing can satisfy the shape
        proof {
            assert(!valid_device_id(s)) by {
                if valid_device_id(s) {
                    let d = choose|d: DeviceAddress| #[trigger] device_id_parsed(s, d);
                    let (j2, k2): (int, int) = choose|j2: int, k2: int|
                        #[trigger] first_colon_is(s, j2) && #[trigger] second_end_is(s, j2, k2)
                            && is_dec_field(bus_field(s, j2)) && is_dec_field(addr_field(s, j2, k2))
                            && d.bus == field_value(bus_field(s, j2)) && d.address == field_value(
                            addr_field(s, j2, k2),
                        );
                    assert(s[j2] != 58);
                }
            }
        }
        return None;
    }
    let mut k: usize = j + 1;
    while k < n && bytes[k] != 58
        invariant
            j < k <= n,
            n == s.len(),
            bytes@ == s,
            forall|i: int| j < i < k ==> s[i] != 58,
        decreases n - k,
    {
        k += 1;
    }
    proof {
        assert(first_colon_is(s, j as int));
        assert(second_end_is(s, j as int, k as int));
    }
    let bus = match parse_u8_field(bytes, 0, j) {
        Some(v) => v,
        None => {
            proof {
                refute_validity(s, j as int, k as int);
            }
            return None;
        },
    };
    let address = match parse_u8_field(bytes, j + 1, k) {
        Some(v) => v,
        None => {
            proof {
                refute_validity(s, j as int, k as int);
            }
            return None;
        },
    };
    let d = DeviceAddress { bus, address };
    proof {
        assert(first_colon_is(s, j as int) && second_end_is(s, j as int, k as int) && is_dec_field(
            bus_field(s, j as int),
        ) && is_dec_field(addr_field(s, j as int, k as int)) && d.bus == field_value(
            bus_field(s, j as int),
        ) && d.address == field_value(addr_field(s, j as int, k as int)));
        assert(device_id_parsed(s, d));
    }
    Some(d)
}

/// If the two fields cut at the (unique) split of `s` do not both hold a
/// byte-sized decimal value, then no device identity parses from `s`.
proof fn refute_validity(s: Seq<u8>, j: int, k: int)
    requires
        first_colon_is(s, j),
        second_end_is(s, j, k),
        !(is_dec_field(bus_field(s, j)) && field_value(bus_field(s, j)) <= 255) || !(is_dec_field(
            addr_field(s, j, k),
        ) && field_value(addr_field(s, j, k)) <= 255),
    ensures
        !valid_device_id(s),
{
    if valid_device_id(s) {
        let d = choose|d: DeviceAddress| #[trigger] device_id_parsed(s, d);
        let (j2, k2): (int, int) = choose|j2: int, k2: int|
            #[trigger] first_colon_is(s, j2) && #[trigger] second_end_is(s, j2, k2)
                && is_dec_field(bus_field(s, j2)) && is_dec_field(addr_field(s, j2, k2)) && d.bus
                == field_value(bus_field(s, j2)) && d.address == field_value(addr_field(s, j2, k2));
        lemma_first_colon_unique(s, j, j2);
        lemma_second_end_unique(s, j, k, k2);
        lemma_dec_value_nonneg(digits_of(bus_field(s, j)));
        lemma_dec_value_nonneg(digits_of(addr_field(s, j, k)));
    }
}

/// Finds the first enumerated device with the requested identity.
pub fn find_device(devices: &Vec<DeviceAddress>, target: DeviceAddress) -> (r: Option<usize>)
    ensures
        r matches Some(i) ==> {
            &&& i < devices@.len()
            &&& devices@[i as int] == target
            &&& forall|q: int| 0 <= q < i ==> devices@[q] != target
        },
        r is None ==> forall|q: int| 0 <= q < devices@.len() ==> devices@[q] != target,
{
    let mut i: usize = 0;
    while i < devices.len()
        invariant
            i <= devices@.len(),
            forall|q: int| 0 <= q < i ==> devices@[q] != target,
        decreases devices@.len() - i,
    {
        if devices[i].bus == target.bus && devices[i].address == target.address {
            return Some(i);
        }
        i += 1;
    }
    None
}

/// Counts the enumerated devices, one per report line the caller prints. A
/// source with zero enumerated devices reports a count of zero; that is not
/// an error.
pub fn cmd_device_list(devices: &Vec<DeviceAddress>) -> (count: usize)
    ensures
        count == devices@.len(),
{
    let mut count: usize = 0;
    let mut i: usize = 0;
    while i < devices.len()
        invariant
            i <= devices@.len(),
            count == i,
        decreases devices@.len() - i,
    {
        count += 1;
        i += 1;
    }
    count
}

/// What the run mode decides for a requested device id against the
/// enumerated devices.
#[derive(Clone, Copy, PartialEq, Eq, Structural, Debug)]
pub enum RunDecision {
    /// The request is not of the "bus:address" shape.
    InvalidDeviceId,
    /// The request is well-formed but no enumerated device has that
    /// identity; reported, and the process ends normally.
    DeviceNotFound,
    /// Capture from the first enumerated device with the requested identity.
    Open { index: usize },
}

/// The run mode's decision: open the first enumerated device with the
/// requested "bus:address" identity, or say why the request ends without
/// capturing.
pub fn cmd_run(device_id: &str, devices: &Vec<DeviceAddress>) -> (r: RunDecision)
    ensures
        r == RunDecision::InvalidDeviceId <==> !valid_device_id(device_id.spec_bytes()),
        r matches RunDecision::Open { index } ==> {
            &&& index < devices@.len()
            &&& device_id_parsed(device_id.spec_bytes(), devices@[index as int])
            &&& forall|q: int|
                0 <= q < index ==> !device_id_parsed(device_id.spec_bytes(), devices@[q])
        },
        r == RunDecision::DeviceNotFound ==> forall|q: int|
            0 <= q < devices@.len() ==> !device_id_parsed(device_id.spec_bytes(), devices@[q]),
{
    let target = match parse_device_id(device_id) {
        Some(d) => d,
        None => {
            return RunDecision::InvalidDeviceId;
        },
    };
    match find_device(devices, target) {
        Some(index) => {
            proof {
                assert forall|q: int|
                    0 <= q < index implies !device_id_parsed(
                    device_id.spec_bytes(),
                    devices@[q],
                ) by {
                    if device_id_parsed(device_id.spec_bytes(), devices@[q]) {
                        lemma_parsed_unique(device_id.spec_bytes(), devices@[q], target);
                    }
                }
            }
            RunDecision::Open { index }
        },
        None => {
            proof {
                assert forall|q: int|
                    0 <= q < devices@.len() implies !device_id_parsed(
                    device_id.spec_bytes(),
                    devices@[q],
                ) by {
                    if device_id_parsed(device_id.spec_bytes(), devices@[q]) {
                        lemma_parsed_unique(device_id.spec_bytes(), devices@[q], target);
                    }
                }
            }
            RunDecision::DeviceNotFound
        },
    }
}

/// Whether a failed device open is the access-denied condition, which is
/// reported with a remediation hint and a clean exit rather than treated as
/// fatal: the failure's message, byte for byte, is "Access denied".
pub fn is_access_denied(message: &str) -> (r: bool)
    ensures
        r <==> message.spec_bytes() == "Access denied".spec_bytes(),
{
    let m = message.as_bytes();
    let lit = "Access denied";
    let l = lit.as_bytes();
    proof {
        assert(lit@ == "Access denied"@);
    }
    if m.len() != l.len() {
        proof {
            assert(lit.spec_bytes() == "Access denied".spec_bytes());
        }
        return false;
    }
    let mut i: usize = 0;
    while i < m.len()
        invariant
            i <= m@.len(),
            m@.len() == l@.len(),
            m@ == message.spec_bytes(),
            l@ == lit.spec_bytes(),
            lit.spec_bytes() == "Access denied".spec_bytes(),
            forall|q: int| 0 <= q < i ==> m@[q] == l@[q],
        decreases m@.len() - i,
    {
        if m[i] != l[i] {
            return false;
        }
        i += 1;
    }
    proof {
        assert(m@ =~= l@);
    }
    true
}

} // verus!
