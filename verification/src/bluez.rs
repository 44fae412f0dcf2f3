//! Read-only BlueZ policy for the renderer-neutral Bluetooth contract.
//!
//! The native adapter only calls `org.freedesktop.DBus.ObjectManager.GetManagedObjects`
//! and hands the reply here. Pairing, connecting, and every other BlueZ write
//! remain outside this boundary.

use vstd::prelude::*;
use vstd::utf8::encode_utf8;
use crate::seqs::{
    first_index, lemma_filter_map_permutation, lemma_filter_map_push, lemma_first_index,
    lemma_first_index_is, lemma_map_permutation, lemma_map_push, lemma_no_duplicates_permutation,
    lemma_no_duplicates_push, lemma_same_elements,
};
use crate::text::{
    ascii_upper, has_control, is_control, is_hex_digit, push_char, str_eq, to_ascii_upper,
};
use crate::sort::{
    arrangement, lemma_arrangement, ordered_by, pairwise_comparable, sort_ranked, strict_order,
    strictly_sorted, views, Ranked,
};
use crate::text::{lemma_seq_lt_transitive, lemma_seq_lt_trichotomy, seq_lt, starts_with, str_lt};
use crate::topbar::{BluetoothAdapterStatus, BluetoothDeviceStatus, BluetoothStatus, ProviderState};

verus! {

/// BlueZ's bus name.
pub const SERVICE: &'static str = "org.bluez";
/// Object-manager root path.
pub const ROOT_PATH: &'static str = "/";
/// Interface of a local Bluetooth adapter.
pub const ADAPTER_INTERFACE: &'static str = "org.bluez.Adapter1";
/// Interface of a known remote device.
pub const DEVICE_INTERFACE: &'static str = "org.bluez.Device1";
/// Interface carrying a device's battery level.
pub const BATTERY_INTERFACE: &'static str = "org.bluez.Battery1";
/// Every adapter and device lives below this path.
pub const BLUEZ_ROOT: &'static str = "/org/bluez/";

/// A D-Bus property value, reduced to the shapes the BlueZ mapping reads.
#[derive(Debug, Clone, PartialEq, Eq)]
pub enum PropertyValue {
    /// A D-Bus string.
    Str(String),
    /// A D-Bus boolean.
    Bool(bool),
    /// A D-Bus byte.
    Byte(u8),
    /// Any other D-Bus value.
    Other,
}

/// One interface's properties, keyed by property name.
pub type Properties = Vec<(String, PropertyValue)>;

/// One object's interfaces, keyed by interface name.
pub type Interfaces = Vec<(String, Properties)>;

/// The reply of ObjectManager.GetManagedObjects, keyed by object path.
pub type ManagedObjects = Vec<(String, Interfaces)>;

/// Failure to connect to or validate BlueZ's typed D-Bus state.
#[derive(Debug, Clone, PartialEq, Eq)]
pub struct BluezError(pub String);

/// An error whose message is `prefix` followed by `detail`.
fn detailed(prefix: &str, detail: &str) -> (error: BluezError)
    ensures
        error.0@ == prefix@ + detail@,
{
    let mut message = String::from_str(prefix);
    message.append(detail);
    BluezError(message)
}

/// An error whose message is `before`, then `detail`, then `after`.
fn framed(before: &str, detail: &str, after: &str) -> (error: BluezError)
    ensures
        error.0@ == before@ + detail@ + after@,
{
    let mut message = String::from_str(before);
    message.append(detail);
    message.append(after);
    BluezError(message)
}

/// The value stored under the first entry named `key`.
pub open spec fn lookup<V>(entries: Seq<(String, V)>, key: Seq<char>) -> Option<V> {
    let i = first_index(entries, |e: (String, V)| e.0@ == key);
    if i >= 0 {
        Some(entries[i].1)
    } else {
        None
    }
}

/// Find the first entry named `key`.
fn find_entry<V>(entries: &Vec<(String, V)>, key: &str) -> (index: Option<usize>)
    ensures
        match index {
            Some(i) => i < entries@.len() && lookup(entries@, key@) == Some(entries@[i as int].1),
            None => lookup(entries@, key@) is None,
        },
{
    let ghost p = |e: (String, V)| e.0@ == key@;
    let mut i: usize = 0;
    while i < entries.len()
        invariant
            i <= entries@.len(),
            p == (|e: (String, V)| e.0@ == key@),
            forall|j: int| 0 <= j < i ==> !p(#[trigger] entries@[j]),
        decreases entries@.len() - i,
    {
        if str_eq(entries[i].0.as_str(), key) {
            proof {
                lemma_first_index_is(entries@, p, i as int);
            }
            return Some(i);
        }
        i = i + 1;
    }
    proof {
        lemma_first_index_is(entries@, p, -1);
    }
    None
}

/// A required string property: `None` when missing or not a string.
pub open spec fn required_string(props: Seq<(String, PropertyValue)>, key: Seq<char>) -> Option<Seq<char>> {
    match lookup(props, key) {
        Some(PropertyValue::Str(s)) => Some(s@),
        _ => None,
    }
}

/// An optional string property: `Some(None)` when missing, `None` when present
/// but not a string.
pub open spec fn optional_string(props: Seq<(String, PropertyValue)>, key: Seq<char>) -> Option<
    Option<Seq<char>>,
> {
    match lookup(props, key) {
        None => Some(None),
        Some(PropertyValue::Str(s)) => Some(Some(s@)),
        Some(_) => None,
    }
}

/// A required boolean property: `None` when missing or not a boolean.
pub open spec fn required_bool(props: Seq<(String, PropertyValue)>, key: Seq<char>) -> Option<bool> {
    match lookup(props, key) {
        Some(PropertyValue::Bool(b)) => Some(b),
        _ => None,
    }
}

/// A required byte property: `None` when missing or not a byte.
pub open spec fn required_u8(props: Seq<(String, PropertyValue)>, key: Seq<char>) -> Option<u8> {
    match lookup(props, key) {
        Some(PropertyValue::Byte(b)) => Some(b),
        _ => None,
    }
}

fn read_string(props: &Properties, key: &str) -> (result: Result<String, BluezError>)
    ensures
        match required_string(props@, key@) {
            Some(s) => result is Ok && result->Ok_0@ == s,
            None => result is Err,
        },
{
    match find_entry(props, key) {
        Some(i) => match &props[i].1 {
            PropertyValue::Str(s) => Ok(s.clone()),
            _ => Err(framed("BlueZ property ", key, " must be a string")),
        },
        None => Err(detailed("BlueZ object is missing ", key)),
    }
}

fn read_optional_string(props: &Properties, key: &str) -> (result: Result<Option<String>, BluezError>)
    ensures
        match optional_string(props@, key@) {
            Some(None) => result == Ok::<Option<String>, BluezError>(None),
            Some(Some(s)) => result is Ok && result->Ok_0 is Some && result->Ok_0->Some_0@ == s,
            None => result is Err,
        },
{
    match find_entry(props, key) {
        Some(i) => match &props[i].1 {
            PropertyValue::Str(s) => Ok(Some(s.clone())),
            _ => Err(framed("BlueZ property ", key, " must be a string")),
        },
        None => Ok(None),
    }
}

fn read_bool(props: &Properties, key: &str) -> (result: Result<bool, BluezError>)
    ensures
        match required_bool(props@, key@) {
            Some(b) => result == Ok::<bool, BluezError>(b),
            None => result is Err,
        },
{
    match find_entry(props, key) {
        Some(i) => match &props[i].1 {
            PropertyValue::Bool(b) => Ok(*b),
            _ => Err(framed("BlueZ property ", key, " must be a boolean")),
        },
        None => Err(detailed("BlueZ object is missing ", key)),
    }
}

fn read_u8(props: &Properties, key: &str) -> (result: Result<u8, BluezError>)
    ensures
        match required_u8(props@, key@) {
            Some(b) => result == Ok::<u8, BluezError>(b),
            None => result is Err,
        },
{
    match find_entry(props, key) {
        Some(i) => match &props[i].1 {
            PropertyValue::Byte(b) => Ok(*b),
            _ => Err(framed("BlueZ property ", key, " must be an unsigned byte")),
        },
        None => Err(detailed("BlueZ object is missing ", key)),
    }
}

/// A Bluetooth address: six colon-separated pairs of hexadecimal digits.
pub open spec fn valid_address(value: Seq<char>) -> bool {
    &&& value.len() == 17
    &&& forall|i: int|
        0 <= i < 17 ==> if i % 3 == 2 {
            #[trigger] value[i] == ':'
        } else {
            is_hex_digit(value[i])
        }
}

/// Validate a Bluetooth address and return it in upper case.
pub fn parse_address(value: String) -> (result: Result<String, BluezError>)
    ensures
        valid_address(value@) ==> result is Ok && result->Ok_0@ == value@.map_values(
            |c: char| ascii_upper(c),
        ),
        !valid_address(value@) ==> result is Err && result->Err_0.0@ == "invalid BlueZ Bluetooth address: "@
            + value@,
{
    let len = value.as_str().unicode_len();
    if len != 17 {
        return Err(detailed("invalid BlueZ Bluetooth address: ", value.as_str()));
    }
    let mut upper = String::new();
    let mut i: usize = 0;
    while i < 17
        invariant
            len == 17,
            value@.len() == 17,
            i <= 17,
            forall|j: int|
                0 <= j < i ==> if j % 3 == 2 {
                    #[trigger] value@[j] == ':'
                } else {
                    is_hex_digit(value@[j])
                },
            upper@ == value@.take(i as int).map_values(|c: char| ascii_upper(c)),
        decreases 17 - i,
    {
        let c = value.as_str().get_char(i);
        let ok = if i % 3 == 2 {
            c == ':'
        } else {
            ('0' <= c && c <= '9') || ('a' <= c && c <= 'f') || ('A' <= c && c <= 'F')
        };
        if !ok {
            return Err(detailed("invalid BlueZ Bluetooth address: ", value.as_str()));
        }
        push_char(&mut upper, to_ascii_upper(c));
        proof {
            assert(value@.take(i + 1).map_values(|c: char| ascii_upper(c)) =~= value@.take(
                i as int,
            ).map_values(|c: char| ascii_upper(c)).push(ascii_upper(c)));
        }
        i = i + 1;
    }
    proof {
        assert(value@.take(17) =~= value@);
    }
    Ok(upper)
}

/// A name the shell may show: non-empty, at most 512 bytes of UTF-8, and
/// free of control characters.
pub open spec fn valid_name(name: Seq<char>) -> bool {
    &&& name.len() > 0
    &&& (encode_utf8(name).len() as usize) <= 512
    &&& forall|i: int| 0 <= i < name.len() ==> !is_control(#[trigger] name[i])
}

fn validate_name(name: &String, field: &str) -> (result: Result<(), BluezError>)
    ensures
        result is Ok <==> valid_name(name@),
{
    let text = name.as_str();
    if text.is_empty() || text.len() > 512 || has_control(text) {
        let mut message = String::from_str("BlueZ ");
        message.append(field);
        message.append(" is invalid");
        return Err(BluezError(message));
    }
    Ok(())
}

/// The display name BlueZ implies: the alias, else the name, else the address.
pub open spec fn implied_name(
    alias: Option<Seq<char>>,
    name: Option<Seq<char>>,
    address: Seq<char>,
) -> Seq<char> {
    match alias {
        Some(a) => a,
        None => match name {
            Some(n) => n,
            None => address,
        },
    }
}

/// `(name, address, powered, discovering)` of an adapter object, or `None`
/// when a relevant property is missing or malformed or the path is outside
/// BlueZ's root.
pub open spec fn adapter_view(path: Seq<char>, props: Seq<(String, PropertyValue)>) -> Option<
    (Seq<char>, Seq<char>, bool, bool),
> {
    match (
        required_string(props, "Address"@),
        optional_string(props, "Alias"@),
        optional_string(props, "Name"@),
        required_bool(props, "Powered"@),
        required_bool(props, "Discovering"@),
    ) {
        (Some(raw), Some(alias), Some(name), Some(powered), Some(discovering)) => {
            let address = raw.map_values(|c: char| ascii_upper(c));
            let display = implied_name(alias, name, address);
            if valid_address(raw) && valid_name(display) && BLUEZ_ROOT@.is_prefix_of(path) {
                Some((display, address, powered, discovering))
            } else {
                None
            }
        },
        _ => None,
    }
}

/// Parse one adapter object.
pub fn parse_adapter(path: &str, properties: &Properties) -> (result: Result<
    BluetoothAdapterStatus,
    BluezError,
>)
    ensures
        match adapter_view(path@, properties@) {
            Some(v) => result is Ok && result->Ok_0@ == (v.0, v.1, v.2, v.3, 0u32),
            None => result is Err,
        },
{
    let address = parse_address(read_string(properties, "Address")?)?;
    let alias = read_optional_string(properties, "Alias")?;
    let listed = read_optional_string(properties, "Name")?;
    let name = match alias {
        Some(a) => a,
        None => match listed {
            Some(n) => n,
            None => address.clone(),
        },
    };
    validate_name(&name, "adapter name")?;
    let powered = read_bool(properties, "Powered")?;
    let discovering = read_bool(properties, "Discovering")?;
    if !crate::text::starts_with(path, BLUEZ_ROOT) {
        return Err(detailed("BlueZ adapter path is outside /org/bluez/: ", path));
    }
    Ok(BluetoothAdapterStatus { name, address, powered, discovering, device_count: 0 })
}

/// `(name, address, connected, paired, trusted, battery)` of a device
/// object, or `None` when a relevant property is missing or malformed, the
/// battery level is above 100, or the path is outside BlueZ's root.
pub open spec fn device_view(
    path: Seq<char>,
    props: Seq<(String, PropertyValue)>,
    battery: Option<Seq<(String, PropertyValue)>>,
) -> Option<(Seq<char>, Seq<char>, bool, bool, bool, Option<u8>)> {
    let battery_level: Option<Option<u8>> = match battery {
        None => Some(None),
        Some(b) => match required_u8(b, "Percentage"@) {
            Some(v) => if v <= 100 {
                Some(Some(v))
            } else {
                None
            },
            None => None,
        },
    };
    match (
        required_string(props, "Address"@),
        optional_string(props, "Alias"@),
        optional_string(props, "Name"@),
        required_bool(props, "Connected"@),
        required_bool(props, "Paired"@),
        required_bool(props, "Trusted"@),
        battery_level,
    ) {
        (
            Some(raw),
            Some(alias),
            Some(name),
            Some(connected),
            Some(paired),
            Some(trusted),
            Some(level),
        ) => {
            let address = raw.map_values(|c: char| ascii_upper(c));
            let display = implied_name(alias, name, address);
            if valid_address(raw) && valid_name(display) && BLUEZ_ROOT@.is_prefix_of(path) {
                Some((display, address, connected, paired, trusted, level))
            } else {
                None
            }
        },
        _ => None,
    }
}

/// Parse one device object and its optional battery interface.
pub fn parse_device(path: &str, properties: &Properties, battery: Option<&Properties>) -> (result:
    Result<BluetoothDeviceStatus, BluezError>)
    ensures
        match device_view(
            path@,
            properties@,
            match battery {
                Some(b) => Some(b@),
                None => None,
            },
        ) {
            Some(v) => result is Ok && result->Ok_0@ == v,
            None => result is Err,
        },
{
    if !crate::text::starts_with(path, BLUEZ_ROOT) {
        return Err(detailed("BlueZ device path is outside /org/bluez/: ", path));
    }
    let address = parse_address(read_string(properties, "Address")?)?;
    let alias = read_optional_string(properties, "Alias")?;
    let listed = read_optional_string(properties, "Name")?;
    let name = match alias {
        Some(a) => a,
        None => match listed {
            Some(n) => n,
            None => address.clone(),
        },
    };
    validate_name(&name, "device name")?;
    let connected = read_bool(properties, "Connected")?;
    let paired = read_bool(properties, "Paired")?;
    let trusted = read_bool(properties, "Trusted")?;
    let battery_percent = match battery {
        Some(b) => {
            let value = read_u8(b, "Percentage")?;
            if value > 100 {
                let mut message = String::from_str("BlueZ battery percentage is outside 0..=100: ");
                crate::text::push_decimal(&mut message, value as u64);
                return Err(BluezError(message));
            }
            Some(value)
        },
        None => None,
    };
    Ok(BluetoothDeviceStatus { name, address, connected, paired, trusted, battery_percent })
}

/// A character BlueZ object-path segments may contain, or the separator.
pub open spec fn path_char(c: char) -> bool {
    c == '/' || c == '_' || crate::text::is_ascii_alphanumeric(c)
}

/// A BlueZ object path: `/org/bluez` itself, or a path of at most 255 bytes
/// below `/org/bluez/` whose segments are non-empty runs of ASCII letters,
/// digits, and underscores.
pub open spec fn valid_object_path(path: Seq<char>) -> bool {
    ||| path == "/org/bluez"@
    ||| {
        &&& (encode_utf8(path).len() as usize) <= 255
        &&& BLUEZ_ROOT@.is_prefix_of(path)
        &&& forall|i: int| 0 <= i < path.len() ==> path_char(#[trigger] path[i])
        &&& forall|i: int| 0 <= i < path.len() - 1 ==> !(#[trigger] path[i] == '/' && path[i + 1] == '/')
        &&& path[path.len() - 1] != '/'
    }
}

/// Reject a path that is not a well-formed BlueZ object path.
pub fn validate_object_path(path: &str) -> (result: Result<(), BluezError>)
    ensures
        result is Ok <==> valid_object_path(path@),
{
    if str_eq(path, "/org/bluez") {
        return Ok(());
    }
    proof {
        reveal_strlit("/org/bluez/");
    }
    if path.len() > 255 || !crate::text::starts_with(path, BLUEZ_ROOT) {
        return Err(detailed("invalid BlueZ object path: ", path));
    }
    let len = path.unicode_len();
    let mut i: usize = 0;
    while i < len
        invariant
            len == path@.len(),
            len >= 11,
            path@ != "/org/bluez"@,
            i <= len,
            forall|j: int| 0 <= j < i ==> path_char(#[trigger] path@[j]),
            forall|j: int| 0 <= j < i - 1 ==> !(#[trigger] path@[j] == '/' && path@[j + 1] == '/'),
        decreases len - i,
    {
        let c = path.get_char(i);
        let allowed = c == '/' || c == '_' || ('0' <= c && c <= '9') || ('a' <= c && c <= 'z') || (
        'A' <= c && c <= 'Z');
        if !allowed {
            return Err(detailed("invalid BlueZ object path: ", path));
        }
        if i > 0 && c == '/' && path.get_char(i - 1) == '/' {
            return Err(detailed("invalid BlueZ object path: ", path));
        }
        i = i + 1;
    }
    if path.get_char(len - 1) == '/' {
        return Err(detailed("invalid BlueZ object path: ", path));
    }
    Ok(())
}

/// `(name, address, powered, discovering, device_count)` of an adapter.
pub type AdapterView = (Seq<char>, Seq<char>, bool, bool, u32);

/// `(name, address, connected, paired, trusted, battery_percent)` of a device.
pub type DeviceView = (Seq<char>, Seq<char>, bool, bool, bool, Option<u8>);

/// The adapter an object exposes: `Some(None)` when it has no adapter
/// interface, `None` when that interface is malformed.
pub open spec fn object_adapter(ifaces: Seq<(String, Properties)>, path: Seq<char>) -> Option<
    Option<AdapterView>,
> {
    match lookup(ifaces, ADAPTER_INTERFACE@) {
        None => Some(None),
        Some(props) => match adapter_view(path, props@) {
            Some(v) => Some(Some((v.0, v.1, v.2, v.3, 0u32))),
            None => None,
        },
    }
}

/// The device an object exposes: `Some(None)` when it has no device
/// interface, `None` when that interface or its battery is malformed.
pub open spec fn object_device(ifaces: Seq<(String, Properties)>, path: Seq<char>) -> Option<
    Option<DeviceView>,
> {
    match lookup(ifaces, DEVICE_INTERFACE@) {
        None => Some(None),
        Some(props) => match device_view(
            path,
            props@,
            match lookup(ifaces, BATTERY_INTERFACE@) {
                Some(b) => Some(b@),
                None => None,
            },
        ) {
            Some(v) => Some(Some(v)),
            None => None,
        },
    }
}

/// Whether an adapter entry already uses `path`.
pub open spec fn has_adapter_path(adapters: Seq<(Seq<char>, AdapterView)>, path: Seq<char>) -> bool {
    exists|k: int| 0 <= k < adapters.len() && #[trigger] adapters[k].0 == path
}

/// Whether an adapter entry already uses `address`.
pub open spec fn has_adapter_address(adapters: Seq<(Seq<char>, AdapterView)>, address: Seq<char>) -> bool {
    exists|k: int| 0 <= k < adapters.len() && #[trigger] adapters[k].1.1 == address
}

/// Whether a device entry already uses `address`.
pub open spec fn has_device_address(devices: Seq<(Seq<char>, DeviceView)>, address: Seq<char>) -> bool {
    exists|k: int| 0 <= k < devices.len() && #[trigger] devices[k].1.1 == address
}

/// Adapters and devices of `objects` with their paths, in order, or `None`
/// when an object is malformed or repeats an adapter path, an adapter
/// address, or a device address.
pub open spec fn scan_objects(objects: Seq<(String, Interfaces)>) -> Option<
    (Seq<(Seq<char>, AdapterView)>, Seq<(Seq<char>, DeviceView)>),
>
    decreases objects.len(),
{
    if objects.len() == 0 {
        Some((Seq::empty(), Seq::empty()))
    } else {
        match scan_objects(objects.drop_last()) {
            None => None,
            Some(found) => {
                let adapters = found.0;
                let devices = found.1;
                let path = objects.last().0@;
                let ifaces = objects.last().1@;
                if !valid_object_path(path) {
                    None
                } else {
                    match (object_adapter(ifaces, path), object_device(ifaces, path)) {
                        (Some(adapter), Some(device)) => {
                            let adapter_ok = match adapter {
                                None => true,
                                Some(v) => !has_adapter_path(adapters, path)
                                    && !has_adapter_address(adapters, v.1),
                            };
                            let device_ok = match device {
                                None => true,
                                Some(v) => !has_device_address(devices, v.1),
                            };
                            if adapter_ok && device_ok {
                                Some(
                                    (
                                        match adapter {
                                            None => adapters,
                                            Some(v) => adapters.push((path, v)),
                                        },
                                        match device {
                                            None => devices,
                                            Some(v) => devices.push((path, v)),
                                        },
                                    ),
                                )
                            } else {
                                None
                            }
                        },
                        _ => None,
                    }
                }
            },
        }
    }
}

/// A Bluetooth address as the shell shows it: six colon-separated pairs of
/// digits and upper-case letters `A` to `F`.
pub open spec fn canonical_address(address: Seq<char>) -> bool {
    &&& address.len() == 17
    &&& forall|i: int|
        0 <= i < 17 ==> if i % 3 == 2 {
            #[trigger] address[i] == ':'
        } else {
            ('0' <= address[i] && address[i] <= '9') || ('A' <= address[i] && address[i] <= 'F')
        }
}

/// A valid address in upper case is canonical.
proof fn lemma_upper_address_canonical(raw: Seq<char>)
    requires
        valid_address(raw),
    ensures
        canonical_address(raw.map_values(|c: char| ascii_upper(c))),
{
    let upper = raw.map_values(|c: char| ascii_upper(c));
    assert forall|i: int| 0 <= i < 17 implies if i % 3 == 2 {
        #[trigger] upper[i] == ':'
    } else {
        ('0' <= upper[i] && upper[i] <= '9') || ('A' <= upper[i] && upper[i] <= 'F')
    } by {
        assert(upper[i] == ascii_upper(raw[i]));
        if i % 3 != 2 {
            assert(is_hex_digit(raw[i]));
        }
    }
}

/// Every adapter and device a scan keeps has a canonical address.
proof fn lemma_scan_addresses(objects: Seq<(String, Interfaces)>)
    ensures
        scan_objects(objects) matches Some(found) ==> {
            &&& forall|i: int| 0 <= i < found.0.len() ==> canonical_address(#[trigger] found.0[i].1.1)
            &&& forall|i: int| 0 <= i < found.1.len() ==> canonical_address(#[trigger] found.1[i].1.1)
        },
    decreases objects.len(),
{
    if objects.len() > 0 {
        lemma_scan_addresses(objects.drop_last());
        let path = objects.last().0@;
        let ifaces = objects.last().1@;
        match lookup(ifaces, ADAPTER_INTERFACE@) {
            Some(props) => {
                if let Some(raw) = required_string(props@, "Address"@) {
                    if valid_address(raw) {
                        lemma_upper_address_canonical(raw);
                    }
                }
            },
            None => {},
        }
        match lookup(ifaces, DEVICE_INTERFACE@) {
            Some(props) => {
                if let Some(raw) = required_string(props@, "Address"@) {
                    if valid_address(raw) {
                        lemma_upper_address_canonical(raw);
                    }
                }
            },
            None => {},
        }
    }
}

/// The shape of every Bluetooth status the library reports for a reply: the
/// adapters and the devices each strictly ascending by address (so no
/// address repeats), every address canonical, and each adapter counting the
/// devices whose object path lies below its own.
pub open spec fn status_law(objects: Seq<(String, Interfaces)>, status: BluetoothStatus) -> bool {
    let found = scan_objects(objects)->Some_0;
    &&& forall|i: int, j: int|
        #![trigger status.adapters@[i], status.adapters@[j]]
        0 <= i < j < status.adapters@.len() ==> seq_lt(
            status.adapters@[i].address@,
            status.adapters@[j].address@,
        )
    &&& forall|i: int, j: int|
        #![trigger status.devices@[i], status.devices@[j]]
        0 <= i < j < status.devices@.len() ==> seq_lt(
            status.devices@[i].address@,
            status.devices@[j].address@,
        )
    &&& forall|i: int|
        0 <= i < status.adapters@.len() ==> canonical_address(#[trigger] status.adapters@[i].address@)
    &&& forall|i: int|
        0 <= i < status.devices@.len() ==> canonical_address(#[trigger] status.devices@[i].address@)
    &&& forall|i: int|
        0 <= i < status.adapters@.len() ==> exists|k: int|
            0 <= k < found.0.len() && found.0[k].1.1 == #[trigger] status.adapters@[i].address@
                && status.adapters@[i].device_count == count_below(found.1, child_prefix(found.0[k].0))
}

/// Paths and views of collected adapters.
pub open spec fn adapter_entries(adapters: Seq<(String, BluetoothAdapterStatus)>) -> Seq<
    (Seq<char>, AdapterView),
> {
    adapters.map_values(|e: (String, BluetoothAdapterStatus)| (e.0@, e.1@))
}

/// Paths and views of collected devices.
pub open spec fn device_entries(devices: Seq<(String, BluetoothDeviceStatus)>) -> Seq<
    (Seq<char>, DeviceView),
> {
    devices.map_values(|e: (String, BluetoothDeviceStatus)| (e.0@, e.1@))
}

/// Whether any collected adapter uses `path` or `address`.
fn adapter_conflict(adapters: &Vec<(String, BluetoothAdapterStatus)>, path: &str, address: &str) -> (result: (
    bool,
    bool,
))
    ensures
        result.0 == has_adapter_path(adapter_entries(adapters@), path@),
        result.1 == has_adapter_address(adapter_entries(adapters@), address@),
{
    let ghost entries = adapter_entries(adapters@);
    let mut path_seen = false;
    let mut address_seen = false;
    let ghost mut path_at: int = 0;
    let ghost mut address_at: int = 0;
    let mut k: usize = 0;
    while k < adapters.len()
        invariant
            k <= adapters@.len(),
            entries == adapter_entries(adapters@),
            entries.len() == adapters@.len(),
            path_seen ==> 0 <= path_at < k && entries[path_at].0 == path@,
            !path_seen ==> forall|j: int| 0 <= j < k ==> #[trigger] entries[j].0 != path@,
            address_seen ==> 0 <= address_at < k && entries[address_at].1.1 == address@,
            !address_seen ==> forall|j: int| 0 <= j < k ==> #[trigger] entries[j].1.1 != address@,
        decreases adapters@.len() - k,
    {
        proof {
            assert(entries[k as int] == (adapters@[k as int].0@, adapters@[k as int].1@));
        }
        if str_eq(adapters[k].0.as_str(), path) {
            path_seen = true;
            proof {
                path_at = k as int;
            }
        }
        if str_eq(adapters[k].1.address.as_str(), address) {
            address_seen = true;
            proof {
                address_at = k as int;
            }
        }
        k = k + 1;
    }
    (path_seen, address_seen)
}

/// Whether any collected device uses `address`.
fn device_conflict(devices: &Vec<(String, BluetoothDeviceStatus)>, address: &str) -> (seen: bool)
    ensures
        seen == has_device_address(device_entries(devices@), address@),
{
    let ghost entries = device_entries(devices@);
    let mut seen = false;
    let ghost mut at: int = 0;
    let mut k: usize = 0;
    while k < devices.len()
        invariant
            k <= devices@.len(),
            entries == device_entries(devices@),
            entries.len() == devices@.len(),
            seen ==> 0 <= at < k && entries[at].1.1 == address@,
            !seen ==> forall|j: int| 0 <= j < k ==> #[trigger] entries[j].1.1 != address@,
        decreases devices@.len() - k,
    {
        proof {
            assert(entries[k as int] == (devices@[k as int].0@, devices@[k as int].1@));
        }
        if str_eq(devices[k].1.address.as_str(), address) {
            seen = true;
            proof {
                at = k as int;
            }
        }
        k = k + 1;
    }
    seen
}

/// Once a prefix of the objects is rejected, so is every longer run of them.
proof fn lemma_scan_extends(objects: Seq<(String, Interfaces)>, m: int)
    requires
        0 <= m <= objects.len(),
    ensures
        scan_objects(objects.take(m)) is None ==> scan_objects(objects) is None,
    decreases objects.len(),
{
    if m == objects.len() {
        assert(objects.take(m) =~= objects);
    } else {
        let init = objects.drop_last();
        assert(init.take(m) =~= objects.take(m));
        lemma_scan_extends(init, m);
    }
}

/// Collect every adapter and device, rejecting malformed or repeated ones.
fn collect_objects(objects: &ManagedObjects) -> (result: Result<
    (Vec<(String, BluetoothAdapterStatus)>, Vec<(String, BluetoothDeviceStatus)>),
    BluezError,
>)
    ensures
        match scan_objects(objects@) {
            None => result is Err,
            Some(found) => result is Ok && adapter_entries(result->Ok_0.0@) == found.0
                && device_entries(result->Ok_0.1@) == found.1,
        },
{
    let mut adapters: Vec<(String, BluetoothAdapterStatus)> = Vec::new();
    let mut devices: Vec<(String, BluetoothDeviceStatus)> = Vec::new();
    let mut i: usize = 0;
    proof {
        assert(objects@.take(0) =~= Seq::<(String, Interfaces)>::empty());
        assert(adapter_entries(adapters@) =~= Seq::empty());
        assert(device_entries(devices@) =~= Seq::empty());
    }
    while i < objects.len()
        invariant
            i <= objects@.len(),
            scan_objects(objects@.take(i as int)) == Some(
                (adapter_entries(adapters@), device_entries(devices@)),
            ),
        decreases objects@.len() - i,
    {
        let ghost before = objects@.take(i as int);
        let ghost after = objects@.take(i + 1);
        proof {
            assert(after.drop_last() =~= before);
            assert(after.last() == objects@[i as int]);
        }
        proof {
            lemma_scan_extends(objects@, i + 1);
        }
        let ghost old_adapters = adapters@;
        let ghost old_devices = devices@;
        let path = objects[i].0.as_str();
        let interfaces = &objects[i].1;
        validate_object_path(path)?;
        let adapter = match find_entry(interfaces, ADAPTER_INTERFACE) {
            Some(a) => {
                let parsed = parse_adapter(path, &interfaces[a].1)?;
                let (path_seen, address_seen) = adapter_conflict(&adapters, path, parsed.address.as_str());
                if path_seen {
                    return Err(detailed("duplicate BlueZ adapter path: ", path));
                }
                if address_seen {
                    return Err(detailed("duplicate BlueZ adapter address: ", parsed.address.as_str()));
                }
                Some(parsed)
            },
            None => None,
        };
        let device = match find_entry(interfaces, DEVICE_INTERFACE) {
            Some(d) => {
                let battery = match find_entry(interfaces, BATTERY_INTERFACE) {
                    Some(b) => Some(&interfaces[b].1),
                    None => None,
                };
                let parsed = parse_device(path, &interfaces[d].1, battery)?;
                if device_conflict(&devices, parsed.address.as_str()) {
                    return Err(detailed("duplicate BlueZ device address: ", parsed.address.as_str()));
                }
                Some(parsed)
            },
            None => None,
        };
        match adapter {
            Some(parsed) => {
                adapters.push((objects[i].0.clone(), parsed));
                proof {
                    assert(adapter_entries(adapters@) =~= adapter_entries(old_adapters).push(
                        (path@, parsed@),
                    ));
                }
            },
            None => {},
        }
        match device {
            Some(parsed) => {
                devices.push((objects[i].0.clone(), parsed));
                proof {
                    assert(device_entries(devices@) =~= device_entries(old_devices).push(
                        (path@, parsed@),
                    ));
                }
            },
            None => {},
        }
        i = i + 1;
    }
    proof {
        assert(objects@.take(i as int) =~= objects@);
    }
    Ok((adapters, devices))
}

/// Adapters are presented in address order.
pub open spec fn adapter_order() -> spec_fn(AdapterView, AdapterView) -> bool {
    |a: AdapterView, b: AdapterView| seq_lt(a.1, b.1)
}

/// Devices are presented in address order.
pub open spec fn device_order() -> spec_fn(DeviceView, DeviceView) -> bool {
    |a: DeviceView, b: DeviceView| seq_lt(a.1, b.1)
}

/// Address order is a strict order on adapters and on devices.
pub proof fn lemma_address_orders_strict()
    ensures
        strict_order(adapter_order()),
        strict_order(device_order()),
{
    assert forall|x: AdapterView| !(#[trigger] adapter_order()(x, x)) by {
        lemma_seq_lt_trichotomy(x.1, x.1);
    }
    assert forall|x: AdapterView, y: AdapterView, z: AdapterView|
        #[trigger] adapter_order()(x, y) && #[trigger] adapter_order()(y, z) implies adapter_order()(x, z) by {
        lemma_seq_lt_transitive(x.1, y.1, z.1);
    }
    assert forall|x: DeviceView| !(#[trigger] device_order()(x, x)) by {
        lemma_seq_lt_trichotomy(x.1, x.1);
    }
    assert forall|x: DeviceView, y: DeviceView, z: DeviceView|
        #[trigger] device_order()(x, y) && #[trigger] device_order()(y, z) implies device_order()(x, z) by {
        lemma_seq_lt_transitive(x.1, y.1, z.1);
    }
}

impl Ranked for BluetoothAdapterStatus {
    /// Adapters are presented in address order.
    open spec fn precedes(&self, other: &Self) -> bool {
        seq_lt(self.address@, other.address@)
    }

    proof fn lemma_precedes_strict(a: Self, b: Self) {
        lemma_seq_lt_trichotomy(a.address@, b.address@);
    }

    proof fn lemma_precedes_transitive(a: Self, b: Self, c: Self) {
        lemma_seq_lt_transitive(a.address@, b.address@, c.address@);
    }

    fn ranks_before(&self, other: &Self) -> (before: bool) {
        str_lt(self.address.as_str(), other.address.as_str())
    }
}

impl Ranked for BluetoothDeviceStatus {
    /// Devices are presented in address order.
    open spec fn precedes(&self, other: &Self) -> bool {
        seq_lt(self.address@, other.address@)
    }

    proof fn lemma_precedes_strict(a: Self, b: Self) {
        lemma_seq_lt_trichotomy(a.address@, b.address@);
    }

    proof fn lemma_precedes_transitive(a: Self, b: Self, c: Self) {
        lemma_seq_lt_transitive(a.address@, b.address@, c.address@);
    }

    fn ranks_before(&self, other: &Self) -> (before: bool) {
        str_lt(self.address.as_str(), other.address.as_str())
    }
}

/// A scan never keeps two adapters with one address, nor two devices.
proof fn lemma_scan_distinct(objects: Seq<(String, Interfaces)>)
    ensures
        scan_objects(objects) matches Some(found) ==> {
            &&& forall|i: int, j: int|
                0 <= i < found.0.len() && 0 <= j < found.0.len() && i != j ==> #[trigger] found.0[i].1.1
                    != #[trigger] found.0[j].1.1
            &&& forall|i: int, j: int|
                0 <= i < found.1.len() && 0 <= j < found.1.len() && i != j ==> #[trigger] found.1[i].1.1
                    != #[trigger] found.1[j].1.1
        },
    decreases objects.len(),
{
    if objects.len() > 0 {
        lemma_scan_distinct(objects.drop_last());
    }
}

/// The prefix under which an adapter's devices live.
pub open spec fn child_prefix(adapter_path: Seq<char>) -> Seq<char> {
    adapter_path + "/"@
}

/// Whether a device path lies below one of the adapters.
pub open spec fn below_some_adapter(adapters: Seq<(Seq<char>, AdapterView)>, path: Seq<char>) -> bool {
    exists|k: int| 0 <= k < adapters.len() && child_prefix(#[trigger] adapters[k].0).is_prefix_of(path)
}

/// Number of devices whose path lies below `prefix`.
pub open spec fn count_below(devices: Seq<(Seq<char>, DeviceView)>, prefix: Seq<char>) -> nat
    decreases devices.len(),
{
    if devices.len() == 0 {
        0
    } else {
        count_below(devices.drop_last(), prefix) + if prefix.is_prefix_of(devices.last().0) {
            1nat
        } else {
            0nat
        }
    }
}

/// The adapters with their device counts, in scan order.
pub open spec fn counted_adapters(
    adapters: Seq<(Seq<char>, AdapterView)>,
    devices: Seq<(Seq<char>, DeviceView)>,
) -> Seq<AdapterView> {
    adapters.map_values(
        |e: (Seq<char>, AdapterView)|
            (e.1.0, e.1.1, e.1.2, e.1.3, count_below(devices, child_prefix(e.0)) as u32),
    )
}

/// The Bluetooth status a managed-objects reply maps to:
/// `None` when the reply is rejected, `Some(None)` when BlueZ has no adapter
/// and no device, and otherwise the counted adapters and the devices, each
/// in scan order (presentation sorts them by address).
pub open spec fn managed_objects_meaning(objects: Seq<(String, Interfaces)>) -> Option<
    Option<(Seq<AdapterView>, Seq<DeviceView>)>,
> {
    match scan_objects(objects) {
        None => None,
        Some(found) => {
            let adapters = found.0;
            let devices = found.1;
            if adapters.len() == 0 {
                if devices.len() == 0 {
                    Some(None)
                } else {
                    None
                }
            } else if exists|d: int|
                0 <= d < devices.len() && !below_some_adapter(adapters, #[trigger] devices[d].0) {
                None
            } else if exists|k: int|
                0 <= k < adapters.len() && count_below(devices, child_prefix(#[trigger] adapters[k].0))
                    > u32::MAX {
                None
            } else {
                Some(
                    Some(
                        (
                            counted_adapters(adapters, devices),
                            devices.map_values(|e: (Seq<char>, DeviceView)| e.1),
                        ),
                    ),
                )
            }
        },
    }
}

/// Convert a BlueZ ObjectManager snapshot into the renderer-neutral contract.
///
/// This performs no I/O, rejects malformed relevant objects, and sorts all
/// output by address so equal snapshots always produce equal values.
pub fn map_managed_objects(managed: ManagedObjects) -> (result: Result<
    ProviderState<BluetoothStatus>,
    BluezError,
>)
    ensures
        match managed_objects_meaning(managed@) {
            None => result is Err,
            Some(None) => result == Ok::<ProviderState<BluetoothStatus>, BluezError>(
                ProviderState::Unavailable,
            ),
            Some(Some(found)) => result matches Ok(ProviderState::Available { value, stale }) && !stale
                && views(value.adapters@) == arrangement(found.0.to_multiset(), adapter_order())
                && views(value.devices@) == arrangement(found.1.to_multiset(), device_order())
                && status_law(managed@, value),
        },
{
    let (adapters, devices) = collect_objects(&managed)?;
    let ghost found = scan_objects(managed@)->Some_0;
    proof {
        lemma_scan_distinct(managed@);
    }
    if adapters.len() == 0 {
        if devices.len() == 0 {
            return Ok(ProviderState::Unavailable);
        }
        return Err(BluezError(String::from_str("BlueZ reports devices without a local adapter")));
    }
    let mut prefixes: Vec<String> = Vec::new();
    let mut k: usize = 0;
    while k < adapters.len()
        invariant
            k <= adapters@.len(),
            prefixes@.len() == k,
            forall|j: int| 0 <= j < k ==> #[trigger] prefixes@[j]@ == child_prefix(adapters@[j].0@),
        decreases adapters@.len() - k,
    {
        let mut prefix = adapters[k].0.clone();
        prefix.append("/");
        prefixes.push(prefix);
        k = k + 1;
    }
    let mut d: usize = 0;
    while d < devices.len()
        invariant
            d <= devices@.len(),
            prefixes@.len() == adapters@.len(),
            forall|j: int| 0 <= j < adapters@.len() ==> #[trigger] prefixes@[j]@ == child_prefix(adapters@[j].0@),
            adapter_entries(adapters@) == found.0,
            device_entries(devices@) == found.1,
            scan_objects(managed@) == Some(found),
            found.0.len() > 0,
            forall|e: int| 0 <= e < d ==> below_some_adapter(found.0, #[trigger] found.1[e].0),
        decreases devices@.len() - d,
    {
        let mut below = false;
        let mut a: usize = 0;
        while a < prefixes.len() && !below
            invariant
                a <= prefixes@.len(),
                d < devices@.len(),
                prefixes@.len() == adapters@.len(),
                forall|j: int| 0 <= j < adapters@.len() ==> #[trigger] prefixes@[j]@ == child_prefix(adapters@[j].0@),
                adapter_entries(adapters@) == found.0,
                device_entries(devices@) == found.1,
                below ==> below_some_adapter(found.0, found.1[d as int].0),
                !below ==> forall|j: int| 0 <= j < a ==> !child_prefix(#[trigger] found.0[j].0).is_prefix_of(
                    found.1[d as int].0,
                ),
            decreases prefixes@.len() - a,
        {
            proof {
                assert(found.0[a as int].0 == adapters@[a as int].0@);
                assert(found.1[d as int].0 == devices@[d as int].0@);
            }
            if starts_with(devices[d].0.as_str(), prefixes[a].as_str()) {
                below = true;
            }
            a = a + 1;
        }
        if !below {
            proof {
                assert(found.1[d as int].0 == devices@[d as int].0@);
                assert(!below_some_adapter(found.0, found.1[d as int].0));
            }
            return Err(detailed("BlueZ device path is not below a local adapter: ", devices[d].0.as_str()));
        }
        d = d + 1;
    }
    let mut counted: Vec<BluetoothAdapterStatus> = Vec::new();
    let mut k: usize = 0;
    while k < adapters.len()
        invariant
            k <= adapters@.len(),
            prefixes@.len() == adapters@.len(),
            forall|j: int| 0 <= j < adapters@.len() ==> #[trigger] prefixes@[j]@ == child_prefix(adapters@[j].0@),
            adapter_entries(adapters@) == found.0,
            device_entries(devices@) == found.1,
            scan_objects(managed@) == Some(found),
            found.0.len() > 0,
            forall|e: int| 0 <= e < found.1.len() ==> below_some_adapter(found.0, #[trigger] found.1[e].0),
            views(counted@) == counted_adapters(found.0, found.1).take(k as int),
            forall|j: int| 0 <= j < k ==> count_below(found.1, child_prefix(#[trigger] found.0[j].0)) <= u32::MAX,
        decreases adapters@.len() - k,
    {
        let mut count: usize = 0;
        let mut e: usize = 0;
        while e < devices.len()
            invariant
                e <= devices@.len(),
                k < adapters@.len(),
                prefixes@.len() == adapters@.len(),
                prefixes@[k as int]@ == child_prefix(adapters@[k as int].0@),
                device_entries(devices@) == found.1,
                count as nat == count_below(found.1.take(e as int), prefixes@[k as int]@),
                count <= e,
            decreases devices@.len() - e,
        {
            proof {
                assert(found.1.take(e + 1).drop_last() =~= found.1.take(e as int));
                assert(found.1[e as int].0 == devices@[e as int].0@);
            }
            if starts_with(devices[e].0.as_str(), prefixes[k].as_str()) {
                count = count + 1;
            }
            e = e + 1;
        }
        proof {
            assert(found.1.take(e as int) =~= found.1);
            assert(found.0[k as int].0 == adapters@[k as int].0@);
        }
        if count > 4294967295 {
            proof {
                assert(count_below(found.1, child_prefix(found.0[k as int].0)) > u32::MAX);
            }
            return Err(BluezError(String::from_str("BlueZ adapter has too many devices")));
        }
        let adapter = &adapters[k].1;
        let ghost before = counted@;
        counted.push(
            BluetoothAdapterStatus {
                name: adapter.name.clone(),
                address: adapter.address.clone(),
                powered: adapter.powered,
                discovering: adapter.discovering,
                device_count: count as u32,
            },
        );
        proof {
            assert(counted_adapters(found.0, found.1).take(k + 1) =~= counted_adapters(
                found.0,
                found.1,
            ).take(k as int).push(counted@[k as int]@));
            assert(views(counted@) =~= views(before).push(counted@[k as int]@));
        }
        k = k + 1;
    }
    let mut listed: Vec<BluetoothDeviceStatus> = Vec::new();
    let mut e: usize = 0;
    while e < devices.len()
        invariant
            e <= devices@.len(),
            device_entries(devices@) == found.1,
            views(listed@) == found.1.map_values(|x: (Seq<char>, DeviceView)| x.1).take(e as int),
        decreases devices@.len() - e,
    {
        let device = &devices[e].1;
        let ghost before = listed@;
        listed.push(
            BluetoothDeviceStatus {
                name: device.name.clone(),
                address: device.address.clone(),
                connected: device.connected,
                paired: device.paired,
                trusted: device.trusted,
                battery_percent: device.battery_percent,
            },
        );
        proof {
            assert(views(listed@) =~= views(before).push(listed@[e as int]@));
            assert(found.1.map_values(|x: (Seq<char>, DeviceView)| x.1).take(e + 1) =~= found.1.map_values(
                |x: (Seq<char>, DeviceView)| x.1,
            ).take(e as int).push(found.1[e as int].1));
        }
        e = e + 1;
    }
    proof {
        assert(views(counted@) =~= counted_adapters(found.0, found.1));
        assert(views(listed@) =~= found.1.map_values(|x: (Seq<char>, DeviceView)| x.1));
        assert forall|i: int, j: int|
            0 <= i < counted@.len() && 0 <= j < counted@.len() && i != j implies crate::sort::comparable(
            #[trigger] counted@[i],
            #[trigger] counted@[j],
        ) by {
            assert(views(counted@)[i] == counted@[i]@);
            assert(views(counted@)[j] == counted@[j]@);
            assert(counted_adapters(found.0, found.1)[i].1 == found.0[i].1.1);
            assert(counted_adapters(found.0, found.1)[j].1 == found.0[j].1.1);
            lemma_seq_lt_trichotomy(counted@[i].address@, counted@[j].address@);
        }
        assert forall|i: int, j: int|
            0 <= i < listed@.len() && 0 <= j < listed@.len() && i != j implies crate::sort::comparable(
            #[trigger] listed@[i],
            #[trigger] listed@[j],
        ) by {
            assert(views(listed@)[i] == listed@[i]@);
            assert(views(listed@)[j] == listed@[j]@);
            assert(found.1.map_values(|x: (Seq<char>, DeviceView)| x.1)[i] == found.1[i].1);
            assert(found.1.map_values(|x: (Seq<char>, DeviceView)| x.1)[j] == found.1[j].1);
            assert(found.1[i].1.1 != found.1[j].1.1);
            lemma_seq_lt_trichotomy(listed@[i].address@, listed@[j].address@);
        }
    }
    let ghost counted_before = views(counted@);
    let ghost listed_before = views(listed@);
    let sorted_adapters = sort_ranked(counted);
    let sorted_devices = sort_ranked(listed);
    proof {
        lemma_address_orders_strict();
        assert(ordered_by(views(sorted_adapters@), adapter_order())) by {
            assert forall|i: int, j: int|
                #![trigger views(sorted_adapters@)[i], views(sorted_adapters@)[j]]
                0 <= i < j < views(sorted_adapters@).len() implies adapter_order()(
                views(sorted_adapters@)[i],
                views(sorted_adapters@)[j],
            ) by {
                assert(sorted_adapters@[i].precedes(&sorted_adapters@[j]));
            }
        }
        assert(ordered_by(views(sorted_devices@), device_order())) by {
            assert forall|i: int, j: int|
                #![trigger views(sorted_devices@)[i], views(sorted_devices@)[j]]
                0 <= i < j < views(sorted_devices@).len() implies device_order()(
                views(sorted_devices@)[i],
                views(sorted_devices@)[j],
            ) by {
                assert(sorted_devices@[i].precedes(&sorted_devices@[j]));
            }
        }
        lemma_arrangement(views(sorted_adapters@), adapter_order());
        lemma_arrangement(views(sorted_devices@), device_order());
        lemma_scan_addresses(managed@);
        let counted_views = counted_adapters(found.0, found.1);
        let listed_views = found.1.map_values(|x: (Seq<char>, DeviceView)| x.1);
        views(sorted_adapters@).to_multiset_ensures();
        counted_views.to_multiset_ensures();
        views(sorted_devices@).to_multiset_ensures();
        listed_views.to_multiset_ensures();
        assert forall|i: int| 0 <= i < sorted_adapters@.len() implies {
            &&& canonical_address(#[trigger] sorted_adapters@[i].address@)
            &&& exists|k: int|
                0 <= k < found.0.len() && found.0[k].1.1 == sorted_adapters@[i].address@
                    && sorted_adapters@[i].device_count == count_below(found.1, child_prefix(found.0[k].0))
        } by {
            let v = views(sorted_adapters@)[i];
            assert(v == sorted_adapters@[i]@);
            assert(views(sorted_adapters@).contains(v));
            assert(views(sorted_adapters@).to_multiset().count(v) > 0);
            assert(counted_before == counted_views);
            assert(counted_views.to_multiset().count(v) > 0);
            assert(counted_views.contains(v));
            let k = choose|k: int| 0 <= k < counted_views.len() && counted_views[k] == v;
            assert(counted_views[k].1 == found.0[k].1.1);
        }
        assert forall|i: int| 0 <= i < sorted_devices@.len() implies canonical_address(
            #[trigger] sorted_devices@[i].address@,
        ) by {
            let v = views(sorted_devices@)[i];
            assert(v == sorted_devices@[i]@);
            assert(views(sorted_devices@).contains(v));
            assert(views(sorted_devices@).to_multiset().count(v) > 0);
            assert(listed_before == listed_views);
            assert(listed_views.to_multiset().count(v) > 0);
            assert(listed_views.contains(v));
            let k = choose|k: int| 0 <= k < listed_views.len() && listed_views[k] == v;
            assert(listed_views[k] == found.1[k].1);
            assert(canonical_address(found.1[k].1.1));
            assert(sorted_devices@[i].address@ == v.1);
        }
    }
    Ok(
        ProviderState::Available {
            value: BluetoothStatus { adapters: sorted_adapters, devices: sorted_devices },
            stale: false,
        },
    )
}

// ---------------------------------------------------------------------------
// The order of the reply.

/// The adapter an object contributes, with its path.
pub open spec fn adapter_of() -> spec_fn((String, Interfaces)) -> Option<(Seq<char>, AdapterView)> {
    |object: (String, Interfaces)| match object_adapter(object.1@, object.0@) {
        Some(Some(v)) => Some((object.0@, v)),
        _ => None,
    }
}

/// The device an object contributes, with its path.
pub open spec fn device_of() -> spec_fn((String, Interfaces)) -> Option<(Seq<char>, DeviceView)> {
    |object: (String, Interfaces)| match object_device(object.1@, object.0@) {
        Some(Some(v)) => Some((object.0@, v)),
        _ => None,
    }
}

/// Whether an object is well-formed on its own.
pub open spec fn object_ok(object: (String, Interfaces)) -> bool {
    &&& valid_object_path(object.0@)
    &&& object_adapter(object.1@, object.0@) is Some
    &&& object_device(object.1@, object.0@) is Some
}

/// The path of an adapter entry.
pub open spec fn adapter_path_key() -> spec_fn((Seq<char>, AdapterView)) -> Seq<char> {
    |entry: (Seq<char>, AdapterView)| entry.0
}

/// The address of an adapter entry.
pub open spec fn adapter_address_key() -> spec_fn((Seq<char>, AdapterView)) -> Seq<char> {
    |entry: (Seq<char>, AdapterView)| entry.1.1
}

/// The address of a device entry.
pub open spec fn device_address_key() -> spec_fn((Seq<char>, DeviceView)) -> Seq<char> {
    |entry: (Seq<char>, DeviceView)| entry.1.1
}

/// Whether every object is well-formed and no adapter path, adapter address,
/// or device address occurs twice.
pub open spec fn objects_ok(objects: Seq<(String, Interfaces)>) -> bool {
    &&& forall|i: int| 0 <= i < objects.len() ==> object_ok(#[trigger] objects[i])
    &&& objects.filter_map(adapter_of()).map_values(adapter_path_key()).no_duplicates()
    &&& objects.filter_map(adapter_of()).map_values(adapter_address_key()).no_duplicates()
    &&& objects.filter_map(device_of()).map_values(device_address_key()).no_duplicates()
}

/// The duplicate checks of the scan read the keys of what it has collected.
proof fn lemma_keys_seen(
    adapters: Seq<(Seq<char>, AdapterView)>,
    devices: Seq<(Seq<char>, DeviceView)>,
    path: Seq<char>,
    address: Seq<char>,
)
    ensures
        has_adapter_path(adapters, path) == adapters.map_values(adapter_path_key()).contains(path),
        has_adapter_address(adapters, address) == adapters.map_values(adapter_address_key()).contains(
            address,
        ),
        has_device_address(devices, address) == devices.map_values(device_address_key()).contains(
            address,
        ),
{
    let paths = adapters.map_values(adapter_path_key());
    let addresses = adapters.map_values(adapter_address_key());
    let device_addresses = devices.map_values(device_address_key());
    if has_adapter_path(adapters, path) {
        let k = choose|k: int| 0 <= k < adapters.len() && #[trigger] adapters[k].0 == path;
        assert(paths[k] == path);
    }
    if paths.contains(path) {
        let k = choose|k: int| 0 <= k < paths.len() && paths[k] == path;
        assert(adapters[k].0 == path);
    }
    if has_adapter_address(adapters, address) {
        let k = choose|k: int| 0 <= k < adapters.len() && #[trigger] adapters[k].1.1 == address;
        assert(addresses[k] == address);
    }
    if addresses.contains(address) {
        let k = choose|k: int| 0 <= k < addresses.len() && addresses[k] == address;
        assert(adapters[k].1.1 == address);
    }
    if has_device_address(devices, address) {
        let k = choose|k: int| 0 <= k < devices.len() && #[trigger] devices[k].1.1 == address;
        assert(device_addresses[k] == address);
    }
    if device_addresses.contains(address) {
        let k = choose|k: int| 0 <= k < device_addresses.len() && device_addresses[k] == address;
        assert(devices[k].1.1 == address);
    }
}

/// The scan in closed form: it succeeds exactly when the objects are well
/// formed and free of repeated keys, and then collects every adapter and
/// device in order.
proof fn lemma_scan_closed_form(objects: Seq<(String, Interfaces)>)
    ensures
        scan_objects(objects) == if objects_ok(objects) {
            Some((objects.filter_map(adapter_of()), objects.filter_map(device_of())))
        } else {
            None
        },
    decreases objects.len(),
{
    if objects.len() == 0 {
        let adapters = objects.filter_map(adapter_of());
        let devices = objects.filter_map(device_of());
        assert(adapters =~= Seq::<(Seq<char>, AdapterView)>::empty());
        assert(devices =~= Seq::<(Seq<char>, DeviceView)>::empty());
        assert(adapters.map_values(adapter_path_key()).no_duplicates());
        assert(adapters.map_values(adapter_address_key()).no_duplicates());
        assert(devices.map_values(device_address_key()).no_duplicates());
        assert(objects_ok(objects));
    } else {
        let t = objects.drop_last();
        let x = objects.last();
        assert(t.push(x) =~= objects);
        lemma_scan_closed_form(t);
        lemma_filter_map_push(t, x, adapter_of());
        lemma_filter_map_push(t, x, device_of());
        let adapters = t.filter_map(adapter_of());
        let devices = t.filter_map(device_of());
        let path = x.0@;
        assert((forall|i: int| 0 <= i < objects.len() ==> object_ok(#[trigger] objects[i])) == ((
        forall|i: int| 0 <= i < t.len() ==> object_ok(#[trigger] t[i])) && object_ok(x))) by {
            if forall|i: int| 0 <= i < objects.len() ==> object_ok(#[trigger] objects[i]) {
                assert forall|i: int| 0 <= i < t.len() implies object_ok(#[trigger] t[i]) by {
                    assert(objects[i] == t[i]);
                }
                assert(objects[objects.len() - 1] == x);
            }
            if (forall|i: int| 0 <= i < t.len() ==> object_ok(#[trigger] t[i])) && object_ok(x) {
                assert forall|i: int| 0 <= i < objects.len() implies object_ok(#[trigger] objects[i]) by {
                    if i < t.len() {
                        assert(objects[i] == t[i]);
                    }
                }
            }
        }
        match adapter_of()(x) {
            Some(v) => {
                lemma_map_push(adapters, v, adapter_path_key());
                lemma_map_push(adapters, v, adapter_address_key());
                lemma_no_duplicates_push(adapters.map_values(adapter_path_key()), v.0);
                lemma_no_duplicates_push(adapters.map_values(adapter_address_key()), v.1.1);
                lemma_keys_seen(adapters, devices, path, v.1.1);
            },
            None => {},
        }
        match device_of()(x) {
            Some(v) => {
                lemma_map_push(devices, v, device_address_key());
                lemma_no_duplicates_push(devices.map_values(device_address_key()), v.1.1);
                lemma_keys_seen(adapters, devices, path, v.1.1);
            },
            None => {},
        }
    }
}

/// How many devices lie below `prefix`, counted one device at a time.
pub open spec fn count_step(prefix: Seq<char>) -> spec_fn(nat, (Seq<char>, DeviceView)) -> nat {
    |n: nat, device: (Seq<char>, DeviceView)| n + if prefix.is_prefix_of(device.0) {
        1nat
    } else {
        0nat
    }
}

/// Counting devices below a prefix is a fold over them.
proof fn lemma_count_below_fold(devices: Seq<(Seq<char>, DeviceView)>, prefix: Seq<char>)
    ensures
        count_below(devices, prefix) == devices.fold_left(0nat, count_step(prefix)),
    decreases devices.len(),
{
    if devices.len() > 0 {
        lemma_count_below_fold(devices.drop_last(), prefix);
    }
}

/// The same devices, in any order, count the same below any prefix.
proof fn lemma_count_below_permutation(
    a: Seq<(Seq<char>, DeviceView)>,
    b: Seq<(Seq<char>, DeviceView)>,
    prefix: Seq<char>,
)
    requires
        a.to_multiset() == b.to_multiset(),
    ensures
        count_below(a, prefix) == count_below(b, prefix),
{
    assert(vstd::seq_lib::commutative_foldl(count_step(prefix)));
    vstd::seq_lib::lemma_fold_left_permutation(a, b, count_step(prefix), 0nat);
    lemma_count_below_fold(a, prefix);
    lemma_count_below_fold(b, prefix);
}

/// The Bluetooth status a reply maps to, as the bar shows it: `None` when
/// the reply is rejected, `Some(None)` when there is no adapter and no
/// device, else the adapters and the devices, each in address order.
pub open spec fn bluetooth_status_of(objects: Seq<(String, Interfaces)>) -> Option<
    Option<(Seq<AdapterView>, Seq<DeviceView>)>,
> {
    match managed_objects_meaning(objects) {
        None => None,
        Some(None) => Some(None),
        Some(Some(found)) => Some(
            Some(
                (
                    arrangement(found.0.to_multiset(), adapter_order()),
                    arrangement(found.1.to_multiset(), device_order()),
                ),
            ),
        ),
    }
}

/// The order in which BlueZ lists its objects does not matter: two replies
/// holding the same objects map to the same Bluetooth status, so equal
/// snapshots always produce equal values.
pub proof fn lemma_object_order_irrelevant(a: Seq<(String, Interfaces)>, b: Seq<(String, Interfaces)>)
    requires
        a.to_multiset() == b.to_multiset(),
    ensures
        bluetooth_status_of(a) == bluetooth_status_of(b),
{
    lemma_scan_closed_form(a);
    lemma_scan_closed_form(b);
    lemma_same_elements(a, b);
    let adapters_a = a.filter_map(adapter_of());
    let adapters_b = b.filter_map(adapter_of());
    let devices_a = a.filter_map(device_of());
    let devices_b = b.filter_map(device_of());
    lemma_filter_map_permutation(a, b, adapter_of());
    lemma_filter_map_permutation(a, b, device_of());
    lemma_map_permutation(adapters_a, adapters_b, adapter_path_key());
    lemma_map_permutation(adapters_a, adapters_b, adapter_address_key());
    lemma_map_permutation(devices_a, devices_b, device_address_key());
    lemma_no_duplicates_permutation(
        adapters_a.map_values(adapter_path_key()),
        adapters_b.map_values(adapter_path_key()),
    );
    lemma_no_duplicates_permutation(
        adapters_a.map_values(adapter_address_key()),
        adapters_b.map_values(adapter_address_key()),
    );
    lemma_no_duplicates_permutation(
        devices_a.map_values(device_address_key()),
        devices_b.map_values(device_address_key()),
    );
    assert((forall|i: int| 0 <= i < a.len() ==> object_ok(#[trigger] a[i])) == (forall|i: int|
        0 <= i < b.len() ==> object_ok(#[trigger] b[i]))) by {
        if forall|i: int| 0 <= i < a.len() ==> object_ok(#[trigger] a[i]) {
            assert forall|i: int| 0 <= i < b.len() implies object_ok(#[trigger] b[i]) by {
                assert(b.contains(b[i]));
                let j = choose|j: int| 0 <= j < a.len() && a[j] == b[i];
            }
        }
        if forall|i: int| 0 <= i < b.len() ==> object_ok(#[trigger] b[i]) {
            assert forall|i: int| 0 <= i < a.len() implies object_ok(#[trigger] a[i]) by {
                assert(a.contains(a[i]));
                let j = choose|j: int| 0 <= j < b.len() && b[j] == a[i];
            }
        }
    }
    assert(objects_ok(a) == objects_ok(b));
    if objects_ok(a) {
        lemma_same_elements(adapters_a, adapters_b);
        lemma_same_elements(devices_a, devices_b);
        adapters_a.to_multiset_ensures();
        adapters_b.to_multiset_ensures();
        devices_a.to_multiset_ensures();
        devices_b.to_multiset_ensures();
        let orphan_a = exists|d: int|
            0 <= d < devices_a.len() && !below_some_adapter(adapters_a, #[trigger] devices_a[d].0);
        let orphan_b = exists|d: int|
            0 <= d < devices_b.len() && !below_some_adapter(adapters_b, #[trigger] devices_b[d].0);
        assert forall|p: Seq<char>| below_some_adapter(adapters_a, p) == below_some_adapter(adapters_b, p) by {
            if below_some_adapter(adapters_a, p) {
                let k = choose|k: int| 0 <= k < adapters_a.len() && child_prefix(#[trigger] adapters_a[k].0).is_prefix_of(p);
                assert(adapters_a.contains(adapters_a[k]));
                let j = choose|j: int| 0 <= j < adapters_b.len() && adapters_b[j] == adapters_a[k];
            }
            if below_some_adapter(adapters_b, p) {
                let k = choose|k: int| 0 <= k < adapters_b.len() && child_prefix(#[trigger] adapters_b[k].0).is_prefix_of(p);
                assert(adapters_b.contains(adapters_b[k]));
                let j = choose|j: int| 0 <= j < adapters_a.len() && adapters_a[j] == adapters_b[k];
            }
        }
        assert(orphan_a == orphan_b) by {
            if orphan_a {
                let d = choose|d: int| 0 <= d < devices_a.len() && !below_some_adapter(adapters_a, #[trigger] devices_a[d].0);
                assert(devices_a.contains(devices_a[d]));
                let e = choose|e: int| 0 <= e < devices_b.len() && devices_b[e] == devices_a[d];
                assert(!below_some_adapter(adapters_b, devices_b[e].0));
            }
            if orphan_b {
                let d = choose|d: int| 0 <= d < devices_b.len() && !below_some_adapter(adapters_b, #[trigger] devices_b[d].0);
                assert(devices_b.contains(devices_b[d]));
                let e = choose|e: int| 0 <= e < devices_a.len() && devices_a[e] == devices_b[d];
                assert(!below_some_adapter(adapters_a, devices_a[e].0));
            }
        }
        assert forall|prefix: Seq<char>| count_below(devices_a, prefix) == count_below(devices_b, prefix) by {
            lemma_count_below_permutation(devices_a, devices_b, prefix);
        }
        let crowded_a = exists|k: int|
            0 <= k < adapters_a.len() && count_below(devices_a, child_prefix(#[trigger] adapters_a[k].0)) > u32::MAX;
        let crowded_b = exists|k: int|
            0 <= k < adapters_b.len() && count_below(devices_b, child_prefix(#[trigger] adapters_b[k].0)) > u32::MAX;
        assert(crowded_a == crowded_b) by {
            if crowded_a {
                let k = choose|k: int| 0 <= k < adapters_a.len() && count_below(devices_a, child_prefix(#[trigger] adapters_a[k].0)) > u32::MAX;
                assert(adapters_a.contains(adapters_a[k]));
                let j = choose|j: int| 0 <= j < adapters_b.len() && adapters_b[j] == adapters_a[k];
                assert(count_below(devices_b, child_prefix(adapters_b[j].0)) > u32::MAX);
            }
            if crowded_b {
                let k = choose|k: int| 0 <= k < adapters_b.len() && count_below(devices_b, child_prefix(#[trigger] adapters_b[k].0)) > u32::MAX;
                assert(adapters_b.contains(adapters_b[k]));
                let j = choose|j: int| 0 <= j < adapters_a.len() && adapters_a[j] == adapters_b[k];
                assert(count_below(devices_a, child_prefix(adapters_a[j].0)) > u32::MAX);
            }
        }
        let count_a = |e: (Seq<char>, AdapterView)|
            (e.1.0, e.1.1, e.1.2, e.1.3, count_below(devices_a, child_prefix(e.0)) as u32);
        let count_b = |e: (Seq<char>, AdapterView)|
            (e.1.0, e.1.1, e.1.2, e.1.3, count_below(devices_b, child_prefix(e.0)) as u32);
        assert(count_a =~= count_b);
        assert(counted_adapters(adapters_a, devices_a) == adapters_a.map_values(count_a));
        assert(counted_adapters(adapters_b, devices_b) == adapters_b.map_values(count_b));
        lemma_map_permutation(adapters_a, adapters_b, count_a);
        lemma_map_permutation(devices_a, devices_b, |e: (Seq<char>, DeviceView)| e.1);
        assert(adapters_a.len() == adapters_b.len());
        assert(devices_a.len() == devices_b.len());
    }
}

/// A parsed device reports BlueZ's own flags: connected is the value of its
/// "Connected" property, paired of "Paired", and trusted of "Trusted"; its
/// address is the "Address" property in upper case.
pub proof fn lemma_device_flags_follow_properties(
    path: Seq<char>,
    props: Seq<(String, PropertyValue)>,
    battery: Option<Seq<(String, PropertyValue)>>,
)
    ensures
        device_view(path, props, battery) matches Some(v) ==> {
            &&& lookup(props, "Connected"@) == Some(PropertyValue::Bool(v.2))
            &&& lookup(props, "Paired"@) == Some(PropertyValue::Bool(v.3))
            &&& lookup(props, "Trusted"@) == Some(PropertyValue::Bool(v.4))
            &&& lookup(props, "Address"@) matches Some(PropertyValue::Str(raw)) && v.1 == raw@.map_values(
                |c: char| ascii_upper(c),
            )
        },
{
}

/// A parsed adapter reports BlueZ's own flags: powered is the value of its
/// "Powered" property and discovering of "Discovering"; its address is the
/// "Address" property in upper case.
pub proof fn lemma_adapter_flags_follow_properties(path: Seq<char>, props: Seq<(String, PropertyValue)>)
    ensures
        adapter_view(path, props) matches Some(v) ==> {
            &&& lookup(props, "Powered"@) == Some(PropertyValue::Bool(v.2))
            &&& lookup(props, "Discovering"@) == Some(PropertyValue::Bool(v.3))
            &&& lookup(props, "Address"@) matches Some(PropertyValue::Str(raw)) && v.1 == raw@.map_values(
                |c: char| ascii_upper(c),
            )
        },
{
}

} // verus!
