use sol_shell::bluez::{
    map_managed_objects, parse_address, validate_object_path, ManagedObjects, Properties,
    PropertyValue, ADAPTER_INTERFACE, BATTERY_INTERFACE, DEVICE_INTERFACE,
};
use sol_shell::topbar::{
    BluetoothAdapterStatus, BluetoothDeviceStatus, BluetoothStatus, ProviderState,
};

const ADAPTER_PATH: &str = "/org/bluez/hci0";
const DEVICE_PATH: &str = "/org/bluez/hci0/dev_AA_BB_CC_DD_EE_FF";

fn string_value(value: &str) -> PropertyValue {
    PropertyValue::Str(value.to_owned())
}

fn properties(entries: Vec<(&str, PropertyValue)>) -> Properties {
    entries
        .into_iter()
        .map(|(name, value)| (name.to_owned(), value))
        .collect()
}

fn fixture() -> ManagedObjects {
    vec![
        (
            ADAPTER_PATH.to_owned(),
            vec![(
                ADAPTER_INTERFACE.to_owned(),
                properties(vec![
                    ("Address", string_value("11:22:33:44:55:66")),
                    ("Alias", string_value("SOL Adapter")),
                    ("Powered", PropertyValue::Bool(true)),
                    ("Discovering", PropertyValue::Bool(false)),
                ]),
            )],
        ),
        (
            DEVICE_PATH.to_owned(),
            vec![
                (
                    DEVICE_INTERFACE.to_owned(),
                    properties(vec![
                        ("Address", string_value("aa:bb:cc:dd:ee:ff")),
                        ("Alias", string_value("Headphones")),
                        ("Connected", PropertyValue::Bool(true)),
                        ("Paired", PropertyValue::Bool(true)),
                        ("Trusted", PropertyValue::Bool(false)),
                    ]),
                ),
                (
                    BATTERY_INTERFACE.to_owned(),
                    properties(vec![("Percentage", PropertyValue::Byte(84))]),
                ),
            ],
        ),
    ]
}

fn interface_mut<'a>(
    objects: &'a mut ManagedObjects,
    path: &str,
    interface: &str,
) -> &'a mut Properties {
    let object = objects
        .iter_mut()
        .find(|(p, _)| p == path)
        .expect("object present");
    &mut object
        .1
        .iter_mut()
        .find(|(name, _)| name == interface)
        .expect("interface present")
        .1
}

fn set_property(props: &mut Properties, name: &str, value: PropertyValue) {
    match props.iter_mut().find(|(n, _)| n == name) {
        Some(entry) => entry.1 = value,
        None => props.push((name.to_owned(), value)),
    }
}

fn remove_property(props: &mut Properties, name: &str) {
    props.retain(|(n, _)| n != name);
}

#[test]
fn managed_objects_map_to_sorted_typed_status() {
    let result = map_managed_objects(fixture()).expect("fixture should map");
    assert_eq!(
        result,
        ProviderState::Available {
            value: BluetoothStatus {
                adapters: vec![BluetoothAdapterStatus {
                    name: "SOL Adapter".into(),
                    address: "11:22:33:44:55:66".into(),
                    powered: true,
                    discovering: false,
                    device_count: 1,
                }],
                devices: vec![BluetoothDeviceStatus {
                    name: "Headphones".into(),
                    address: "AA:BB:CC:DD:EE:FF".into(),
                    connected: true,
                    paired: true,
                    trusted: false,
                    battery_percent: Some(84),
                }],
            },
            stale: false,
        }
    );
}

#[test]
fn no_adapter_is_unavailable_and_orphaned_device_is_rejected() {
    assert_eq!(
        map_managed_objects(Vec::new()).unwrap(),
        ProviderState::Unavailable
    );
    let mut objects = fixture();
    objects.retain(|(path, _)| path != ADAPTER_PATH);
    assert!(map_managed_objects(objects).is_err());
}

#[test]
fn malformed_relevant_properties_are_rejected() {
    let mut objects = fixture();
    let adapter = interface_mut(&mut objects, ADAPTER_PATH, ADAPTER_INTERFACE);
    set_property(adapter, "Powered", string_value("yes"));
    assert!(map_managed_objects(objects).is_err());

    let mut objects = fixture();
    let adapter = interface_mut(&mut objects, ADAPTER_PATH, ADAPTER_INTERFACE);
    remove_property(adapter, "Discovering");
    assert!(map_managed_objects(objects).is_err());

    let mut objects = fixture();
    let device = interface_mut(&mut objects, DEVICE_PATH, DEVICE_INTERFACE);
    set_property(device, "Address", string_value("not-an-address"));
    assert!(map_managed_objects(objects).is_err());

    let mut objects = fixture();
    let device = interface_mut(&mut objects, DEVICE_PATH, DEVICE_INTERFACE);
    remove_property(device, "Trusted");
    assert!(map_managed_objects(objects).is_err());
}

#[test]
fn battery_values_and_names_are_bounded() {
    let mut objects = fixture();
    let battery = interface_mut(&mut objects, DEVICE_PATH, BATTERY_INTERFACE);
    set_property(battery, "Percentage", PropertyValue::Byte(101));
    assert!(map_managed_objects(objects).is_err());
}

#[test]
fn addresses_are_normalized_to_upper_case() {
    assert_eq!(
        parse_address("0a:1b:2c:3d:4e:5f".to_owned()).unwrap(),
        "0A:1B:2C:3D:4E:5F"
    );
    assert!(parse_address("0a:1b:2c:3d:4e".to_owned()).is_err());
    assert!(parse_address("0a-1b-2c-3d-4e-5f".to_owned()).is_err());
}

#[test]
fn object_paths_must_live_under_the_bluez_root() {
    assert!(validate_object_path(ADAPTER_PATH).is_ok());
    assert!(validate_object_path("/org/freedesktop/hci0").is_err());
}

#[test]
fn devices_are_sorted_by_address() {
    let mut objects = fixture();
    objects.push((
        "/org/bluez/hci0/dev_00_11_22_33_44_55".to_owned(),
        vec![(
            DEVICE_INTERFACE.to_owned(),
            properties(vec![
                ("Address", string_value("00:11:22:33:44:55")),
                ("Alias", string_value("Keyboard")),
                ("Connected", PropertyValue::Bool(false)),
                ("Paired", PropertyValue::Bool(true)),
                ("Trusted", PropertyValue::Bool(true)),
            ]),
        )],
    ));
    let result = map_managed_objects(objects).unwrap();
    let status = result.value().unwrap();
    let addresses: Vec<&str> = status.devices.iter().map(|d| d.address.as_str()).collect();
    assert_eq!(addresses, vec!["00:11:22:33:44:55", "AA:BB:CC:DD:EE:FF"]);
    assert_eq!(status.adapters[0].device_count, 2);
    assert_eq!(status.devices[0].battery_percent, None);
}
