use crossdesk::crypto::RandomError;
use crossdesk::discovery::{
    answer, broadcast_targets, note, query, scan_result, Found, Interface, BROADCAST,
};
use crossdesk::displays::{enumerate, Monitor};
use crossdesk::platform::Os;
use crossdesk::protocol::{id_to_hex, Beacon, PROTOCOL_VERSION};
use crossdesk::settings::{config_base, hostname, os_label, ConfigBase, Loaded, Settings};

#[test]
fn fresh_settings_share_text_but_not_images() {
    let s = Settings::fresh(&[7u8; 16], "box".into(), "123456".into());
    assert_eq!(s.id(), [7u8; 16]);
    assert_eq!(s.device_name, "box");
    assert_eq!(s.pairing_code, "123456");
    assert!(s.clipboard_sync);
    assert!(!s.clipboard_images);
    assert!(s.layout.entries.is_empty());
    assert!(s.paired_hosts.entries.is_empty() && s.paired_clients.entries.is_empty());
}

#[test]
fn generated_settings_have_an_identity_and_a_code() {
    let a = Settings::generate("a".into()).unwrap();
    let b = Settings::generate("a".into()).unwrap();
    assert_ne!(a.device_id, b.device_id);
    assert_eq!(a.device_id, id_to_hex(&a.id()));
    assert_eq!(a.pairing_code.len(), 6);
}

#[test]
fn a_broken_id_reads_as_zero() {
    let mut s = Settings::fresh(&[7u8; 16], "box".into(), "1".into());
    s.device_id = "not an id".into();
    assert_eq!(s.id(), [0u8; 16]);
    assert_eq!(s.copy().device_id, "not an id");
}

#[test]
fn a_file_that_cannot_be_read_starts_over() {
    let s = || Settings::fresh(&[7u8; 16], "box".into(), "1".into());
    assert!(matches!(Settings::load(true, Some(s())), Loaded::Keep(k) if k.device_name == "box"));
    assert!(matches!(Settings::load(true, None), Loaded::StartFresh { save: true }));
    assert!(matches!(Settings::load(false, None), Loaded::StartFresh { save: false }));
    assert!(matches!(Settings::load(false, Some(s())), Loaded::StartFresh { save: false }));
}

#[test]
fn settings_live_where_the_platform_keeps_them() {
    assert_eq!(config_base(Os::Windows, true, false, false), Some(ConfigBase::AppData));
    assert_eq!(config_base(Os::Windows, false, true, true), None);
    assert_eq!(config_base(Os::MacOs, true, true, true), Some(ConfigBase::HomeLibrary));
    assert_eq!(config_base(Os::Other, true, true, true), Some(ConfigBase::XdgConfig));
    assert_eq!(config_base(Os::Other, false, false, true), Some(ConfigBase::HomeConfig));
    assert_eq!(config_base(Os::Other, true, false, false), None);
}

#[test]
fn the_first_name_that_says_anything_wins() {
    let some = |s: &str| Some(s.to_string());
    assert_eq!(hostname(&vec![None, some("  desk \n"), some("other")]), "desk");
    assert_eq!(hostname(&vec![some(" "), None, some("etc")]), "etc");
    assert_eq!(hostname(&vec![None, some("\t")]), "CrossDesk device");
}

#[test]
fn systems_have_names_people_know() {
    assert_eq!(os_label("windows"), "Windows");
    assert_eq!(os_label("macos"), "macOS");
    assert_eq!(os_label("linux"), "Linux");
    assert_eq!(os_label("freebsd"), "freebsd");
}

fn monitor(id: u32, x: i32, y: i32, primary: bool, friendly: &str) -> Monitor {
    Monitor {
        id,
        name: format!("raw{id}"),
        friendly_name: friendly.into(),
        x,
        y,
        width: 10,
        height: 20,
        scale_bits: 2.0f32.to_bits(),
        primary,
    }
}

#[test]
fn monitors_are_listed_primary_first() {
    let out = enumerate(vec![
        monitor(1, 100, 0, false, "Right"),
        monitor(2, -100, 50, false, ""),
        monitor(3, 0, 0, true, "Main"),
        monitor(4, -100, 10, false, "Top left"),
        monitor(5, 100, 0, false, "Twin"),
    ]);
    let ids: Vec<u32> = out.iter().map(|d| d.id).collect();
    assert_eq!(ids, vec![3, 4, 2, 1, 5]);
    assert_eq!(out[2].name, "raw2");
    assert_eq!(out[0].name, "Main");
    assert_eq!(f32::from_bits(out[0].scale_bits), 2.0);
}

#[test]
fn a_headless_machine_gets_a_virtual_screen() {
    let out = enumerate(vec![]);
    assert_eq!(out.len(), 1);
    assert_eq!((out[0].id, out[0].name.as_str()), (0, "Display"));
    assert_eq!((out[0].width, out[0].height), (1920, 1080));
    assert_eq!(f32::from_bits(out[0].scale_bits), 1.0);
    assert!(out[0].primary);
}

#[test]
fn every_interface_is_asked_once_each() {
    let iface = |loopback, broadcast| Interface { loopback, broadcast };
    assert_eq!(
        broadcast_targets(&vec![
            iface(true, Some(0x7FFF_FFFF)),
            iface(false, Some(0x0A00_00FF)),
            iface(false, None),
            iface(false, Some(0xC0A8_01FF)),
            iface(false, Some(0x0A00_00FF)),
        ]),
        vec![0x0A00_00FF, 0xC0A8_01FF]
    );
    assert_eq!(broadcast_targets(&vec![iface(false, None)]), vec![BROADCAST]);
    assert_eq!(broadcast_targets(&vec![]), vec![BROADCAST]);
}

#[test]
fn hosts_answer_queries_of_their_version() {
    let reply = answer(&query(), &[1u8; 16], "desk", "Windows", 47810, true);
    assert!(matches!(
        &reply,
        Some(Beacon::Announce { protocol: PROTOCOL_VERSION, id, name, os, port: 47810, needs_code: true })
            if *id == [1u8; 16] && name == "desk" && os == "Windows"
    ));
    assert!(answer(&Beacon::Query { protocol: 2 }, &[1u8; 16], "d", "o", 1, true).is_none());
    assert!(answer(&reply.unwrap(), &[1u8; 16], "d", "o", 1, true).is_none());
}

fn announce(n: u8, name: &str, protocol: u8) -> Beacon {
    Beacon::Announce {
        protocol,
        id: [n; 16],
        name: name.into(),
        os: "Windows".into(),
        port: 47810,
        needs_code: false,
    }
}

#[test]
fn a_host_on_two_interfaces_is_listed_once() {
    let mut found: Vec<Found> = vec![];
    note(&mut found, announce(2, "zeta", 1), "10.0.0.2".into());
    note(&mut found, announce(2, "zeta", 1), "192.168.1.2".into());
    note(&mut found, announce(3, "alpha", 1), "10.0.0.3".into());
    note(&mut found, announce(4, "wrong", 9), "10.0.0.4".into());
    note(&mut found, query(), "10.0.0.5".into());
    note(&mut found, announce(5, "alpha", 1), "10.0.0.6".into());
    let list = scan_result(found);
    let seen: Vec<(&str, &str)> =
        list.iter().map(|f| (f.name.as_str(), f.address.as_str())).collect();
    // By name, and in the order they answered where the names agree.
    assert_eq!(
        seen,
        vec![("alpha", "10.0.0.3"), ("alpha", "10.0.0.6"), ("zeta", "10.0.0.2")]
    );
    assert_eq!(list[2].id, id_to_hex(&[2u8; 16]));
}

#[test]
fn settings_need_both_an_identity_and_a_code() {
    let code = || Ok(String::from("123456"));
    let s = Settings::given(Ok([4u8; 16]), "box".into(), code()).unwrap();
    assert_eq!((s.id(), s.pairing_code.as_str()), ([4u8; 16], "123456"));
    assert!(Settings::given(Err(RandomError), "box".into(), code()).is_err());
    assert!(Settings::given(Ok([4u8; 16]), "box".into(), Err(RandomError)).is_err());
}
