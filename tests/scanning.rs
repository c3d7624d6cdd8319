use akp153_dispatch::kind::Kind;
use akp153_dispatch::scan::{candidate_id, scan, HidInterface};

fn iface(usage_page: u16, usage_id: u16, vendor_id: u16, product_id: u16, serial: &str) -> HidInterface {
    HidInterface { usage_page, usage_id, vendor_id, product_id, serial: serial.to_string() }
}

#[test]
fn akp153_interface_becomes_one_candidate() {
    let found = scan(&vec![iface(65440, 1, 0x0300, 0x6674, "ABC123")]);
    assert_eq!(found.len(), 1);
    assert_eq!(found[0].id, "ABC123153");
    assert_eq!(found[0].kind, Kind::AKP153);
    assert_eq!(found[0].dev, 0);
}

#[test]
fn second_generation_id_is_the_bare_serial() {
    let found = scan(&vec![iface(65440, 1, 0x6603, 0x1014, "SER9")]);
    assert_eq!(found.len(), 1);
    assert_eq!(found[0].id, "SER9");
    assert_eq!(found[0].kind, Kind::HSV293SV3);
}

#[test]
fn non_matching_interfaces_are_left_out() {
    let list = vec![
        iface(65440, 2, 0x0300, 0x6674, "A"),
        iface(1, 1, 0x0300, 0x6674, "B"),
        iface(65440, 1, 0x0300, 0x9999, "C"),
        iface(65440, 1, 0x0b00, 0x1000, "D"),
        iface(65440, 1, 0x1111, 0x1000, "E"),
        iface(65440, 1, 0x0300, 0x3010, "F"),
    ];
    let found = scan(&list);
    assert_eq!(found.len(), 2);
    assert_eq!(found[0].dev, 3);
    assert_eq!(found[0].id, "DMSDONE");
    assert_eq!(found[0].kind, Kind::MSDONE);
    assert_eq!(found[1].dev, 5);
    assert_eq!(found[1].id, "F");
    assert_eq!(found[1].kind, Kind::AKP153EREV2);
}

#[test]
fn same_serial_on_two_models_gives_two_ids() {
    let list = vec![
        iface(65440, 1, 0x0300, 0x6674, "355499441494"),
        iface(65440, 1, 0x0300, 0x1010, "355499441494"),
    ];
    let found = scan(&list);
    assert_eq!(found.len(), 2);
    assert_eq!(found[0].id, "355499441494153");
    assert_eq!(found[1].id, "355499441494153E");
    assert_ne!(found[0].id, found[1].id);
}

#[test]
fn empty_scan() {
    assert!(scan(&Vec::new()).is_empty());
}

#[test]
fn candidate_ids() {
    assert_eq!(candidate_id(&"S".to_string(), Kind::TMICESC), "STMICESC");
    assert_eq!(candidate_id(&"".to_string(), Kind::HSV293S), "293S");
    assert_eq!(candidate_id(&"S".to_string(), Kind::AKP153EREV2), "S");
}
