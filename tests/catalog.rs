use akp153_dispatch::kind::{
    get_image_format_for_key, ImageMirroring, ImageMode, ImageRotation, Kind, AJAZZ_VID,
    AKP153E_PID, AKP153E_REV2_PID, AKP153R_PID, AKP153_PID, GK150K_PID, HSV293SV3_1005_PID,
    HSV293SV3_PID, HSV293S_PID, MADDOG_VID, MG_VID, MIRABOX_2_VID, MIRABOX_VID, MSD_ONE_PID,
    RISEMODE_VID, RMV01_PID, TMICESC_PID, TMICE_VID,
};

const CATALOG: [(u16, u16, Kind); 11] = [
    (MIRABOX_VID, HSV293S_PID, Kind::HSV293S),
    (MIRABOX_2_VID, HSV293SV3_PID, Kind::HSV293SV3),
    (MIRABOX_2_VID, HSV293SV3_1005_PID, Kind::HSV293SV3_1005),
    (AJAZZ_VID, AKP153_PID, Kind::AKP153),
    (AJAZZ_VID, AKP153E_PID, Kind::AKP153E),
    (AJAZZ_VID, AKP153E_REV2_PID, Kind::AKP153EREV2),
    (AJAZZ_VID, AKP153R_PID, Kind::AKP153R),
    (MG_VID, MSD_ONE_PID, Kind::MSDONE),
    (MADDOG_VID, GK150K_PID, Kind::GK150K),
    (RISEMODE_VID, RMV01_PID, Kind::RMV01),
    (TMICE_VID, TMICESC_PID, Kind::TMICESC),
];

#[test]
fn every_catalog_pair_resolves_to_its_kind() {
    for (vid, pid, kind) in CATALOG {
        assert_eq!(Kind::from_vid_pid(vid, pid), Some(kind));
    }
}

#[test]
fn unknown_pairs_resolve_to_nothing() {
    assert_eq!(Kind::from_vid_pid(0x0300, 0x0000), None);
    assert_eq!(Kind::from_vid_pid(0x1234, 0x6674), None);
    // a product id known under one vendor is not known under another
    assert_eq!(Kind::from_vid_pid(MIRABOX_VID, AKP153_PID), None);
    assert_eq!(Kind::from_vid_pid(0xffff, 0xffff), None);
    assert_eq!(Kind::from_vid_pid(0, 0), None);
}

#[test]
fn shared_product_ids_are_told_apart_by_vendor() {
    assert_eq!(Kind::from_vid_pid(MG_VID, 0x1000), Some(Kind::MSDONE));
    assert_eq!(Kind::from_vid_pid(MADDOG_VID, 0x1000), Some(Kind::GK150K));
    assert_eq!(Kind::from_vid_pid(RISEMODE_VID, 0x1001), Some(Kind::RMV01));
    assert_eq!(Kind::from_vid_pid(TMICE_VID, 0x1001), Some(Kind::TMICESC));
}

#[test]
fn akp153_facts() {
    let kind = Kind::from_vid_pid(0x0300, 0x6674).unwrap();
    assert_eq!(kind, Kind::AKP153);
    assert_eq!(kind.human_name(), "Ajazz AKP153");
    assert_eq!(kind.protocol_version(), 1);
    assert_eq!(kind.id_suffix(), "153");
    assert!(!kind.supports_both_states());
}

#[test]
fn second_generation_kinds() {
    for kind in [Kind::HSV293SV3, Kind::HSV293SV3_1005, Kind::AKP153EREV2] {
        assert_eq!(kind.protocol_version(), 2);
        assert!(kind.supports_both_states());
    }
}

#[test]
fn suffixes_of_first_generation_kinds() {
    let expected = [
        (Kind::AKP153, "153"),
        (Kind::AKP153E, "153E"),
        (Kind::AKP153R, "153R"),
        (Kind::HSV293S, "293S"),
        (Kind::MSDONE, "MSDONE"),
        (Kind::GK150K, "GK150K"),
        (Kind::RMV01, "RMV01"),
        (Kind::TMICESC, "TMICESC"),
    ];
    for (kind, suffix) in expected {
        assert_eq!(kind.protocol_version(), 1);
        assert!(!kind.supports_both_states());
        assert_eq!(kind.id_suffix(), suffix);
    }
}

#[test]
fn human_names() {
    assert_eq!(Kind::HSV293S.human_name(), "Mirabox HSV293S");
    assert_eq!(Kind::HSV293SV3.human_name(), "Mirabox HSV293SV3");
    assert_eq!(Kind::HSV293SV3_1005.human_name(), "Mirabox HSV293SV3");
    assert_eq!(Kind::AKP153EREV2.human_name(), "Ajazz AKP153E (rev. 2)");
    assert_eq!(Kind::MSDONE.human_name(), "Mars Gaming MSD-ONE");
    assert_eq!(Kind::GK150K.human_name(), "Mad Dog GK150K");
    assert_eq!(Kind::RMV01.human_name(), "Risemode Vision 01");
    assert_eq!(Kind::TMICESC.human_name(), "TMICE Stream Controller");
}

#[test]
fn first_generation_images_are_85_square() {
    for key in [0u8, 5, 11, 17] {
        let f = get_image_format_for_key(&Kind::AKP153, key);
        assert_eq!(f.size, (85, 85));
        assert!(matches!(f.mode, ImageMode::JPEG));
        assert!(matches!(f.rotation, ImageRotation::Rot90));
        assert!(matches!(f.mirror, ImageMirroring::Both));
    }
}

#[test]
fn second_generation_images_depend_on_key() {
    for key in [5u8, 11, 17] {
        assert_eq!(get_image_format_for_key(&Kind::HSV293SV3, key).size, (82, 82));
    }
    for key in [0u8, 4, 6, 10, 12, 16] {
        assert_eq!(get_image_format_for_key(&Kind::AKP153EREV2, key).size, (95, 95));
    }
    let f = get_image_format_for_key(&Kind::HSV293SV3_1005, 5);
    assert!(matches!(f.mode, ImageMode::JPEG));
    assert!(matches!(f.rotation, ImageRotation::Rot90));
    assert!(matches!(f.mirror, ImageMirroring::Both));
}
