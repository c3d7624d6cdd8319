//! The catalog of supported device kinds and the facts attached to each.
use vstd::prelude::*;

verus! {

/// Rows of keys on every supported device.
pub const ROW_COUNT: usize = 3;

/// Columns of keys on every supported device.
pub const COL_COUNT: usize = 6;

/// Keys on every supported device.
pub const KEY_COUNT: usize = ROW_COUNT * COL_COUNT;

/// Encoders on every supported device.
pub const ENCODER_COUNT: usize = 0;

/// HID usage page shared by every catalog query.
pub const USAGE_PAGE: u16 = 65440;

/// HID usage id shared by every catalog query.
pub const USAGE_ID: u16 = 1;

pub const AJAZZ_VID: u16 = 0x0300;
pub const MIRABOX_VID: u16 = 0x5548;
pub const MIRABOX_2_VID: u16 = 0x6603;
pub const MG_VID: u16 = 0x0b00;
pub const MADDOG_VID: u16 = 0x0c00;
pub const RISEMODE_VID: u16 = 0x0a00;
pub const TMICE_VID: u16 = 0x0500;

pub const HSV293S_PID: u16 = 0x6670;
pub const HSV293SV3_PID: u16 = 0x1014;
pub const HSV293SV3_1005_PID: u16 = 0x1005;
pub const AKP153_PID: u16 = 0x6674;
pub const AKP153E_PID: u16 = 0x1010;
pub const AKP153E_REV2_PID: u16 = 0x3010;
pub const AKP153R_PID: u16 = 0x1020;
pub const MSD_ONE_PID: u16 = 0x1000;
pub const GK150K_PID: u16 = 0x1000;
pub const RMV01_PID: u16 = 0x1001;
pub const TMICESC_PID: u16 = 0x1001;

/// One supported hardware model.
#[allow(non_camel_case_types)]
#[derive(Debug, Clone, Copy, PartialEq, Eq, Structural)]
pub enum Kind {
    HSV293S,
    HSV293SV3,
    HSV293SV3_1005,
    AKP153,
    AKP153E,
    AKP153EREV2,
    AKP153R,
    MSDONE,
    GK150K,
    RMV01,
    TMICESC,
}

/// USB vendor id that a kind reports.
pub open spec fn vendor_id(k: Kind) -> u16 {
    match k {
        Kind::HSV293S => MIRABOX_VID,
        Kind::HSV293SV3 => MIRABOX_2_VID,
        Kind::HSV293SV3_1005 => MIRABOX_2_VID,
        Kind::AKP153 => AJAZZ_VID,
        Kind::AKP153E => AJAZZ_VID,
        Kind::AKP153EREV2 => AJAZZ_VID,
        Kind::AKP153R => AJAZZ_VID,
        Kind::MSDONE => MG_VID,
        Kind::GK150K => MADDOG_VID,
        Kind::RMV01 => RISEMODE_VID,
        Kind::TMICESC => TMICE_VID,
    }
}

/// USB product id that a kind reports.
pub open spec fn product_id(k: Kind) -> u16 {
    match k {
        Kind::HSV293S => HSV293S_PID,
        Kind::HSV293SV3 => HSV293SV3_PID,
        Kind::HSV293SV3_1005 => HSV293SV3_1005_PID,
        Kind::AKP153 => AKP153_PID,
        Kind::AKP153E => AKP153E_PID,
        Kind::AKP153EREV2 => AKP153E_REV2_PID,
        Kind::AKP153R => AKP153R_PID,
        Kind::MSDONE => MSD_ONE_PID,
        Kind::GK150K => GK150K_PID,
        Kind::RMV01 => RMV01_PID,
        Kind::TMICESC => TMICESC_PID,
    }
}

/// Whether a kind is the one that reports the given vendor and product ids.
pub open spec fn identifies(k: Kind, vid: u16, pid: u16) -> bool {
    vendor_id(k) == vid && product_id(k) == pid
}

/// Protocol generation of a kind's firmware.
pub open spec fn generation(k: Kind) -> nat {
    match k {
        Kind::HSV293SV3 | Kind::HSV293SV3_1005 | Kind::AKP153EREV2 => 2,
        _ => 1,
    }
}

/// Whether one physical press yields both a down and an up transition.
pub open spec fn dual_transitions(k: Kind) -> bool {
    match k {
        Kind::HSV293SV3 | Kind::HSV293SV3_1005 | Kind::AKP153EREV2 => true,
        _ => false,
    }
}

/// Name shown to the user for a kind.
pub open spec fn name_of(k: Kind) -> Seq<char> {
    match k {
        Kind::HSV293S => "Mirabox HSV293S"@,
        Kind::HSV293SV3 => "Mirabox HSV293SV3"@,
        Kind::HSV293SV3_1005 => "Mirabox HSV293SV3"@,
        Kind::AKP153 => "Ajazz AKP153"@,
        Kind::AKP153E => "Ajazz AKP153E"@,
        Kind::AKP153EREV2 => "Ajazz AKP153E (rev. 2)"@,
        Kind::AKP153R => "Ajazz AKP153R"@,
        Kind::MSDONE => "Mars Gaming MSD-ONE"@,
        Kind::GK150K => "Mad Dog GK150K"@,
        Kind::RMV01 => "Risemode Vision 01"@,
        Kind::TMICESC => "TMICE Stream Controller"@,
    }
}

/// Suffix that makes the shared serial of a first-generation unit unique;
/// second-generation kinds have none.
pub open spec fn suffix_of(k: Kind) -> Option<Seq<char>> {
    match k {
        Kind::AKP153 => Some("153"@),
        Kind::AKP153E => Some("153E"@),
        Kind::AKP153R => Some("153R"@),
        Kind::HSV293S => Some("293S"@),
        Kind::MSDONE => Some("MSDONE"@),
        Kind::GK150K => Some("GK150K"@),
        Kind::RMV01 => Some("RMV01"@),
        Kind::TMICESC => Some("TMICESC"@),
        Kind::HSV293SV3 | Kind::HSV293SV3_1005 | Kind::AKP153EREV2 => None,
    }
}

/// No two kinds share a vendor and product id, so a pair names at most one kind.
pub proof fn lemma_identity_is_unique(a: Kind, b: Kind)
    ensures
        (vendor_id(a) == vendor_id(b) && product_id(a) == product_id(b)) ==> a == b,
{
}

/// A suffix exists for exactly the first-generation kinds.
pub proof fn lemma_suffix_exactly_for_first_generation(k: Kind)
    ensures
        suffix_of(k) is Some <==> generation(k) == 1,
{
}

impl Kind {
    /// Resolves a vendor and product id pair to the kind that reports it.
    pub fn from_vid_pid(vid: u16, pid: u16) -> (r: Option<Self>)
        ensures
            forall|k: Kind| #[trigger] identifies(k, vid, pid) <==> r == Some(k),
    {
        let r = if vid == AJAZZ_VID {
            if pid == AKP153_PID {
                Some(Kind::AKP153)
            } else if pid == AKP153E_PID {
                Some(Kind::AKP153E)
            } else if pid == AKP153E_REV2_PID {
                Some(Kind::AKP153EREV2)
            } else if pid == AKP153R_PID {
                Some(Kind::AKP153R)
            } else {
                None
            }
        } else if vid == MIRABOX_VID {
            if pid == HSV293S_PID {
                Some(Kind::HSV293S)
            } else {
                None
            }
        } else if vid == MIRABOX_2_VID {
            if pid == HSV293SV3_PID {
                Some(Kind::HSV293SV3)
            } else if pid == HSV293SV3_1005_PID {
                Some(Kind::HSV293SV3_1005)
            } else {
                None
            }
        } else if vid == MG_VID {
            if pid == MSD_ONE_PID {
                Some(Kind::MSDONE)
            } else {
                None
            }
        } else if vid == MADDOG_VID {
            if pid == GK150K_PID {
                Some(Kind::GK150K)
            } else {
                None
            }
        } else if vid == RISEMODE_VID {
            if pid == RMV01_PID {
                Some(Kind::RMV01)
            } else {
                None
            }
        } else if vid == TMICE_VID {
            if pid == TMICESC_PID {
                Some(Kind::TMICESC)
            } else {
                None
            }
        } else {
            None
        };
        proof {
            assert forall|k: Kind| #[trigger] identifies(k, vid, pid) <==> r == Some(k) by {
                lemma_identity_is_unique(k, r.unwrap());
            }
        }
        r
    }

    /// Whether the device emits a transition for both press and release.
    pub fn supports_both_states(&self) -> (r: bool)
        ensures
            r == dual_transitions(*self),
    {
        match self {
            Kind::HSV293SV3 => true,
            Kind::HSV293SV3_1005 => true,
            Kind::AKP153EREV2 => true,
            _ => false,
        }
    }

    /// Protocol generation of the device's firmware.
    pub fn protocol_version(&self) -> (r: usize)
        ensures
            r == generation(*self),
    {
        match self {
            Kind::HSV293SV3 => 2,
            Kind::HSV293SV3_1005 => 2,
            Kind::AKP153EREV2 => 2,
            _ => 1,
        }
    }

    /// Name shown to the user; the names reported by the USB stack are not relied on.
    pub fn human_name(&self) -> (r: String)
        ensures
            r@ == name_of(*self),
    {
        let s: &str = match self {
            Kind::HSV293S => "Mirabox HSV293S",
            Kind::HSV293SV3 => "Mirabox HSV293SV3",
            Kind::HSV293SV3_1005 => "Mirabox HSV293SV3",
            Kind::AKP153 => "Ajazz AKP153",
            Kind::AKP153E => "Ajazz AKP153E",
            Kind::AKP153EREV2 => "Ajazz AKP153E (rev. 2)",
            Kind::AKP153R => "Ajazz AKP153R",
            Kind::MSDONE => "Mars Gaming MSD-ONE",
            Kind::GK150K => "Mad Dog GK150K",
            Kind::RMV01 => "Risemode Vision 01",
            Kind::TMICESC => "TMICE Stream Controller",
        };
        s.to_owned()
    }

    /// Suffix appended to the shared serial of a first-generation device, so
    /// that two units of different models can be connected at once.
    pub fn id_suffix(&self) -> (r: String)
        requires
            generation(*self) == 1,
        ensures
            suffix_of(*self) == Some(r@),
    {
        let s: &str = match self {
            Kind::AKP153 => "153",
            Kind::AKP153E => "153E",
            Kind::AKP153R => "153R",
            Kind::HSV293S => "293S",
            Kind::MSDONE => "MSDONE",
            Kind::GK150K => "GK150K",
            Kind::RMV01 => "RMV01",
            Kind::TMICESC => "TMICESC",
            Kind::HSV293SV3 | Kind::HSV293SV3_1005 | Kind::AKP153EREV2 => unreached(),
        };
        s.to_owned()
    }
}

/// How an image is encoded.
#[derive(Debug, Clone, Copy, PartialEq, Eq, Structural)]
pub enum ImageMode {
    NoImage,
    BMP,
    JPEG,
}

/// Clockwise rotation applied to an image.
#[derive(Debug, Clone, Copy, PartialEq, Eq, Structural)]
pub enum ImageRotation {
    Rot0,
    Rot90,
    Rot180,
    Rot270,
}

/// Axes along which an image is flipped.
#[derive(Debug, Clone, Copy, PartialEq, Eq, Structural)]
pub enum ImageMirroring {
    NoMirror,
    X,
    Y,
    Both,
}

/// Encoding of the image shown on one key.
#[derive(Debug, Clone, Copy)]
pub struct ImageFormat {
    pub mode: ImageMode,
    pub size: (usize, usize),
    pub rotation: ImageRotation,
    pub mirror: ImageMirroring,
}

/// Keys that take a smaller image on second-generation devices.
pub open spec fn is_narrow_key(key: u8) -> bool {
    key == 5 || key == 11 || key == 17
}

/// Side of the square image on a key: 85 on first-generation devices; on
/// second-generation devices 82 on the narrow keys and 95 on the others.
pub open spec fn image_side(k: Kind, key: u8) -> usize {
    if generation(k) == 1 {
        85
    } else if is_narrow_key(key) {
        82
    } else {
        95
    }
}

/// Image format for a key: JPEG, rotated a quarter turn, flipped on both axes.
pub open spec fn image_format_of(k: Kind, key: u8) -> ImageFormat {
    ImageFormat {
        mode: ImageMode::JPEG,
        size: (image_side(k, key), image_side(k, key)),
        rotation: ImageRotation::Rot90,
        mirror: ImageMirroring::Both,
    }
}

/// Returns the image format for a key of a device kind.
pub fn get_image_format_for_key(kind: &Kind, key: u8) -> (r: ImageFormat)
    ensures
        r == image_format_of(*kind, key),
{
    let side: usize = if kind.protocol_version() == 1 {
        85
    } else if key == 5 || key == 11 || key == 17 {
        82
    } else {
        95
    };
    ImageFormat {
        mode: ImageMode::JPEG,
        size: (side, side),
        rotation: ImageRotation::Rot90,
        mirror: ImageMirroring::Both,
    }
}

} // verus!
