//! Physical layout of the M3 and the mapping between hardware and OpenDeck indices.
use vstd::prelude::*;

verus! {

/// Namespace that prefixes every device identifier handed to OpenDeck.
pub const DEVICE_NAMESPACE: &'static str = "M3";
pub const ROW_COUNT: usize = 3;
pub const COL_COUNT: usize = 5;
pub const KEY_COUNT: usize = ROW_COUNT * COL_COUNT;
pub const ENCODER_COUNT: usize = 3;
/// Device type reported to OpenDeck when registering.
pub const DEVICE_TYPE: u8 = 7;

pub const VENDOR_ID: u16 = 0x5548;
pub const VSDINSIDE_MAGTRAN_M3_PID: u16 = 0x1020;
pub const ACTIONRING_MAGTRAN_M3_PID: u16 = 0x1038;
/// HID usage page and usage of the interface the device is reached through.
pub const USAGE_PAGE: u16 = 65440;
pub const USAGE_ID: u16 = 1;

/// The device row (top to bottom) that displays OpenDeck key `key`: the panel is
/// mounted upside down relative to OpenDeck's grid, so rows are flipped.
pub open spec fn spec_device_key(key: int) -> int {
    (ROW_COUNT as int - 1 - key / COL_COUNT as int) * COL_COUNT as int + key % COL_COUNT as int
}

/// Converts a hardware button input code (one-based) to the OpenDeck key index (zero-based).
pub fn hardware_button_to_opendeck(hw: u8) -> (r: Option<u8>)
    ensures
        r == (if 1 <= hw <= KEY_COUNT { Some((hw - 1) as u8) } else { None::<u8> }),
{
    if 1 <= hw && (hw as usize) <= KEY_COUNT {
        Some(hw - 1)
    } else {
        None
    }
}

/// Converts an OpenDeck key index (zero-based) to the physical key index, flipping
/// the row order. Keys past the grid would underflow the row arithmetic.
pub fn opendeck_key_to_device(key: u8) -> (r: Option<u8>)
    requires
        key < KEY_COUNT,
    ensures
        r == Some(spec_device_key(key as int) as u8),
        spec_device_key(key as int) < KEY_COUNT,
{
    let cols: u8 = 5;
    let rows: u8 = 3;
    let row = key / cols;
    let col = key % cols;
    Some((rows - 1 - row) * cols + col)
}

/// Flipping the rows twice gives back the original key, and every key of the grid
/// lands on a key of the grid: the key mapping is a bijection of the grid onto itself.
pub proof fn lemma_device_key_involution(key: int)
    requires
        0 <= key < KEY_COUNT,
    ensures
        0 <= spec_device_key(key) < KEY_COUNT,
        spec_device_key(spec_device_key(key)) == key,
{
}

/// Two distinct OpenDeck keys never land on the same device key.
pub proof fn lemma_device_key_injective(a: int, b: int)
    requires
        0 <= a < KEY_COUNT,
        0 <= b < KEY_COUNT,
        spec_device_key(a) == spec_device_key(b),
    ensures
        a == b,
{
    lemma_device_key_involution(a);
    lemma_device_key_involution(b);
}

/// The models of M3 this plugin drives.
#[derive(Debug, Clone, Copy, PartialEq, Eq, Structural)]
pub enum Kind {
    VsdInsideMagTranM3,
    ActionRingMagTranM3,
}

impl Kind {
    pub open spec fn spec_from_vid_pid(vid: u16, pid: u16) -> Option<Kind> {
        if vid == VENDOR_ID && pid == VSDINSIDE_MAGTRAN_M3_PID {
            Some(Kind::VsdInsideMagTranM3)
        } else if vid == VENDOR_ID && pid == ACTIONRING_MAGTRAN_M3_PID {
            Some(Kind::ActionRingMagTranM3)
        } else {
            None
        }
    }

    /// Recognises a supported device by its USB vendor and product id.
    pub fn from_vid_pid(vid: u16, pid: u16) -> (r: Option<Self>)
        ensures
            r == Self::spec_from_vid_pid(vid, pid),
    {
        if vid == VENDOR_ID && pid == VSDINSIDE_MAGTRAN_M3_PID {
            Some(Kind::VsdInsideMagTranM3)
        } else if vid == VENDOR_ID && pid == ACTIONRING_MAGTRAN_M3_PID {
            Some(Kind::ActionRingMagTranM3)
        } else {
            None
        }
    }

    pub open spec fn spec_human_name(self) -> Seq<char> {
        match self {
            Kind::VsdInsideMagTranM3 => "VSD Inside MagTran M3"@,
            Kind::ActionRingMagTranM3 => "ActionRing MagTran M3"@,
        }
    }

    /// The name shown to the user for this model.
    pub fn human_name(&self) -> (r: String)
        ensures
            r@ == self.spec_human_name(),
    {
        match self {
            Kind::VsdInsideMagTranM3 => String::from_str("VSD Inside MagTran M3"),
            Kind::ActionRingMagTranM3 => String::from_str("ActionRing MagTran M3"),
        }
    }
}

/// What the plugin tells OpenDeck about a device when registering it.
pub struct Registration {
    pub name: String,
    pub rows: u8,
    pub columns: u8,
    pub encoders: u8,
    pub device_type: u8,
}

/// The registration of a device of model `kind`: its name and its 3x5 grid of keys
/// with 3 encoders, as device type 7.
pub fn registration(kind: Kind) -> (r: Registration)
    ensures
        r.name@ == kind.spec_human_name(),
        r.rows == ROW_COUNT,
        r.columns == COL_COUNT,
        r.encoders == ENCODER_COUNT,
        r.device_type == DEVICE_TYPE,
{
    Registration {
        name: kind.human_name(),
        rows: ROW_COUNT as u8,
        columns: COL_COUNT as u8,
        encoders: ENCODER_COUNT as u8,
        device_type: DEVICE_TYPE,
    }
}

} // verus!
