//! Device identifiers: how a connected M3 is named towards OpenDeck, and how the
//! settings window finds the device's profile directory again.
use vstd::prelude::*;
use crate::layout::Kind;
use crate::text::{opt_view, str_eq};

verus! {

/// The identifier OpenDeck knows a device by: `M3-` and its serial number.
pub open spec fn spec_device_id(serial: Seq<char>) -> Seq<char> {
    "M3-"@ + serial
}

/// The identifier of a device, when it is a supported model and reports a serial number.
pub open spec fn spec_device_id_from_info(vid: u16, pid: u16, serial: Option<Seq<char>>) -> Option<Seq<char>> {
    if Kind::spec_from_vid_pid(vid, pid) is Some && serial is Some {
        Some(spec_device_id(serial->0))
    } else {
        None
    }
}

/// Names a device found on the bus from its vendor id, product id and serial number.
pub fn device_id_from_info(vid: u16, pid: u16, serial: Option<String>) -> (r: Option<String>)
    ensures
        opt_view(r) == spec_device_id_from_info(vid, pid, opt_view(serial)),
{
    if Kind::from_vid_pid(vid, pid).is_none() {
        return None;
    }
    match serial {
        Some(s) => Some(String::from_str("M3-").concat(s.as_str())),
        None => None,
    }
}

/// A supported device found on the bus: its identifier and its model.
pub fn discovered_from_info(vid: u16, pid: u16, serial: Option<String>) -> (r: Option<(String, Kind)>)
    ensures
        match r {
            Some((id, kind)) => spec_device_id_from_info(vid, pid, opt_view(serial)) == Some(id@)
                && Kind::spec_from_vid_pid(vid, pid) == Some(kind),
            None => spec_device_id_from_info(vid, pid, opt_view(serial)) is None,
        },
{
    let id = match device_id_from_info(vid, pid, serial) {
        Some(id) => id,
        None => return None,
    };
    match Kind::from_vid_pid(vid, pid) {
        Some(kind) => Some((id, kind)),
        None => None,
    }
}

pub open spec fn starts_with(s: Seq<char>, prefix: Seq<char>) -> bool {
    s.len() >= prefix.len() && s.subrange(0, prefix.len() as int) == prefix
}

/// The device directory among the entries of OpenDeck's profile directory: the first
/// directory whose name starts with `M3-`. Each entry is a name and whether it is a
/// directory, or `None` when its type could not be read, which ends the search empty.
pub open spec fn spec_find_device_id(entries: Seq<(Seq<char>, Option<bool>)>) -> Option<Seq<char>>
    decreases entries.len(),
{
    if entries.len() == 0 {
        None
    } else {
        let (name, is_dir) = entries[0];
        match is_dir {
            None => None,
            Some(d) => if d && starts_with(name, "M3-"@) {
                Some(name)
            } else {
                spec_find_device_id(entries.drop_first())
            },
        }
    }
}

pub open spec fn entries_view(entries: Seq<(String, Option<bool>)>) -> Seq<(Seq<char>, Option<bool>)> {
    entries.map_values(|e: (String, Option<bool>)| (e.0@, e.1))
}

/// Finds the device's profile directory among directory entries, as `spec_find_device_id` says.
pub fn find_device_id(entries: &Vec<(String, Option<bool>)>) -> (r: Option<String>)
    ensures
        opt_view(r) == spec_find_device_id(entries_view(entries@)),
{
    let mut i: usize = 0;
    proof {
        reveal_strlit("M3-");
        assert(entries_view(entries@).skip(0) =~= entries_view(entries@));
    }
    while i < entries.len()
        invariant
            i <= entries@.len(),
            spec_find_device_id(entries_view(entries@)) == spec_find_device_id(entries_view(entries@).skip(i as int)),
        decreases entries@.len() - i,
    {
        proof {
            reveal_strlit("M3-");
        }
        let ghost rest = entries_view(entries@).skip(i as int);
        assert(rest[0] == (entries@[i as int].0@, entries@[i as int].1));
        assert(rest.drop_first() =~= entries_view(entries@).skip(i + 1));
        let name = &entries[i].0;
        match entries[i].1 {
            None => return None,
            Some(is_dir) => {
                if is_dir {
                    let n = name.as_str().unicode_len();
                    if n >= 3 && str_eq(name.as_str().substring_char(0, 3), "M3-") {
                        return Some(name.clone());
                    }
                }
            },
        }
        i = i + 1;
    }
    None
}

/// The device identifier the settings window works with: the one found on disk, or
/// `M3-unknown` when none was found.
pub fn device_id_or_unknown(found: Option<String>) -> (r: String)
    ensures
        r@ == (match found {
            Some(f) => f@,
            None => "M3-unknown"@,
        }),
{
    match found {
        Some(f) => f,
        None => String::from_str("M3-unknown"),
    }
}

} // verus!
