//! Which block devices are USB drives, read from `lsblk` or from `/sys/block`,
//! and whether a drive carries Ventoy.
use vstd::prelude::*;

use crate::json::{array_of, field, field_or_none, json_parse, parse_json, str_of, u64_of, Json};
use crate::text::{
    ascii_lower, contains, is_ascii, lemma_contains_middle, lowercase, opt_view, parse_u64, parse_u64_exec, starts_with, str_contains, str_eq,
    str_starts_with, to_lower, trim_ws, trim_ws_exec,
};

verus! {

/// A USB drive as the dashboard lists it.
pub struct UsbDrive {
    pub name: String,
    pub model: String,
    pub size_bytes: u64,
    pub path: String,
}

pub struct DriveModel {
    pub name: Seq<char>,
    pub model: Seq<char>,
    pub size_bytes: u64,
    pub path: Seq<char>,
}

impl View for UsbDrive {
    type V = DriveModel;

    open spec fn view(&self) -> DriveModel {
        DriveModel {
            name: self.name@,
            model: self.model@,
            size_bytes: self.size_bytes,
            path: self.path@,
        }
    }
}

pub open spec fn drive_models(v: Seq<UsbDrive>) -> Seq<DriveModel> {
    v.map_values(|d: UsbDrive| d@)
}

/// The device file of a block device.
pub open spec fn dev_path(name: Seq<char>) -> Seq<char> {
    "/dev/"@ + name
}

pub open spec fn text_or_empty(v: Option<Seq<char>>) -> Seq<char> {
    match v {
        Some(s) => s,
        None => Seq::empty(),
    }
}

/// The size member of `lsblk`: a number, or text that reads as one; 0 otherwise.
pub open spec fn lsblk_size(v: Option<Json>) -> u64 {
    match u64_of(v) {
        Some(n) => n,
        None => match str_of(v) {
            Some(s) => match parse_u64(s) {
                Some(n) => n,
                None => 0,
            },
            None => 0,
        },
    }
}

/// The drive of one `lsblk` entry: a disk on the USB transport.
pub open spec fn lsblk_drive(dev: Json) -> Option<DriveModel> {
    if text_or_empty(str_of(field(dev, "tran"@))) != "usb"@ || text_or_empty(
        str_of(field(dev, "type"@)),
    ) != "disk"@ {
        None
    } else {
        let name = text_or_empty(str_of(field(dev, "name"@)));
        Some(
            DriveModel {
                name,
                model: trim_ws(
                    match str_of(field(dev, "model"@)) {
                        Some(m) => m,
                        None => "USB Device"@,
                    },
                ),
                size_bytes: lsblk_size(field(dev, "size"@)),
                path: dev_path(name),
            },
        )
    }
}

pub open spec fn lsblk_drives_of(items: Seq<Json>) -> Seq<DriveModel>
    decreases items.len(),
{
    if items.len() == 0 {
        seq![]
    } else {
        let rest = lsblk_drives_of(items.drop_last());
        match lsblk_drive(items.last()) {
            Some(d) => rest.push(d),
            None => rest,
        }
    }
}

/// The USB drives in the JSON of `lsblk -J -b -o NAME,SIZE,MODEL,TRAN,TYPE`;
/// nothing where the output has no `blockdevices` array.
pub open spec fn lsblk_usb_of(doc: Option<Json>) -> Option<Seq<DriveModel>> {
    match array_of(field_or_none(doc, "blockdevices"@)) {
        Some(items) => Some(lsblk_drives_of(items)),
        None => None,
    }
}

fn member_text_or_empty(d: &Json, key: &str) -> (r: String)
    ensures
        r@ == text_or_empty(str_of(field(*d, key@))),
{
    match d.get(key) {
        Some(x) => match x.as_str() {
            Some(s) => s.clone(),
            None => String::new(),
        },
        None => String::new(),
    }
}

fn lsblk_drive_exec(dev: &Json) -> (r: Option<UsbDrive>)
    ensures
        match r {
            Some(x) => lsblk_drive(*dev) == Some(x@),
            None => lsblk_drive(*dev) is None,
        },
{
    let tran = member_text_or_empty(dev, "tran");
    let kind = member_text_or_empty(dev, "type");
    if !str_eq(tran.as_str(), "usb") || !str_eq(kind.as_str(), "disk") {
        return None;
    }
    let name = member_text_or_empty(dev, "name");
    let raw_model = match dev.get("model") {
        Some(x) => match x.as_str() {
            Some(m) => m.clone(),
            None => String::from_str("USB Device"),
        },
        None => String::from_str("USB Device"),
    };
    let model = trim_ws_exec(raw_model.as_str());
    let size_bytes = match dev.get("size") {
        Some(x) => match x.as_u64() {
            Some(n) => n,
            None => match x.as_str() {
                Some(s) => match parse_u64_exec(s.as_str()) {
                    Some(n) => n,
                    None => 0,
                },
                None => 0,
            },
        },
        None => 0,
    };
    let mut path = String::from_str("/dev/");
    path.append(name.as_str());
    Some(UsbDrive { name, model, size_bytes, path })
}

/// The USB drives that `lsblk` reports.
pub fn usb_drives_from_lsblk(json: &str) -> (r: Option<Vec<UsbDrive>>)
    ensures
        match r {
            Some(v) => lsblk_usb_of(json_parse(json@)) == Some(drive_models(v@)),
            None => lsblk_usb_of(json_parse(json@)) is None,
        },
{
    let doc = parse_json(json);
    let items = match &doc {
        Some(v) => match v.get("blockdevices") {
            Some(x) => match x.as_array() {
                Some(a) => a,
                None => return None,
            },
            None => return None,
        },
        None => return None,
    };
    let mut r: Vec<UsbDrive> = Vec::new();
    let mut i: usize = 0;
    while i < items.len()
        invariant
            i <= items.len(),
            drive_models(r@) == lsblk_drives_of(items@.take(i as int)),
        decreases items.len() - i,
    {
        assert(items@.take(i + 1).drop_last() =~= items@.take(i as int));
        assert(items@.take(i + 1).last() == items@[i as int]);
        match lsblk_drive_exec(&items[i]) {
            Some(d) => {
                assert(drive_models(r@.push(d)) =~= drive_models(r@).push(d@));
                r.push(d);
            },
            None => {},
        }
        i = i + 1;
    }
    assert(items@.take(items.len() as int) =~= items@);
    Some(r)
}

/// What `/sys/block/<name>` says of a device (`None`: the file could not be read).
pub struct SysfsDevice {
    pub name: String,
    pub removable: Option<String>,
    pub uevent: Option<String>,
    pub size: Option<String>,
    pub model: Option<String>,
}

/// A device of `/sys/block` is listed when its name starts with `sd` or `vd`,
/// it is removable (`1`), and its `uevent` mentions USB or could not be read
/// (or is empty). Its size is its block count (times 512, wrapping as an
/// unchecked `u64` product does in a release build), its model `USB Device`
/// where the file cannot be read.
pub open spec fn sysfs_drive(d: SysfsDevice) -> Option<DriveModel> {
    let name = d.name@;
    let uevent = lowercase(text_or_empty(opt_view(d.uevent)));
    if !starts_with(name, "sd"@) && !starts_with(name, "vd"@) {
        None
    } else if !(d.removable matches Some(r) && trim_ws(r@) == "1"@) {
        None
    } else if !contains(uevent, "usb"@) && uevent.len() > 0 {
        None
    } else {
        Some(
            DriveModel {
                name,
                model: trim_ws(
                    match d.model {
                        Some(m) => m@,
                        None => "USB Device"@,
                    },
                ),
                size_bytes: match d.size {
                    Some(s) => match parse_u64(trim_ws(s@)) {
                        Some(blocks) => ((blocks as nat * 512) % 0x1_0000_0000_0000_0000) as u64,
                        None => 0,
                    },
                    None => 0,
                },
                path: dev_path(name),
            },
        )
    }
}

/// The drive that a device of `/sys/block` is, if it is a USB drive.
pub fn sysfs_usb_drive(d: &SysfsDevice) -> (r: Option<UsbDrive>)
    ensures
        match r {
            Some(x) => sysfs_drive(*d) == Some(x@),
            None => sysfs_drive(*d) is None,
        },
{
    let name = d.name.as_str();
    if !str_starts_with(name, "sd") && !str_starts_with(name, "vd") {
        return None;
    }
    let removable = match &d.removable {
        Some(r) => str_eq(trim_ws_exec(r.as_str()).as_str(), "1"),
        None => false,
    };
    if !removable {
        return None;
    }
    let uevent = match &d.uevent {
        Some(u) => to_lower(u.as_str()),
        None => to_lower(""),
    };
    proof {
        reveal_strlit("");
        assert(""@ =~= Seq::<char>::empty());
    }
    if !str_contains(uevent.as_str(), "usb") && !uevent.as_str().is_empty() {
        return None;
    }
    let size_bytes = match &d.size {
        Some(s) => match parse_u64_exec(trim_ws_exec(s.as_str()).as_str()) {
            Some(blocks) => {
                let r = blocks.wrapping_mul(512);
                r
            },
            None => 0,
        },
        None => 0,
    };
    let model = match &d.model {
        Some(m) => trim_ws_exec(m.as_str()),
        None => trim_ws_exec("USB Device"),
    };
    let mut path = String::from_str("/dev/");
    path.append(name);
    Some(UsbDrive { name: d.name.clone(), model, size_bytes, path })
}

/// Output of `lsblk` that names Ventoy (in any letter case; surrounding white
/// space does not matter to a word without any).
pub open spec fn names_ventoy(output: Seq<char>) -> bool {
    contains(lowercase(output), "ventoy"@)
}

/// Whether a listing of labels names Ventoy; for an ASCII listing, exactly
/// when the word `ventoy` appears in it in some letter case.
pub fn mentions_ventoy(output: &str) -> (r: bool)
    ensures
        r == names_ventoy(output@),
        is_ascii(output@) ==> (r <==> contains(ascii_lower(output@), "ventoy"@)),
{
    let l = to_lower(output);
    str_contains(l.as_str(), "ventoy")
}

/// The word Ventoy written in any letter case inside an ASCII listing (such
/// as `Ventoy`, `VENTOY` or `ventoy`, with anything around it) shows up as
/// `ventoy` once the listing is lowered.
pub proof fn lemma_ventoy_in_any_case(before: Seq<char>, word: Seq<char>, after: Seq<char>)
    requires
        is_ascii(before),
        is_ascii(after),
        is_ascii(word),
        ascii_lower(word) == "ventoy"@,
    ensures
        is_ascii(before + word + after),
        contains(ascii_lower(before + word + after), "ventoy"@),
{
    let t = before + word + after;
    assert forall|i: int| 0 <= i < t.len() implies (#[trigger] t[i] as u32) < 128 by {
        if i < before.len() {
            assert(t[i] == before[i]);
        } else if i < before.len() + word.len() {
            assert(t[i] == word[i - before.len()]);
        } else {
            assert(t[i] == after[i - before.len() - word.len()]);
        }
    }
    assert(ascii_lower(t) =~= ascii_lower(before) + ascii_lower(word) + ascii_lower(after));
    lemma_contains_middle(ascii_lower(before), ascii_lower(word), ascii_lower(after));
}

/// The usual spellings of the label: `Ventoy`, `VENTOY`, `ventoy`.
pub proof fn lemma_ventoy_spellings()
    ensures
        is_ascii("Ventoy"@) && ascii_lower("Ventoy"@) == "ventoy"@,
        is_ascii("VENTOY"@) && ascii_lower("VENTOY"@) == "ventoy"@,
        is_ascii("ventoy"@) && ascii_lower("ventoy"@) == "ventoy"@,
{
    reveal_strlit("Ventoy");
    reveal_strlit("VENTOY");
    reveal_strlit("ventoy");
    assert(ascii_lower("Ventoy"@) =~= "ventoy"@);
    assert(ascii_lower("VENTOY"@) =~= "ventoy"@);
    assert(ascii_lower("ventoy"@) =~= "ventoy"@);
}

/// A partition of disk `dev`: a block device whose name extends the disk's name.
pub open spec fn partition_of(part: Seq<char>, dev: Seq<char>) -> bool {
    starts_with(part, dev) && part != dev
}

pub fn is_partition_of(part: &str, dev: &str) -> (r: bool)
    ensures
        r == partition_of(part@, dev@),
{
    str_starts_with(part, dev) && !str_eq(part, dev)
}

} // verus!
