//! The per-device decisions of an enumeration pass: whether a device node
//! is reported, which statistics module describes it, and the values of its
//! report row.

use vstd::prelude::*;
use crate::device::{DkMinfo, ctype_label, gib_text, controller_label, media_gib_text};
use crate::instance_map::{address_of, resolve, physical_address, resolve_module};
use crate::stats::{StatRecord, StatError, stat_result, stat_value};

verus! {

/// What was learned of a device node before its statistics are read.
pub struct DeviceProbe {
    /// Whether the device node could be opened.
    pub opened: bool,
    /// The removability flag reported by the device (non-zero: removable).
    pub removable: i64,
    /// The target of the node's symbolic link, when it could be read.
    pub link_target: Option<String>,
}

/// A device goes on to have its link and the instance map read only when it
/// was opened and holds fixed media.
pub open spec fn inspected(opened: bool, removable: i64) -> bool {
    opened && removable == 0
}

/// Whether a device passes inspection: it was opened and its removability
/// flag is zero. Devices that fail are skipped before any further reading.
pub fn passes_inspection(opened: bool, removable: i64) -> (r: bool)
    ensures
        r == inspected(opened, removable),
{
    opened && removable == 0
}

/// The statistics module of a probed device, or none when the device is
/// skipped: it could not be opened, is removable, has no readable link,
/// no address, or no line of the instance map names it.
pub open spec fn probe_module(
    opened: bool,
    removable: i64,
    link_target: Option<Seq<char>>,
    map_text: Seq<char>,
) -> Option<Seq<char>> {
    if !inspected(opened, removable) {
        None
    } else {
        match link_target {
            None => None,
            Some(t) => match address_of(t) {
                None => None,
                Some(a) => resolve(map_text, a.0, a.1),
            },
        }
    }
}

/// The view of an optional string.
pub open spec fn opt_view(o: Option<String>) -> Option<Seq<char>> {
    match o {
        Some(s) => Some(s@),
        None => None,
    }
}

/// Decides whether a probed device is reported, and under which statistics
/// module.
pub fn device_module(probe: &DeviceProbe, map_text: &str) -> (r: Option<String>)
    ensures
        opt_view(r) == probe_module(probe.opened, probe.removable, opt_view(probe.link_target), map_text@),
        !probe.opened ==> r is None,
        probe.removable != 0 ==> r is None,
{
    if !passes_inspection(probe.opened, probe.removable) {
        return None;
    }
    match &probe.link_target {
        None => None,
        Some(t) => match physical_address(t.as_str()) {
            None => None,
            Some(a) => resolve_module(map_text, &a),
        },
    }
}

/// One row of the disk report.
pub struct DiskReport {
    pub ctype: String,
    pub disk: String,
    pub vendor: String,
    pub product: String,
    pub serial: String,
    pub size_gib: String,
}

/// Assembles the report row of a disk from its controller-type code, its
/// media information and the statistics records of its module. The serial
/// number, product and vendor are read in that order; the first that
/// cannot be read gives the error.
pub fn disk_report(disk: &str, ctype_code: u16, media: &DkMinfo, records: &Vec<StatRecord>) -> (r:
    Result<DiskReport, StatError>)
    ensures
        ({
            let serial = stat_result(records@, "Serial No"@);
            let product = stat_result(records@, "Product"@);
            let vendor = stat_result(records@, "Vendor"@);
            match r {
                Ok(rep) => serial == Ok::<Seq<char>, StatError>(rep.serial@) && product == Ok::<
                    Seq<char>,
                    StatError,
                >(rep.product@) && vendor == Ok::<Seq<char>, StatError>(rep.vendor@) && rep.ctype@
                    == ctype_label(ctype_code) && rep.disk@ == disk@ && rep.size_gib@ == gib_text(
                    media.dki_lbsize as nat,
                    media.dki_capacity as nat,
                ),
                Err(e) => match serial {
                    Err(e1) => e == e1,
                    Ok(_) => match product {
                        Err(e2) => e == e2,
                        Ok(_) => vendor == Err::<Seq<char>, StatError>(e),
                    },
                },
            }
        }),
{
    let serial = match stat_value(records, "Serial No") {
        Ok(s) => s,
        Err(e) => return Err(e),
    };
    let product = match stat_value(records, "Product") {
        Ok(s) => s,
        Err(e) => return Err(e),
    };
    let vendor = match stat_value(records, "Vendor") {
        Ok(s) => s,
        Err(e) => return Err(e),
    };
    let ctype = controller_label(ctype_code);
    let size_gib = media_gib_text(media);
    let disk = disk.to_owned();
    Ok(DiskReport { ctype, disk, vendor, product, serial, size_gib })
}

} // verus!
