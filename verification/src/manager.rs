//! What System Settings is shown: the rows of the device list and the header line. The
//! D-Bus object that serves them belongs to the program.

use vstd::prelude::*;
use crate::link::{key_fingerprint, spki_fingerprint};
use crate::primitives::p256_spki_der;
use crate::store::{Device, DeviceView};
use crate::text::{decimal, push_decimal};

verus! {

/// One row in the System Settings device list.
pub struct DeviceEntry {
    pub id: String,
    pub name: String,
    pub model: String,
    pub owner: String,
    pub security_level: String,
    pub verified_boot: String,
    pub paired_at: u64,
    /// Shown beside the row so the user can match it against the same value on the phone.
    pub fingerprint: String,
}

/// A row, with texts as sequences.
pub struct EntryView {
    pub id: Seq<char>,
    pub name: Seq<char>,
    pub model: Seq<char>,
    pub owner: Seq<char>,
    pub security_level: Seq<char>,
    pub verified_boot: Seq<char>,
    pub paired_at: u64,
    pub fingerprint: Seq<char>,
}

impl View for DeviceEntry {
    type V = EntryView;

    open spec fn view(&self) -> EntryView {
        EntryView {
            id: self.id@,
            name: self.name@,
            model: self.model@,
            owner: self.owner@,
            security_level: self.security_level@,
            verified_boot: self.verified_boot@,
            paired_at: self.paired_at,
            fingerprint: self.fingerprint@,
        }
    }
}

/// The row of a device: its record, and the fingerprint of its key, or `unreadable key`
/// when the key does not load.
pub open spec fn entry_spec(d: DeviceView) -> EntryView {
    EntryView {
        id: d.id,
        name: d.name,
        model: d.model,
        owner: d.owner,
        security_level: d.security_level,
        verified_boot: d.verified_boot,
        paired_at: d.paired_at,
        fingerprint: match p256_spki_der(d.public_key_pem) {
            Some(spki) => spki_fingerprint(spki),
            None => "unreadable key"@,
        },
    }
}

/// The row of a device.
pub fn device_entry(device: Device) -> (r: DeviceEntry)
    ensures
        r@ == entry_spec(device@),
{
    let fingerprint = match key_fingerprint(device.public_key_pem.as_str()) {
        Ok(fingerprint) => fingerprint,
        Err(_) => "unreadable key".to_owned(),
    };
    DeviceEntry {
        id: device.id,
        name: device.name,
        model: device.model,
        owner: device.owner,
        security_level: device.security_level,
        verified_boot: device.verified_boot,
        paired_at: device.paired_at,
        fingerprint,
    }
}

/// The rows of a device listing, in the listing's order (newest last).
pub fn device_entries(devices: Vec<Device>) -> (r: Vec<DeviceEntry>)
    ensures
        r@.len() == devices@.len(),
        forall|i: int| 0 <= i < r@.len() ==> #[trigger] r@[i]@ == entry_spec(devices@[i]@),
{
    let ghost given = devices@;
    let mut rest = devices;
    let mut entries: Vec<DeviceEntry> = Vec::new();
    let mut taken: usize = 0;
    assert(given.skip(0) =~= given);
    let total = rest.len();
    while rest.len() > 0
        invariant
            total == given.len(),
            taken + rest@.len() == given.len(),
            entries@.len() == taken,
            rest@ == given.skip(taken as int),
            forall|i: int| 0 <= i < taken ==> #[trigger] entries@[i]@ == entry_spec(given[i]@),
        decreases rest@.len(),
    {
        let device = rest.remove(0);
        assert(device == given[taken as int]);
        assert(given.skip(taken as int).remove(0) =~= given.skip(taken + 1));
        entries.push(device_entry(device));
        taken = taken + 1;
    }
    entries
}

/// The header line: the version, and how many devices are paired.
pub fn version_text(version: &str, paired: usize) -> (r: String)
    ensures
        r@ == version@ + " ("@ + decimal(paired as nat) + " paired)"@,
{
    let mut text = version.to_owned();
    text.append(" (");
    push_decimal(&mut text, paired as u64);
    text.append(" paired)");
    text
}

} // verus!
