//! Paired device records.
//!
//! Each paired phone is one JSON file in the device directory, named after its key id.
//! Only public material is stored, so integrity matters and confidentiality does not.
//! Reading and writing the files happens at the edge of the program; this module decides
//! what a record says, what its file is called, and how a listing is assembled.

use vstd::prelude::*;
use crate::json::{JsonOut, JsonValue, members_view, pretty_text, str_field, text_or, u64_field, get_u64, write_object_pretty};
use crate::text::decimal;

verus! {

pub struct Device {
    pub id: String,
    pub name: String,
    pub model: String,
    pub owner: String,
    pub security_level: String,
    pub verified_boot: String,
    pub paired_at: u64,
    pub public_key_pem: String,
}

/// What a device record holds.
#[verifier::ext_equal]
pub struct DeviceView {
    pub id: Seq<char>,
    pub name: Seq<char>,
    pub model: Seq<char>,
    pub owner: Seq<char>,
    pub security_level: Seq<char>,
    pub verified_boot: Seq<char>,
    pub paired_at: u64,
    pub public_key_pem: Seq<char>,
}

impl View for Device {
    type V = DeviceView;

    open spec fn view(&self) -> DeviceView {
        DeviceView {
            id: self.id@,
            name: self.name@,
            model: self.model@,
            owner: self.owner@,
            security_level: self.security_level@,
            verified_boot: self.verified_boot@,
            paired_at: self.paired_at,
            public_key_pem: self.public_key_pem@,
        }
    }
}

/// Why a record was not accepted.
#[derive(Debug, Clone, Copy, PartialEq, Eq, Structural)]
pub enum StoreError {
    /// The record has no id (or an empty one).
    MissingId,
}

impl StoreError {
    pub fn message(&self) -> (r: String)
        ensures
            r@ == "device record has no id"@,
    {
        match self {
            StoreError::MissingId => "device record has no id".to_owned(),
        }
    }
}

/// The text of the string member `name`, or nothing when it is absent or not a string.
pub open spec fn text_member(value: JsonValue, name: Seq<char>) -> Seq<char> {
    match str_field(value, name) {
        Some(text) => text,
        None => Seq::empty(),
    }
}

/// The device a record describes, or `None` when it has no id.
pub open spec fn device_spec(value: JsonValue) -> Option<DeviceView> {
    if text_member(value, "id"@).len() == 0 {
        None
    } else {
        Some(
            DeviceView {
                id: text_member(value, "id"@),
                name: text_member(value, "name"@),
                model: text_member(value, "model"@),
                owner: text_member(value, "owner"@),
                security_level: text_member(value, "securityLevel"@),
                verified_boot: text_member(value, "verifiedBoot"@),
                paired_at: match u64_field(value, "pairedAt"@) {
                    Some(n) => n,
                    None => 0,
                },
                public_key_pem: text_member(value, "publicKeyPem"@),
            },
        )
    }
}

/// The members of a device's record, as key and JSON text, in the order they are written
/// (sorted by key).
pub open spec fn record_members(d: DeviceView) -> Seq<(Seq<char>, Seq<char>)> {
    seq![
        ("id"@, crate::primitives::json_string(d.id)),
        ("model"@, crate::primitives::json_string(d.model)),
        ("name"@, crate::primitives::json_string(d.name)),
        ("owner"@, crate::primitives::json_string(d.owner)),
        ("pairedAt"@, decimal(d.paired_at as nat)),
        ("publicKeyPem"@, crate::primitives::json_string(d.public_key_pem)),
        ("securityLevel"@, crate::primitives::json_string(d.security_level)),
        ("verifiedBoot"@, crate::primitives::json_string(d.verified_boot)),
    ]
}

/// Whether the decoded document `value` carries each of the device's fields under the key
/// its record writes it with.
pub open spec fn carries_record(value: JsonValue, d: DeviceView) -> bool {
    &&& str_field(value, "id"@) == Some(d.id)
    &&& str_field(value, "name"@) == Some(d.name)
    &&& str_field(value, "model"@) == Some(d.model)
    &&& str_field(value, "owner"@) == Some(d.owner)
    &&& str_field(value, "securityLevel"@) == Some(d.security_level)
    &&& str_field(value, "verifiedBoot"@) == Some(d.verified_boot)
    &&& u64_field(value, "pairedAt"@) == Some(d.paired_at)
    &&& str_field(value, "publicKeyPem"@) == Some(d.public_key_pem)
}

/// A record reads back as the device it was written for: a device with an id, saved and
/// decoded again, is the same device.
pub proof fn lemma_record_round_trip(d: DeviceView, value: JsonValue)
    requires
        d.id.len() > 0,
        carries_record(value, d),
    ensures
        device_spec(value) == Some(d),
{
    assert(device_spec(value)->0 =~= d);
}

/// The devices of the records that describe one, in the order of the records.
pub open spec fn parsed_devices(records: Seq<JsonValue>) -> Seq<DeviceView>
    decreases records.len(),
{
    if records.len() == 0 {
        Seq::empty()
    } else {
        match device_spec(records.last()) {
            Some(d) => parsed_devices(records.drop_last()).push(d),
            None => parsed_devices(records.drop_last()),
        }
    }
}

/// Where a device pairing at `key` goes in a listing already in order: after every device
/// that paired at or before it.
pub open spec fn insert_pos(sorted: Seq<DeviceView>, key: u64) -> int
    decreases sorted.len(),
{
    if sorted.len() == 0 {
        0
    } else if sorted.last().paired_at > key {
        insert_pos(sorted.drop_last(), key)
    } else {
        sorted.len() as int
    }
}

/// `devices` ordered by pairing time; devices that paired at the same time keep their order.
pub open spec fn by_pairing_time(devices: Seq<DeviceView>) -> Seq<DeviceView>
    decreases devices.len(),
{
    if devices.len() == 0 {
        Seq::empty()
    } else {
        let rest = by_pairing_time(devices.drop_last());
        rest.insert(insert_pos(rest, devices.last().paired_at), devices.last())
    }
}

/// Whether a listing is in order of pairing time.
pub open spec fn in_pairing_order(devices: Seq<DeviceView>) -> bool {
    forall|i: int, j: int| 0 <= i <= j < devices.len() ==> devices[i].paired_at <= devices[j].paired_at
}

/// The views of a list of devices.
pub open spec fn devices_view(devices: Seq<Device>) -> Seq<DeviceView> {
    devices.map_values(|d: Device| d@)
}

impl Device {
    /// Reads a device out of its record. Members that are missing or of another type read
    /// as empty (and `pairedAt` as zero); only a missing or empty id is refused.
    pub fn from_json(value: &JsonValue) -> (r: Result<Device, StoreError>)
        ensures
            match device_spec(*value) {
                Some(d) => r matches Ok(device) && device@ == d,
                None => r matches Err(StoreError::MissingId),
            },
    {
        proof {
            reveal_strlit("");
        }
        let id = text_or(value, "id", "");
        if id.as_str().is_empty() {
            return Err(StoreError::MissingId);
        }
        let paired_at = match get_u64(value, "pairedAt") {
            Some(n) => n,
            None => 0,
        };
        let device = Device {
            id,
            name: text_or(value, "name", ""),
            model: text_or(value, "model", ""),
            owner: text_or(value, "owner", ""),
            security_level: text_or(value, "securityLevel", ""),
            verified_boot: text_or(value, "verifiedBoot", ""),
            paired_at,
            public_key_pem: text_or(value, "publicKeyPem", ""),
        };
        assert(device@ =~= device_spec(*value)->0);
        Ok(device)
    }

    /// The members of the device's record, sorted by key.
    pub fn to_json(&self) -> (r: Vec<(&'static str, JsonOut)>)
        ensures
            members_view(r@) == record_members(self@),
    {
        let fields: Vec<(&'static str, JsonOut)> = vec![
            ("id", JsonOut::Text(self.id.clone())),
            ("model", JsonOut::Text(self.model.clone())),
            ("name", JsonOut::Text(self.name.clone())),
            ("owner", JsonOut::Text(self.owner.clone())),
            ("pairedAt", JsonOut::UInt(self.paired_at)),
            ("publicKeyPem", JsonOut::Text(self.public_key_pem.clone())),
            ("securityLevel", JsonOut::Text(self.security_level.clone())),
            ("verifiedBoot", JsonOut::Text(self.verified_boot.clone())),
        ];
        assert(members_view(fields@) =~= record_members(self@));
        fields
    }

    /// The record's file contents: the members in serde_json's pretty form.
    pub fn record_text(&self) -> (r: String)
        ensures
            r@ == pretty_text(record_members(self@)),
    {
        write_object_pretty(&self.to_json())
    }
}

/// `dir` joined with the relative file name `name`, as `Path::join` does on Unix: no
/// separator after an empty directory or one that already ends in `/`.
pub open spec fn join_path(dir: Seq<char>, name: Seq<char>) -> Seq<char> {
    if dir.len() == 0 {
        name
    } else if dir.last() == '/' {
        dir + name
    } else {
        dir + "/"@ + name
    }
}

/// An ASCII hexadecimal digit, either case.
pub open spec fn is_hex_char(c: char) -> bool {
    ('0' <= c && c <= '9') || ('a' <= c && c <= 'f') || ('A' <= c && c <= 'F')
}

/// Whether `id` is plain hex: at least one character, every one a hexadecimal digit.
pub open spec fn is_plain_hex(id: Seq<char>) -> bool {
    id.len() > 0 && forall|i: int| 0 <= i < id.len() ==> is_hex_char(#[trigger] id[i])
}

/// The file of the record for `id`, `<dir>/<id>.json`; none for an id that is not plain hex,
/// so a crafted id cannot name a file outside the directory.
pub open spec fn record_path(dir: Seq<char>, id: Seq<char>) -> Option<Seq<char>> {
    if is_plain_hex(id) {
        Some(join_path(dir, id + ".json"@))
    } else {
        None
    }
}

/// A record's file name is one plain name inside the device directory: it holds no `/`,
/// and it is neither `.` nor `..`.
pub proof fn lemma_record_stays_in_directory(dir: Seq<char>, id: Seq<char>)
    requires
        is_plain_hex(id),
    ensures
        record_path(dir, id) == Some(join_path(dir, id + ".json"@)),
        forall|i: int| 0 <= i < (id + ".json"@).len() ==> #[trigger] (id + ".json"@)[i] != '/',
        (id + ".json"@).len() >= 5,
{
    reveal_strlit(".json");
    let name = id + ".json"@;
    assert forall|i: int| 0 <= i < name.len() implies #[trigger] name[i] != '/' by {
        if i < id.len() {
            assert(is_hex_char(id[i]));
        }
    }
}

/// Whether every character of `s` is a hexadecimal digit and there is at least one.
fn plain_hex(s: &str) -> (r: bool)
    ensures
        r == is_plain_hex(s@),
{
    let mut all = true;
    for c in it: s.chars()
        invariant
            it.seq() == s@,
            all == (forall|i: int| 0 <= i < it.index() ==> is_hex_char(#[trigger] s@[i])),
    {
        if !(('0' <= c && c <= '9') || ('a' <= c && c <= 'f') || ('A' <= c && c <= 'F')) {
            all = false;
        }
    }
    all && !s.is_empty()
}

/// The device directory.
pub struct Store {
    directory: String,
}

impl View for Store {
    type V = Seq<char>;

    closed spec fn view(&self) -> Seq<char> {
        self.directory@
    }
}

/// The last character of `s`, if any.
fn last_char(s: &str) -> (r: Option<char>)
    ensures
        s@.len() == 0 ==> r is None,
        s@.len() > 0 ==> r == Some(s@.last()),
{
    let mut last: Option<char> = None;
    for c in it: s.chars()
        invariant
            it.seq() == s@,
            it.index() == 0 ==> last is None,
            it.index() > 0 ==> last == Some(s@[it.index() - 1]),
    {
        last = Some(c);
    }
    last
}

impl Store {
    /// A store over the device directory `directory` (which the caller has created).
    pub fn at(directory: String) -> (s: Store)
        ensures
            s@ == directory@,
    {
        Store { directory }
    }

    /// The device directory.
    pub fn directory(&self) -> (r: &str)
        ensures
            r@ == self@,
    {
        self.directory.as_str()
    }

    /// The file that holds the record of the device `id`, or none when `id` is not plain
    /// hex.
    pub fn path_for(&self, id: &str) -> (r: Option<String>)
        ensures
            match record_path(self@, id@) {
                Some(path) => r matches Some(p) && p@ == path,
                None => r is None,
            },
    {
        if !plain_hex(id) {
            return None;
        }
        let mut name = id.to_owned();
        name.append(".json");
        let mut out = self.directory.clone();
        match last_char(self.directory.as_str()) {
            None => {
                return Some(name);
            },
            Some(c) => {
                if c != '/' {
                    out.append("/");
                }
            },
        }
        out.append(name.as_str());
        Some(out)
    }
}

/// The devices of `records`, in order of pairing time. A record that does not describe a
/// device is skipped: one corrupt file must not make every other device unusable.
pub fn collect_devices(records: &Vec<JsonValue>) -> (r: Vec<Device>)
    ensures
        devices_view(r@) == by_pairing_time(parsed_devices(records@)),
{
    let mut out: Vec<Device> = Vec::new();
    let mut i: usize = 0;
    while i < records.len()
        invariant
            i <= records@.len(),
            devices_view(out@) == by_pairing_time(parsed_devices(records@.take(i as int))),
        decreases records@.len() - i,
    {
        assert(records@.take(i + 1).drop_last() =~= records@.take(i as int));
        assert(records@.take(i + 1).last() == records@[i as int]);
        let ghost before = parsed_devices(records@.take(i as int));
        match Device::from_json(&records[i]) {
            Ok(device) => {
                let key = device.paired_at;
                let ghost v = devices_view(out@);
                let mut j: usize = out.len();
                assert(v.take(out@.len() as int) =~= v);
                while j > 0 && out[j - 1].paired_at > key
                    invariant
                        j <= out@.len(),
                        v == devices_view(out@),
                        insert_pos(v, key) == insert_pos(v.take(j as int), key),
                    decreases j,
                {
                    assert(v.take(j as int).drop_last() =~= v.take(j - 1));
                    j = j - 1;
                }
                proof {
                    if j > 0 {
                        assert(v.take(j as int).last() == v[j - 1]);
                    }
                }
                let ghost d = device@;
                assert(parsed_devices(records@.take(i + 1)) == before.push(d));
                assert(before.push(d).drop_last() =~= before);
                out.insert(j, device);
                assert(devices_view(out@) =~= v.insert(j as int, d));
            },
            Err(_) => {},
        }
        i = i + 1;
    }
    assert(records@.take(records@.len() as int) =~= records@);
    out
}

/// Where a device is inserted into a listing in order, everything before paired no later
/// and everything after paired later.
proof fn lemma_insert_pos(sorted: Seq<DeviceView>, key: u64)
    requires
        in_pairing_order(sorted),
    ensures
        0 <= insert_pos(sorted, key) <= sorted.len(),
        forall|i: int| 0 <= i < insert_pos(sorted, key) ==> sorted[i].paired_at <= key,
        forall|i: int| insert_pos(sorted, key) <= i < sorted.len() ==> sorted[i].paired_at > key,
    decreases sorted.len(),
{
    if sorted.len() > 0 {
        let rest = sorted.drop_last();
        assert(in_pairing_order(rest));
        lemma_insert_pos(rest, key);
        let p = insert_pos(sorted, key);
        if sorted.last().paired_at <= key {
            assert forall|i: int| 0 <= i < sorted.len() implies sorted[i].paired_at <= key by {
                assert(sorted[i].paired_at <= sorted[sorted.len() - 1].paired_at);
            }
        } else {
            assert forall|i: int| 0 <= i < p implies sorted[i].paired_at <= key by {
                assert(sorted[i] == rest[i]);
            }
            assert forall|i: int| p <= i < sorted.len() implies sorted[i].paired_at > key by {
                if i < sorted.len() - 1 {
                    assert(sorted[i] == rest[i]);
                }
            }
        }
    }
}

/// A listing is always in order of pairing time.
pub proof fn lemma_listing_in_order(devices: Seq<DeviceView>)
    ensures
        in_pairing_order(by_pairing_time(devices)),
    decreases devices.len(),
{
    if devices.len() > 0 {
        let rest = by_pairing_time(devices.drop_last());
        let d = devices.last();
        lemma_listing_in_order(devices.drop_last());
        lemma_insert_pos(rest, d.paired_at);
        let p = insert_pos(rest, d.paired_at);
        let out = rest.insert(p, d);
        assert forall|i: int, j: int| 0 <= i <= j < out.len() implies out[i].paired_at
            <= out[j].paired_at by {
            if i < p && j > p {
                assert(out[i] == rest[i]);
                assert(out[j] == rest[j - 1]);
            } else if i > p {
                assert(out[i] == rest[i - 1]);
                assert(out[j] == rest[j - 1]);
            } else if j < p {
                assert(out[i] == rest[i]);
                assert(out[j] == rest[j]);
            }
        }
    }
}

/// A listing holds exactly the devices it was given: none lost, none added, none repeated.
pub proof fn lemma_listing_keeps_devices(devices: Seq<DeviceView>)
    ensures
        by_pairing_time(devices).to_multiset() == devices.to_multiset(),
    decreases devices.len(),
{
    broadcast use vstd::seq_lib::group_to_multiset_ensures, vstd::multiset::group_multiset_axioms;

    if devices.len() == 0 {
        assert(by_pairing_time(devices) =~= devices);
    } else {
        let rest = by_pairing_time(devices.drop_last());
        let d = devices.last();
        lemma_listing_keeps_devices(devices.drop_last());
        lemma_listing_in_order(devices.drop_last());
        lemma_insert_pos(rest, d.paired_at);
        let p = insert_pos(rest, d.paired_at);
        let out = rest.insert(p, d);
        assert(out.remove(p) =~= rest);
        assert(out[p] == d);
        assert(out.to_multiset().count(d) > 0) by {
            assert(out.contains(d));
        }
        assert(devices.drop_last().push(d) =~= devices);
        assert(out.to_multiset() =~= rest.to_multiset().insert(d));
    }
}

} // verus!
