//! Decoding of raw instance documents into validated records.
//!
//! One raw JSON object becomes one [`Instance`], or a [`DecodeError`] naming
//! the first required field that is absent, of the wrong type, or whose
//! URL-shaped value degenerates to an empty trailing segment. No partial
//! records exist: a record either decodes completely or not at all.

use vstd::prelude::*;
use vstd::string::StringExecFns;

use crate::json::{Json, JsonV, EntryV, get_field, get_str_field};
use crate::strutil::{last_segment, region_of, trailing_segment, region_prefix, str_eq};

verus! {

/// A required field of a raw instance document.
#[derive(Clone, Copy, Debug, PartialEq, Eq, Structural)]
pub enum RequiredField {
    Name,
    NetworkIp,
    Zone,
    MachineType,
    CpuPlatform,
    Status,
}

/// Why a raw instance document was rejected.
#[derive(Clone, Copy, Debug, PartialEq, Eq, Structural)]
pub enum DecodeError {
    /// The named required field is absent or not of the expected type.
    MissingField(RequiredField),
    /// The named field is present, but the trailing segment of its
    /// URL-shaped value is empty (the degenerate case of an empty string or
    /// one ending in `/`).
    InvalidFormat(RequiredField),
}

/// One instance label.
#[derive(Clone, Debug, PartialEq)]
pub struct Label {
    pub key: String,
    pub value: String,
}

/// Mathematical value of a label.
#[verifier::ext_equal]
pub struct LabelV {
    pub key: Seq<char>,
    pub value: Seq<char>,
}

/// A validated compute instance record.
#[derive(Debug)]
pub struct Instance {
    /// The name of the instance.
    pub name: String,
    /// The primary private IP address, from the first network interface.
    pub ip: String,
    /// The short zone name (trailing segment of the zone URL).
    pub zone: String,
    /// The short machine type name (trailing segment of its URL).
    pub machine_type: String,
    /// The CPU platform, verbatim.
    pub cpu_platform: String,
    /// The status string, verbatim.
    pub status: String,
    /// The labels, in document order; absent when the document has none.
    pub labels: Option<Vec<Label>>,
    /// The region: the first two dash-separated tokens of the zone.
    pub region: String,
    /// The value of the `cell` label, when labels hold one.
    pub cell: Option<String>,
}

/// Mathematical value of an [`Instance`].
#[verifier::ext_equal]
pub struct InstanceV {
    pub name: Seq<char>,
    pub ip: Seq<char>,
    pub zone: Seq<char>,
    pub machine_type: Seq<char>,
    pub cpu_platform: Seq<char>,
    pub status: Seq<char>,
    pub labels: Option<Seq<LabelV>>,
    pub region: Seq<char>,
    pub cell: Option<Seq<char>>,
}

/// The mathematical values of a vector of labels.
pub open spec fn label_views(labels: Seq<Label>) -> Seq<LabelV> {
    labels.map(|i: int, l: Label| LabelV { key: l.key@, value: l.value@ })
}

impl View for Instance {
    type V = InstanceV;

    open spec fn view(&self) -> InstanceV {
        InstanceV {
            name: self.name@,
            ip: self.ip@,
            zone: self.zone@,
            machine_type: self.machine_type@,
            cpu_platform: self.cpu_platform@,
            status: self.status@,
            labels: match self.labels {
                Some(ls) => Some(label_views(ls@)),
                None => None,
            },
            region: self.region@,
            cell: match self.cell {
                Some(c) => Some(c@),
                None => None,
            },
        }
    }
}

/// The IP of the first network interface of `doc`, if
/// `networkInterfaces[0].networkIP` exists and is a string.
pub open spec fn ip_of(doc: JsonV) -> Option<Seq<char>> {
    match get_field(doc, "networkInterfaces"@) {
        Some(JsonV::Arr(ifaces)) => if ifaces.len() > 0 {
            get_str_field(ifaces[0], "networkIP"@)
        } else {
            None
        },
        _ => None,
    }
}

/// The text a label value contributes: its characters for a string, and the
/// empty string for anything else. Non-string label values are deliberately
/// tolerated rather than failing the whole record.
pub open spec fn label_text(v: JsonV) -> Seq<char> {
    match v {
        JsonV::Str(s) => s,
        _ => Seq::empty(),
    }
}

/// The labels of `doc`: present exactly when `doc` holds a `labels` object.
pub open spec fn labels_of(doc: JsonV) -> Option<Seq<LabelV>> {
    match get_field(doc, "labels"@) {
        Some(JsonV::Obj(entries)) => Some(
            entries.map(|i: int, e: EntryV| LabelV { key: e.key, value: label_text(e.value) }),
        ),
        _ => None,
    }
}

/// First label with key `key`, if any.
pub open spec fn labels_lookup(labels: Seq<LabelV>, key: Seq<char>) -> Option<Seq<char>>
    decreases labels.len(),
{
    if labels.len() == 0 {
        None
    } else if labels[0].key == key {
        Some(labels[0].value)
    } else {
        labels_lookup(labels.skip(1), key)
    }
}

/// The `cell` label of a decoded label set, if there is one.
pub open spec fn cell_of(labels: Option<Seq<LabelV>>) -> Option<Seq<char>> {
    match labels {
        Some(ls) => labels_lookup(ls, "cell"@),
        None => None,
    }
}

/// What decoding `doc` yields: the validated record, or the first failure in
/// `name`, `networkInterfaces[0].networkIP`, `zone`, `machineType`,
/// `cpuPlatform`, `status` order — a required field that is absent or of the
/// wrong type, or a `zone` or `machineType` whose trailing path segment is
/// empty.
pub open spec fn decode_result(doc: JsonV) -> Result<InstanceV, DecodeError> {
    match get_str_field(doc, "name"@) {
        None => Err(DecodeError::MissingField(RequiredField::Name)),
        Some(name) => match ip_of(doc) {
            None => Err(DecodeError::MissingField(RequiredField::NetworkIp)),
            Some(ip) => match get_str_field(doc, "zone"@) {
                None => Err(DecodeError::MissingField(RequiredField::Zone)),
                Some(zone_full) => if last_segment(zone_full).len() == 0 {
                    Err(DecodeError::InvalidFormat(RequiredField::Zone))
                } else {
                    match get_str_field(doc, "machineType"@) {
                        None => Err(DecodeError::MissingField(RequiredField::MachineType)),
                        Some(mt_full) => if last_segment(mt_full).len() == 0 {
                            Err(DecodeError::InvalidFormat(RequiredField::MachineType))
                        } else {
                            match get_str_field(doc, "cpuPlatform"@) {
                                None => Err(DecodeError::MissingField(RequiredField::CpuPlatform)),
                                Some(cpu) => match get_str_field(doc, "status"@) {
                                    None => Err(DecodeError::MissingField(RequiredField::Status)),
                                    Some(status) => Ok(
                                        {
                                            let zone = last_segment(zone_full);
                                            let labels = labels_of(doc);
                                            InstanceV {
                                                name: name,
                                                ip: ip,
                                                zone: zone,
                                                machine_type: last_segment(mt_full),
                                                cpu_platform: cpu,
                                                status: status,
                                                labels: labels,
                                                region: region_of(zone),
                                                cell: cell_of(labels),
                                            }
                                        },
                                    ),
                                },
                            }
                        },
                    }
                },
            },
        },
    }
}

/// A fresh vector of the same labels.
fn clone_labels(ls: &Vec<Label>) -> (r: Vec<Label>)
    ensures
        label_views(r@) == label_views(ls@),
{
    let mut out: Vec<Label> = Vec::new();
    let mut i: usize = 0;
    while i < ls.len()
        invariant
            i <= ls.len(),
            out@.len() == i,
            forall|j: int|
                0 <= j < i ==> (#[trigger] out@[j]).key@ == ls@[j].key@ && out@[j].value@
                    == ls@[j].value@,
        decreases ls.len() - i,
    {
        out.push(Label { key: ls[i].key.clone(), value: ls[i].value.clone() });
        i = i + 1;
    }
    proof {
        assert(label_views(out@) =~= label_views(ls@));
    }
    out
}

impl Clone for Instance {
    /// A clone keeps the mathematical value of the record.
    fn clone(&self) -> (r: Self)
        ensures
            r@ == self@,
    {
        let r = Instance {
            name: self.name.clone(),
            ip: self.ip.clone(),
            zone: self.zone.clone(),
            machine_type: self.machine_type.clone(),
            cpu_platform: self.cpu_platform.clone(),
            status: self.status.clone(),
            labels: match &self.labels {
                Some(ls) => Some(clone_labels(ls)),
                None => None,
            },
            region: self.region.clone(),
            cell: match &self.cell {
                Some(c) => Some(c.clone()),
                None => None,
            },
        };
        proof {
            assert(r@ =~= self@);
        }
        r
    }
}

/// First label of `labels` whose key is `key`, as an owned string.
fn lookup_label(labels: &Vec<Label>, key: &str) -> (r: Option<String>)
    ensures
        match r {
            Some(v) => labels_lookup(label_views(labels@), key@) == Some(v@),
            None => labels_lookup(label_views(labels@), key@) is None,
        },
{
    let mut idx: usize = 0;
    proof {
        assert(label_views(labels@).skip(0) =~= label_views(labels@));
    }
    while idx < labels.len()
        invariant
            idx <= labels.len(),
            labels_lookup(label_views(labels@), key@) == labels_lookup(
                label_views(labels@).skip(idx as int),
                key@,
            ),
        decreases labels.len() - idx,
    {
        proof {
            assert(label_views(labels@).skip(idx as int)[0] == label_views(
                labels@,
            )[idx as int]);
            assert(label_views(labels@).skip(idx as int).skip(1) =~= label_views(labels@).skip(
                idx as int + 1,
            ));
        }
        if str_eq(labels[idx].key.as_str(), key) {
            return Some(labels[idx].value.clone());
        }
        idx = idx + 1;
    }
    proof {
        assert(label_views(labels@).skip(idx as int) =~= Seq::<LabelV>::empty());
    }
    None
}

impl Instance {
    /// Decodes one raw instance document.
    #[verifier::loop_isolation(false)]
    pub fn from_json(doc: &Json) -> (r: Result<Instance, DecodeError>)
        ensures
            match r {
                Ok(inst) => decode_result(doc@) == Ok::<InstanceV, DecodeError>(inst@),
                Err(e) => decode_result(doc@) == Err::<InstanceV, DecodeError>(e),
            },
    {
        let name: String = match doc.get("name") {
            Some(v) => match v.as_str() {
                Some(s) => s.clone(),
                None => {
                    return Err(DecodeError::MissingField(RequiredField::Name));
                },
            },
            None => {
                return Err(DecodeError::MissingField(RequiredField::Name));
            },
        };
        let ip: String = match doc.get("networkInterfaces") {
            Some(v) => match v.as_array() {
                Some(ifaces) => {
                    if ifaces.len() > 0 {
                        match ifaces[0].get("networkIP") {
                            Some(f) => match f.as_str() {
                                Some(s) => s.clone(),
                                None => {
                                    return Err(DecodeError::MissingField(RequiredField::NetworkIp));
                                },
                            },
                            None => {
                                return Err(DecodeError::MissingField(RequiredField::NetworkIp));
                            },
                        }
                    } else {
                        return Err(DecodeError::MissingField(RequiredField::NetworkIp));
                    }
                },
                None => {
                    return Err(DecodeError::MissingField(RequiredField::NetworkIp));
                },
            },
            None => {
                return Err(DecodeError::MissingField(RequiredField::NetworkIp));
            },
        };
        let zone_full: String = match doc.get("zone") {
            Some(v) => match v.as_str() {
                Some(s) => s.clone(),
                None => {
                    return Err(DecodeError::MissingField(RequiredField::Zone));
                },
            },
            None => {
                return Err(DecodeError::MissingField(RequiredField::Zone));
            },
        };
        let zone: String = trailing_segment(zone_full.as_str());
        if zone.as_str().is_empty() {
            return Err(DecodeError::InvalidFormat(RequiredField::Zone));
        }
        let mt_full: String = match doc.get("machineType") {
            Some(v) => match v.as_str() {
                Some(s) => s.clone(),
                None => {
                    return Err(DecodeError::MissingField(RequiredField::MachineType));
                },
            },
            None => {
                return Err(DecodeError::MissingField(RequiredField::MachineType));
            },
        };
        let machine_type: String = trailing_segment(mt_full.as_str());
        if machine_type.as_str().is_empty() {
            return Err(DecodeError::InvalidFormat(RequiredField::MachineType));
        }
        let cpu_platform: String = match doc.get("cpuPlatform") {
            Some(v) => match v.as_str() {
                Some(s) => s.clone(),
                None => {
                    return Err(DecodeError::MissingField(RequiredField::CpuPlatform));
                },
            },
            None => {
                return Err(DecodeError::MissingField(RequiredField::CpuPlatform));
            },
        };
        let status: String = match doc.get("status") {
            Some(v) => match v.as_str() {
                Some(s) => s.clone(),
                None => {
                    return Err(DecodeError::MissingField(RequiredField::Status));
                },
            },
            None => {
                return Err(DecodeError::MissingField(RequiredField::Status));
            },
        };
        let region: String = region_prefix(zone.as_str());
        let labels: Option<Vec<Label>> = match doc.get("labels") {
            Some(v) => match v.as_object() {
                Some(entries) => {
                    let mut out: Vec<Label> = Vec::new();
                    let mut i: usize = 0;
                    while i < entries.len()
                        invariant
                            i <= entries.len(),
                            out@.len() == i,
                            forall|j: int|
                                0 <= j < i ==> (#[trigger] out@[j]).key@ == crate::json::entry_views(
                                    entries@,
                                )[j].key && out@[j].value@ == label_text(
                                    crate::json::entry_views(entries@)[j].value,
                                ),
                        decreases entries.len() - i,
                    {
                        let text: String = match entries[i].value.as_str() {
                            Some(s) => s.clone(),
                            None => String::new(),
                        };
                        out.push(Label { key: entries[i].key.clone(), value: text });
                        i = i + 1;
                    }
                    proof {
                        assert(label_views(out@) =~= labels_of(doc@)->0);
                    }
                    Some(out)
                },
                None => None,
            },
            None => None,
        };
        let cell: Option<String> = match &labels {
            Some(ls) => lookup_label(ls, "cell"),
            None => None,
        };
        let inst = Instance {
            name,
            ip,
            zone,
            machine_type,
            cpu_platform,
            status,
            labels,
            region,
            cell,
        };
        proof {
            assert(decode_result(doc@) matches Ok(iv) && iv =~= inst@);
        }
        Ok(inst)
    }
}

/// One label as it is rendered: `key: value`.
pub open spec fn label_pair_text(l: LabelV) -> Seq<char> {
    l.key + ": "@ + l.value
}

/// A label list as it is rendered: the pairs joined by `, `.
pub open spec fn joined_labels(ls: Seq<LabelV>) -> Seq<char>
    decreases ls.len(),
{
    if ls.len() == 0 {
        Seq::empty()
    } else if ls.len() == 1 {
        label_pair_text(ls[0])
    } else {
        joined_labels(ls.drop_last()) + ", "@ + label_pair_text(ls.last())
    }
}

/// An optional label list as it is rendered: `None` when absent.
pub open spec fn labels_text(labels: Option<Seq<LabelV>>) -> Seq<char> {
    match labels {
        Some(ls) => joined_labels(ls),
        None => "None"@,
    }
}

/// A whole record as [`Instance::as_string`] renders it.
pub open spec fn instance_text(iv: InstanceV) -> Seq<char> {
    "Name: "@ + iv.name + " IP: "@ + iv.ip + " Zone: "@ + iv.zone + " Machine Type: "@
        + iv.machine_type + " CPU Platform: "@ + iv.cpu_platform + " Status: "@ + iv.status
        + " Labels: "@ + labels_text(iv.labels)
}

impl Instance {
    /// The labels of this record as one string: the `key: value` pairs in
    /// order, joined by commas, or `None` when the record has no labels.
    #[verifier::loop_isolation(false)]
    pub fn labels_string(&self) -> (r: String)
        ensures
            r@ == labels_text(self@.labels),
    {
        match &self.labels {
            None => "None".to_owned(),
            Some(ls) => {
                let mut out = String::new();
                let mut i: usize = 0;
                proof {
                    assert(label_views(ls@).take(0) =~= Seq::<LabelV>::empty());
                }
                while i < ls.len()
                    invariant
                        i <= ls.len(),
                        out@ == joined_labels(label_views(ls@).take(i as int)),
                    decreases ls.len() - i,
                {
                    proof {
                        assert(label_views(ls@).take(i + 1).drop_last() =~= label_views(
                            ls@,
                        ).take(i as int));
                        assert(label_views(ls@).take(i + 1).last() == label_views(
                            ls@,
                        )[i as int]);
                        assert(label_views(ls@).take(1)[0] == label_views(ls@)[0]);
                    }
                    if i > 0 {
                        out.append(", ");
                    }
                    out.append(ls[i].key.as_str());
                    out.append(": ");
                    out.append(ls[i].value.as_str());
                    proof {
                        assert(out@ =~= joined_labels(label_views(ls@).take(i + 1)));
                    }
                    i = i + 1;
                }
                proof {
                    assert(label_views(ls@).take(ls@.len() as int) =~= label_views(ls@));
                }
                out
            },
        }
    }

    /// This record as one human-readable line.
    pub fn as_string(&self) -> (r: String)
        ensures
            r@ == instance_text(self@),
    {
        let mut out = String::new();
        out.append("Name: ");
        out.append(self.name.as_str());
        out.append(" IP: ");
        out.append(self.ip.as_str());
        out.append(" Zone: ");
        out.append(self.zone.as_str());
        out.append(" Machine Type: ");
        out.append(self.machine_type.as_str());
        out.append(" CPU Platform: ");
        out.append(self.cpu_platform.as_str());
        out.append(" Status: ");
        out.append(self.status.as_str());
        out.append(" Labels: ");
        let ls = self.labels_string();
        out.append(ls.as_str());
        proof {
            assert(out@ =~= instance_text(self@));
        }
        out
    }
}

/// Round trip: decoding a document whose six required fields are present,
/// with non-degenerate `zone` and `machineType` values, yields exactly the
/// values the document holds — `name`, the first interface's IP,
/// `cpuPlatform` and `status` verbatim, and the trailing path segments of
/// `zone` and `machineType`.
pub proof fn lemma_decode_round_trip(doc: JsonV)
    requires
        get_str_field(doc, "name"@) is Some,
        ip_of(doc) is Some,
        get_str_field(doc, "zone"@) is Some,
        last_segment(get_str_field(doc, "zone"@)->0).len() > 0,
        get_str_field(doc, "machineType"@) is Some,
        last_segment(get_str_field(doc, "machineType"@)->0).len() > 0,
        get_str_field(doc, "cpuPlatform"@) is Some,
        get_str_field(doc, "status"@) is Some,
    ensures
        decode_result(doc) is Ok,
        decode_result(doc)->Ok_0.name == get_str_field(doc, "name"@)->0,
        decode_result(doc)->Ok_0.ip == ip_of(doc)->0,
        decode_result(doc)->Ok_0.zone == last_segment(get_str_field(doc, "zone"@)->0),
        decode_result(doc)->Ok_0.machine_type == last_segment(get_str_field(doc, "machineType"@)->0),
        decode_result(doc)->Ok_0.cpu_platform == get_str_field(doc, "cpuPlatform"@)->0,
        decode_result(doc)->Ok_0.status == get_str_field(doc, "status"@)->0,
        decode_result(doc)->Ok_0.region == region_of(last_segment(get_str_field(doc, "zone"@)->0)),
        decode_result(doc)->Ok_0.labels == labels_of(doc),
        decode_result(doc)->Ok_0.cell == cell_of(labels_of(doc)),
{
}

/// Missing required field: a document in which any of the six required
/// fields is absent or of the wrong type does not decode, and the error
/// names the first such field. A `zone` or `machineType` whose trailing
/// path segment is empty does not decode either.
pub proof fn lemma_missing_required_field_fails(doc: JsonV)
    ensures
        get_str_field(doc, "name"@) is None ==> decode_result(doc) == Err::<
            InstanceV,
            DecodeError,
        >(DecodeError::MissingField(RequiredField::Name)),
        ip_of(doc) is None ==> decode_result(doc) is Err,
        get_str_field(doc, "zone"@) is None ==> decode_result(doc) is Err,
        get_str_field(doc, "machineType"@) is None ==> decode_result(doc) is Err,
        get_str_field(doc, "cpuPlatform"@) is None ==> decode_result(doc) is Err,
        get_str_field(doc, "status"@) is None ==> decode_result(doc) is Err,
        (get_str_field(doc, "zone"@) matches Some(z) && last_segment(z).len() == 0)
            ==> decode_result(doc) is Err,
        (get_str_field(doc, "machineType"@) matches Some(m) && last_segment(m).len() == 0)
            ==> decode_result(doc) is Err,
{
}

/// Labels are optional: a document without a `labels` object decodes (when
/// its required fields are present) to a record without labels and without a
/// cell.
pub proof fn lemma_labels_optional(doc: JsonV)
    requires
        get_field(doc, "labels"@) is None,
        decode_result(doc) is Ok,
    ensures
        decode_result(doc)->Ok_0.labels is None,
        decode_result(doc)->Ok_0.cell is None,
{
}

} // verus!
