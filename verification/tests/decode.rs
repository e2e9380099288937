use bcls::json::{Entry, Json};
use bcls::records::{DecodeError, Instance, Label, RequiredField};

fn s(v: &str) -> Json {
    Json::Str(v.to_string())
}

fn obj(entries: Vec<(&str, Json)>) -> Json {
    Json::Obj(
        entries
            .into_iter()
            .map(|(k, v)| Entry { key: k.to_string(), value: v })
            .collect(),
    )
}

fn arr(items: Vec<Json>) -> Json {
    Json::Arr(items)
}

fn label(key: &str, value: &str) -> Label {
    Label {
        key: key.to_string(),
        value: value.to_string(),
    }
}

/// A raw instance document with every required field present.
fn valid_doc(name: &str, ip: &str, zone: &str, machine_type: &str, cpu: &str, status: &str) -> Vec<(&'static str, Json)> {
    vec![
        ("name", s(name)),
        ("networkInterfaces", arr(vec![obj(vec![("networkIP", s(ip))])])),
        ("zone", s(zone)),
        ("machineType", s(machine_type)),
        ("cpuPlatform", s(cpu)),
        ("status", s(status)),
    ]
}

#[test]
fn test_instance_from_json() {
    let mut fields = valid_doc(
        "test-instance",
        "127.0.0.1",
        "projects/12345/zones/test-region-foo",
        "projects/12345/machineTypes/test-machine-type",
        "test-cpu-platform",
        "test-status",
    );
    fields.push((
        "labels",
        obj(vec![("key1", s("value1")), ("cell", s("int-test-cell"))]),
    ));
    let doc = obj(fields);

    let instance = Instance::from_json(&doc).unwrap();

    assert_eq!(instance.name, "test-instance");
    assert_eq!(instance.ip, "127.0.0.1");
    assert_eq!(instance.zone, "test-region-foo");
    assert_eq!(instance.machine_type, "test-machine-type");
    assert_eq!(instance.cpu_platform, "test-cpu-platform");
    assert_eq!(instance.status, "test-status");
    assert_eq!(
        instance.labels,
        Some(vec![label("key1", "value1"), label("cell", "int-test-cell")])
    );
    assert_eq!(instance.region, "test-region");
    assert_eq!(instance.cell, Some("int-test-cell".to_string()));
}

#[test]
fn round_trip_reads_back_input_values() {
    let doc = obj(valid_doc(
        "web-1",
        "10.0.0.7",
        "us-central1-a",
        "n2-standard-4",
        "Intel Cascade Lake",
        "RUNNING",
    ));
    let instance = Instance::from_json(&doc).unwrap();
    assert_eq!(instance.name, "web-1");
    assert_eq!(instance.ip, "10.0.0.7");
    assert_eq!(instance.zone, "us-central1-a");
    assert_eq!(instance.machine_type, "n2-standard-4");
    assert_eq!(instance.cpu_platform, "Intel Cascade Lake");
    assert_eq!(instance.status, "RUNNING");
    assert_eq!(instance.labels, None);
    assert_eq!(instance.cell, None);
}

#[test]
fn region_is_first_two_dash_tokens() {
    let doc = obj(valid_doc("a", "1.2.3.4", "us-east4-c", "t", "p", "RUNNING"));
    let instance = Instance::from_json(&doc).unwrap();
    assert_eq!(instance.region, "us-east4");

    let doc = obj(valid_doc("a", "1.2.3.4", "nodash", "t", "p", "RUNNING"));
    let instance = Instance::from_json(&doc).unwrap();
    assert_eq!(instance.zone, "nodash");
    assert_eq!(instance.region, "nodash");

    let doc = obj(valid_doc("a", "1.2.3.4", "one-dash", "t", "p", "RUNNING"));
    let instance = Instance::from_json(&doc).unwrap();
    assert_eq!(instance.region, "one-dash");
}

#[test]
fn zone_from_full_path() {
    let doc = obj(valid_doc(
        "a",
        "1.2.3.4",
        "projects/123/zones/us-central1-a",
        "t",
        "p",
        "RUNNING",
    ));
    let instance = Instance::from_json(&doc).unwrap();
    assert_eq!(instance.zone, "us-central1-a");
    assert_eq!(instance.region, "us-central1");
}

#[test]
fn missing_required_field_fails_decode() {
    let required = [
        ("name", RequiredField::Name),
        ("networkInterfaces", RequiredField::NetworkIp),
        ("zone", RequiredField::Zone),
        ("machineType", RequiredField::MachineType),
        ("cpuPlatform", RequiredField::CpuPlatform),
        ("status", RequiredField::Status),
    ];
    for (removed, field) in required {
        let fields: Vec<(&str, Json)> = valid_doc("n", "1.2.3.4", "z-1-a", "t", "p", "RUNNING")
            .into_iter()
            .filter(|(k, _)| *k != removed)
            .collect();
        let doc = obj(fields);
        let err = Instance::from_json(&doc).unwrap_err();
        assert_eq!(err, DecodeError::MissingField(field));
    }
}

#[test]
fn first_missing_field_is_reported() {
    let doc = obj(vec![("status", s("RUNNING"))]);
    let err = Instance::from_json(&doc).unwrap_err();
    assert_eq!(err, DecodeError::MissingField(RequiredField::Name));
}

#[test]
fn wrong_type_required_field_fails_decode() {
    let mut fields: Vec<(&str, Json)> = valid_doc("n", "1.2.3.4", "z-1-a", "t", "p", "RUNNING")
        .into_iter()
        .filter(|(k, _)| *k != "name")
        .collect();
    fields.push(("name", Json::Num("7".to_string())));
    let doc = obj(fields);
    let err = Instance::from_json(&doc).unwrap_err();
    assert_eq!(err, DecodeError::MissingField(RequiredField::Name));
}

#[test]
fn empty_interface_array_fails_decode() {
    let mut fields: Vec<(&str, Json)> = valid_doc("n", "1.2.3.4", "z-1-a", "t", "p", "RUNNING")
        .into_iter()
        .filter(|(k, _)| *k != "networkInterfaces")
        .collect();
    fields.push(("networkInterfaces", arr(vec![])));
    let doc = obj(fields);
    let err = Instance::from_json(&doc).unwrap_err();
    assert_eq!(err, DecodeError::MissingField(RequiredField::NetworkIp));
}

#[test]
fn labels_are_optional() {
    let doc = obj(valid_doc("n", "1.2.3.4", "z-1-a", "t", "p", "RUNNING"));
    let instance = Instance::from_json(&doc).unwrap();
    assert_eq!(instance.labels, None);
    assert_eq!(instance.cell, None);
}

#[test]
fn non_string_label_value_becomes_empty() {
    let mut fields = valid_doc("n", "1.2.3.4", "z-1-a", "t", "p", "RUNNING");
    fields.push(("labels", obj(vec![("count", Json::Num("3".to_string())), ("env", s("prod"))])));
    let doc = obj(fields);
    let instance = Instance::from_json(&doc).unwrap();
    assert_eq!(
        instance.labels,
        Some(vec![label("count", ""), label("env", "prod")])
    );
    assert_eq!(instance.cell, None);
}

#[test]
fn cell_comes_from_labels() {
    let mut fields = valid_doc("n", "1.2.3.4", "z-1-a", "t", "p", "RUNNING");
    fields.push(("labels", obj(vec![("cell", s("cell-7"))])));
    let doc = obj(fields);
    let instance = Instance::from_json(&doc).unwrap();
    assert_eq!(instance.cell, Some("cell-7".to_string()));
}

#[test]
fn empty_zone_segment_fails_decode() {
    let doc = obj(valid_doc("n", "1.2.3.4", "", "t", "p", "RUNNING"));
    let err = Instance::from_json(&doc).unwrap_err();
    assert_eq!(err, DecodeError::InvalidFormat(RequiredField::Zone));

    let doc = obj(valid_doc("n", "1.2.3.4", "projects/123/zones/", "t", "p", "RUNNING"));
    let err = Instance::from_json(&doc).unwrap_err();
    assert_eq!(err, DecodeError::InvalidFormat(RequiredField::Zone));
}

#[test]
fn empty_machine_type_segment_fails_decode() {
    let doc = obj(valid_doc("n", "1.2.3.4", "z-1-a", "machineTypes/", "p", "RUNNING"));
    let err = Instance::from_json(&doc).unwrap_err();
    assert_eq!(err, DecodeError::InvalidFormat(RequiredField::MachineType));
}

#[test]
fn as_string_renders_all_fields() {
    let mut fields = valid_doc("n1", "1.2.3.4", "z-1-a", "t1", "p1", "RUNNING");
    fields.push(("labels", obj(vec![("k1", s("v1")), ("k2", s("v2"))])));
    let doc = obj(fields);
    let instance = Instance::from_json(&doc).unwrap();
    assert_eq!(
        instance.as_string(),
        "Name: n1 IP: 1.2.3.4 Zone: z-1-a Machine Type: t1 CPU Platform: p1 Status: RUNNING Labels: k1: v1, k2: v2"
    );
}

#[test]
fn as_string_without_labels_says_none() {
    let doc = obj(valid_doc("n1", "1.2.3.4", "z-1-a", "t1", "p1", "RUNNING"));
    let instance = Instance::from_json(&doc).unwrap();
    assert_eq!(
        instance.as_string(),
        "Name: n1 IP: 1.2.3.4 Zone: z-1-a Machine Type: t1 CPU Platform: p1 Status: RUNNING Labels: None"
    );
    assert_eq!(instance.labels_string(), "None");
}
