use sha2::{Digest, Sha256};
use zephyr_grid::errors::{GridError, ServiceError};
use zephyr_grid::sector::ProgramId;
use zephyr_grid::service::{
    load_descriptor, OwnedProgram, ServiceDescriptor, ServiceId, WasmResourceLimits,
};

#[test]
fn all_program_ids_includes_required_and_owned() {
    let owned_pid = ProgramId([0xBB; 32]);
    let owned = OwnedProgram {
        name: "owned-prog".into(),
        version: "1.0.0".into(),
        program_id: owned_pid,
    };
    let required_pid = ProgramId([0xAA; 32]);
    let desc = ServiceDescriptor {
        name: "svc".into(),
        version: "1.0.0".into(),
        required_programs: vec![required_pid],
        owned_programs: vec![owned],
        summary: String::new(),
    };
    let all = desc.all_program_ids();
    assert_eq!(all.len(), 2);
    assert_eq!(all[0], required_pid);
    assert_eq!(all[1], owned_pid);
}

#[test]
fn service_id_hex_round_trip_from_bytes() {
    let mut bytes = [0u8; 32];
    for (i, b) in bytes.iter_mut().enumerate() {
        *b = (i * 7) as u8;
    }
    let id = ServiceId::from(bytes);
    let hex_str = id.to_hex();
    assert_eq!(hex_str.len(), 64);
    assert!(hex_str.starts_with("00070e15"));
    let parsed = ServiceId::from_hex(&hex_str).unwrap();
    assert_eq!(id, parsed);
    assert_eq!(parsed.as_bytes(), &bytes);
}

#[test]
fn service_id_from_hex_accepts_upper_case() {
    let parsed = ServiceId::from_hex(&"AB".repeat(32)).unwrap();
    assert_eq!(parsed.as_bytes(), &[0xAB; 32]);
}

#[test]
fn service_id_from_hex_rejects_wrong_length() {
    let err = ServiceId::from_hex("abcd").unwrap_err();
    assert_eq!(
        err,
        GridError::Decode("ServiceId hex must decode to exactly 32 bytes".to_string())
    );
}

#[test]
fn service_id_from_hex_rejects_non_hex() {
    let err = ServiceId::from_hex(&"zz".repeat(32)).unwrap_err();
    assert!(matches!(err, GridError::Decode(_)));
}

#[test]
fn load_descriptor_reports_missing_runtime() {
    let err = load_descriptor(std::path::Path::new("/tmp/service.wasm")).unwrap_err();
    assert_eq!(
        err,
        ServiceError::Other("WASM runtime not enabled — compile with `--features wasm`".to_string())
    );
}

#[test]
fn wasm_limits_default() {
    let limits = WasmResourceLimits::default();
    assert_eq!(limits.max_fuel_per_request, 1_000_000_000);
    assert_eq!(limits.max_memory_bytes, 64 * 1024 * 1024);
    assert_eq!(limits.max_request_duration, std::time::Duration::from_secs(30));
}

#[test]
fn grid_error_converts_into_service_error() {
    let e: ServiceError = GridError::Decode("x".into()).into();
    assert_eq!(e, ServiceError::Grid(GridError::Decode("x".into())));
}

fn descriptor(name: &str, summary: &str) -> ServiceDescriptor {
    ServiceDescriptor {
        name: name.into(),
        version: "0.1.0".into(),
        required_programs: vec![ProgramId([0x11; 32])],
        owned_programs: vec![],
        summary: summary.into(),
    }
}

#[test]
fn descriptor_encoding_is_canonical_map() {
    let d = ServiceDescriptor {
        name: "A".into(),
        version: "1".into(),
        required_programs: vec![],
        owned_programs: vec![],
        summary: String::new(),
    };
    let mut expected = vec![0xA3, 0x64];
    expected.extend_from_slice(b"name");
    expected.extend_from_slice(&[0x61, b'A', 0x67]);
    expected.extend_from_slice(b"version");
    expected.extend_from_slice(&[0x61, b'1', 0x71]);
    expected.extend_from_slice(b"required_programs");
    expected.push(0x80);
    assert_eq!(d.encode_canonical(), expected);
}

#[test]
fn service_id_is_hash_of_canonical_encoding() {
    let d = descriptor("ZEPHYR", "first");
    let id = d.service_id().unwrap();
    let expected: [u8; 32] = Sha256::digest(d.encode_canonical()).into();
    assert_eq!(id.as_bytes(), &expected);
    assert_eq!(d.service_id().unwrap(), descriptor("ZEPHYR", "other summary").service_id().unwrap());
    assert_ne!(id, descriptor("IDENTITY", "first").service_id().unwrap());
}

#[test]
fn service_topic_is_svc_and_hex_id() {
    let d = descriptor("ZEPHYR", "");
    let topic = d.topic().unwrap();
    assert_eq!(topic, format!("svc/{}", d.service_id().unwrap().to_hex()));
    assert_eq!(topic.len(), 4 + 64);
}

#[test]
fn service_id_is_deterministic() {
    let desc = ServiceDescriptor {
        name: "test-service".into(),
        version: "1.0.0".into(),
        required_programs: vec![],
        owned_programs: vec![],
        summary: String::new(),
    };
    let id1 = desc.service_id().unwrap();
    let id2 = desc.service_id().unwrap();
    assert_eq!(id1, id2);
}

#[test]
fn different_descriptors_produce_different_ids() {
    let desc1 = ServiceDescriptor {
        name: "svc-a".into(),
        version: "1.0.0".into(),
        required_programs: vec![],
        owned_programs: vec![],
        summary: String::new(),
    };
    let desc2 = ServiceDescriptor {
        name: "svc-b".into(),
        version: "1.0.0".into(),
        required_programs: vec![],
        owned_programs: vec![],
        summary: String::new(),
    };
    assert_ne!(desc1.service_id().unwrap(), desc2.service_id().unwrap());
}

#[test]
fn topic_format() {
    let desc = ServiceDescriptor {
        name: "test".into(),
        version: "1.0.0".into(),
        required_programs: vec![],
        owned_programs: vec![],
        summary: String::new(),
    };
    let topic = desc.topic().unwrap();
    assert!(topic.starts_with("svc/"));
    assert_eq!(topic.len(), 4 + 64);
}

#[test]
fn service_id_hex_round_trip() {
    let desc = ServiceDescriptor {
        name: "rt".into(),
        version: "0.1.0".into(),
        required_programs: vec![],
        owned_programs: vec![],
        summary: String::new(),
    };
    let id = desc.service_id().unwrap();
    let hex_str = id.to_hex();
    let parsed = ServiceId::from_hex(&hex_str).unwrap();
    assert_eq!(id, parsed);
}
