use harvest_core::crop_library::{validate_upsert_payload, GrowerCropStatus, UpsertGrowerCropRequest, VisibilityScope};
use harvest_core::error::CoreError;

fn valid_payload() -> UpsertGrowerCropRequest {
    UpsertGrowerCropRequest {
        crop_id: "5df666d4-f6b1-4e6f-97d6-321e531ad7ca".to_string(),
        variety_id: None,
        status: "growing".to_string(),
        visibility: "local".to_string(),
        surplus_enabled: true,
        nickname: None,
        default_unit: None,
        notes: None,
    }
}

#[test]
fn payload_validation_accepts_valid_enums() {
    let payload = valid_payload();
    assert_eq!(validate_upsert_payload(&payload), Ok((GrowerCropStatus::Growing, VisibilityScope::Local)));
}

#[test]
fn payload_validation_rejects_invalid_status() {
    let mut payload = valid_payload();
    payload.status = "harvested".to_string();
    assert_eq!(validate_upsert_payload(&payload), Err(CoreError::Validation));
}

#[test]
fn payload_validation_rejects_invalid_visibility() {
    let mut payload = valid_payload();
    payload.visibility = "team".to_string();
    assert_eq!(validate_upsert_payload(&payload), Err(CoreError::Validation));
}
