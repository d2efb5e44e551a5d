use vstd::prelude::*;

use crate::error::CoreError;
use crate::text::str_eq;

verus! {

/// Where a crop stands in a grower's library.
#[derive(Clone, Copy, Debug, PartialEq, Eq, Structural)]
pub enum GrowerCropStatus {
    Interested,
    Planning,
    Growing,
    Paused,
}

pub open spec fn crop_status_of(v: Seq<char>) -> Option<GrowerCropStatus> {
    if v == "interested"@ {
        Some(GrowerCropStatus::Interested)
    } else if v == "planning"@ {
        Some(GrowerCropStatus::Planning)
    } else if v == "growing"@ {
        Some(GrowerCropStatus::Growing)
    } else if v == "paused"@ {
        Some(GrowerCropStatus::Paused)
    } else {
        None
    }
}

/// Who may see a library entry.
#[derive(Clone, Copy, Debug, PartialEq, Eq, Structural)]
pub enum VisibilityScope {
    Private,
    Local,
    Public,
}

pub open spec fn visibility_of(v: Seq<char>) -> Option<VisibilityScope> {
    if v == "private"@ {
        Some(VisibilityScope::Private)
    } else if v == "local"@ {
        Some(VisibilityScope::Local)
    } else if v == "public"@ {
        Some(VisibilityScope::Public)
    } else {
        None
    }
}

/// The body of a crop-library write.
#[derive(Debug)]
pub struct UpsertGrowerCropRequest {
    pub crop_id: String,
    pub variety_id: Option<String>,
    pub status: String,
    pub visibility: String,
    pub surplus_enabled: bool,
    pub nickname: Option<String>,
    pub default_unit: Option<String>,
    pub notes: Option<String>,
}

/// Checks the closed fields of a crop-library write: the status, then the visibility.
pub fn validate_upsert_payload(payload: &UpsertGrowerCropRequest) -> (r: Result<
    (GrowerCropStatus, VisibilityScope),
    CoreError,
>)
    ensures
        match (crop_status_of(payload.status@), visibility_of(payload.visibility@)) {
            (Some(s), Some(v)) => r == Ok::<(GrowerCropStatus, VisibilityScope), CoreError>((s, v)),
            _ => r == Err::<(GrowerCropStatus, VisibilityScope), CoreError>(CoreError::Validation),
        },
{
    let status = payload.status.as_str();
    let s = if str_eq(status, "interested") {
        GrowerCropStatus::Interested
    } else if str_eq(status, "planning") {
        GrowerCropStatus::Planning
    } else if str_eq(status, "growing") {
        GrowerCropStatus::Growing
    } else if str_eq(status, "paused") {
        GrowerCropStatus::Paused
    } else {
        return Err(CoreError::Validation);
    };
    let visibility = payload.visibility.as_str();
    let v = if str_eq(visibility, "private") {
        VisibilityScope::Private
    } else if str_eq(visibility, "local") {
        VisibilityScope::Local
    } else if str_eq(visibility, "public") {
        VisibilityScope::Public
    } else {
        return Err(CoreError::Validation);
    };
    Ok((s, v))
}

} // verus!
