use vstd::prelude::*;

use crate::error::CoreError;
use crate::text::{ascii_lower_seq, eq_lowered, str_eq};

verus! {

/// Where a claim stands in its life cycle.
#[derive(Clone, Copy, Debug, PartialEq, Eq, Structural)]
pub enum ClaimStatus {
    Pending,
    Confirmed,
    Completed,
    Cancelled,
    NoShow,
}

pub open spec fn claim_status_name(s: ClaimStatus) -> Seq<char> {
    match s {
        ClaimStatus::Pending => "pending"@,
        ClaimStatus::Confirmed => "confirmed"@,
        ClaimStatus::Completed => "completed"@,
        ClaimStatus::Cancelled => "cancelled"@,
        ClaimStatus::NoShow => "no_show"@,
    }
}

impl ClaimStatus {
    /// The name the store and the wire use for this status.
    pub fn as_db_value(self) -> (r: &'static str)
        ensures
            r@ == claim_status_name(self),
    {
        match self {
            ClaimStatus::Pending => "pending",
            ClaimStatus::Confirmed => "confirmed",
            ClaimStatus::Completed => "completed",
            ClaimStatus::Cancelled => "cancelled",
            ClaimStatus::NoShow => "no_show",
        }
    }

    /// Terminal states admit no further move but the idempotent one.
    pub open spec fn spec_is_terminal(self) -> bool {
        self == ClaimStatus::Completed || self == ClaimStatus::Cancelled || self == ClaimStatus::NoShow
    }
}

/// Parses a claim status name; any other text is a validation error.
pub fn parse_claim_status(value: &str) -> (r: Result<ClaimStatus, CoreError>)
    ensures
        match r {
            Ok(s) => value@ == claim_status_name(s),
            Err(e) => e == CoreError::Validation && forall|s: ClaimStatus| value@ != #[trigger] claim_status_name(s),
        },
{
    if str_eq(value, "pending") {
        Ok(ClaimStatus::Pending)
    } else if str_eq(value, "confirmed") {
        Ok(ClaimStatus::Confirmed)
    } else if str_eq(value, "completed") {
        Ok(ClaimStatus::Completed)
    } else if str_eq(value, "cancelled") {
        Ok(ClaimStatus::Cancelled)
    } else if str_eq(value, "no_show") {
        Ok(ClaimStatus::NoShow)
    } else {
        assert forall|s: ClaimStatus| value@ != #[trigger] claim_status_name(s) by {
            match s {
                ClaimStatus::Pending => {},
                ClaimStatus::Confirmed => {},
                ClaimStatus::Completed => {},
                ClaimStatus::Cancelled => {},
                ClaimStatus::NoShow => {},
            }
        }
        Err(CoreError::Validation)
    }
}

/// Where a listing stands.
#[derive(Clone, Copy, Debug, PartialEq, Eq, Structural)]
pub enum ListingStatus {
    Active,
    Pending,
    Claimed,
    Expired,
    Completed,
}

pub open spec fn listing_status_name(s: ListingStatus) -> Seq<char> {
    match s {
        ListingStatus::Active => "active"@,
        ListingStatus::Pending => "pending"@,
        ListingStatus::Claimed => "claimed"@,
        ListingStatus::Expired => "expired"@,
        ListingStatus::Completed => "completed"@,
    }
}

impl ListingStatus {
    pub fn as_db_value(self) -> (r: &'static str)
        ensures
            r@ == listing_status_name(self),
    {
        match self {
            ListingStatus::Active => "active",
            ListingStatus::Pending => "pending",
            ListingStatus::Claimed => "claimed",
            ListingStatus::Expired => "expired",
            ListingStatus::Completed => "completed",
        }
    }

    pub open spec fn spec_is_claimable(self) -> bool {
        self == ListingStatus::Active || self == ListingStatus::Pending || self == ListingStatus::Claimed
    }

    /// A claim may be opened against a listing in one of these states.
    pub fn is_claimable(self) -> (r: bool)
        ensures
            r == self.spec_is_claimable(),
    {
        match self {
            ListingStatus::Active | ListingStatus::Pending | ListingStatus::Claimed => true,
            _ => false,
        }
    }

    pub open spec fn spec_counts_as_supply(self) -> bool {
        self.spec_is_claimable()
    }
}

/// Parses a listing status name.
pub fn parse_listing_status(value: &str) -> (r: Result<ListingStatus, CoreError>)
    ensures
        match r {
            Ok(s) => value@ == listing_status_name(s),
            Err(e) => e == CoreError::Validation && forall|s: ListingStatus| value@ != #[trigger] listing_status_name(s),
        },
{
    if str_eq(value, "active") {
        Ok(ListingStatus::Active)
    } else if str_eq(value, "pending") {
        Ok(ListingStatus::Pending)
    } else if str_eq(value, "claimed") {
        Ok(ListingStatus::Claimed)
    } else if str_eq(value, "expired") {
        Ok(ListingStatus::Expired)
    } else if str_eq(value, "completed") {
        Ok(ListingStatus::Completed)
    } else {
        assert forall|s: ListingStatus| value@ != #[trigger] listing_status_name(s) by {
            match s {
                ListingStatus::Active => {},
                ListingStatus::Pending => {},
                ListingStatus::Claimed => {},
                ListingStatus::Expired => {},
                ListingStatus::Completed => {},
            }
        }
        Err(CoreError::Validation)
    }
}

/// The statuses an owner may filter their own listings by.
pub open spec fn spec_owner_read_status(value: Seq<char>) -> bool {
    value == "active"@ || value == "expired"@ || value == "completed"@
}

pub fn listing_read_status_allowed(value: &str) -> (r: bool)
    ensures
        r == spec_owner_read_status(value@),
{
    str_eq(value, "active") || str_eq(value, "expired") || str_eq(value, "completed")
}

/// Discovery shows active listings only.
pub fn discover_status_allowed(value: &str) -> (r: bool)
    ensures
        r == (value@ == "active"@),
{
    str_eq(value, "active")
}

/// Where a request stands.
#[derive(Clone, Copy, Debug, PartialEq, Eq, Structural)]
pub enum RequestStatus {
    Open,
    Matched,
    Closed,
}

pub open spec fn request_status_name(s: RequestStatus) -> Seq<char> {
    match s {
        RequestStatus::Open => "open"@,
        RequestStatus::Matched => "matched"@,
        RequestStatus::Closed => "closed"@,
    }
}

pub fn parse_request_status(value: &str) -> (r: Result<RequestStatus, CoreError>)
    ensures
        match r {
            Ok(s) => value@ == request_status_name(s),
            Err(e) => e == CoreError::Validation && forall|s: RequestStatus| value@ != #[trigger] request_status_name(s),
        },
{
    if str_eq(value, "open") {
        Ok(RequestStatus::Open)
    } else if str_eq(value, "matched") {
        Ok(RequestStatus::Matched)
    } else if str_eq(value, "closed") {
        Ok(RequestStatus::Closed)
    } else {
        assert forall|s: RequestStatus| value@ != #[trigger] request_status_name(s) by {
            match s {
                RequestStatus::Open => {},
                RequestStatus::Matched => {},
                RequestStatus::Closed => {},
            }
        }
        Err(CoreError::Validation)
    }
}

/// The two kinds of participant.
#[derive(Clone, Copy, Debug, PartialEq, Eq, Structural)]
pub enum UserType {
    Grower,
    Gatherer,
}

/// Reads a user type, ignoring the case of ASCII letters.
pub fn parse_user_type(s: &str) -> (r: Option<UserType>)
    ensures
        r == (if ascii_lower_seq(s@) == "grower"@ {
            Some(UserType::Grower)
        } else if ascii_lower_seq(s@) == "gatherer"@ {
            Some(UserType::Gatherer)
        } else {
            None
        }),
{
    if eq_lowered(s, "grower") {
        Some(UserType::Grower)
    } else if eq_lowered(s, "gatherer") {
        Some(UserType::Gatherer)
    } else {
        None
    }
}

} // verus!
