//! The error kinds that the library's operations report.

use vstd::prelude::*;

verus! {

/// Why an operation was refused or failed.
#[derive(Clone, Copy, PartialEq, Eq, Structural, Debug)]
pub enum OrderError {
    /// The caller identity is missing or does not match the resource owner.
    AuthDenied,
    /// The requested entity is absent from the store.
    NotFound,
    /// The create-order input was rejected: unknown user, coupon or shipment
    /// method, invalid address, cart mismatch, duplicate or invisible variant.
    InvalidOrderData,
    /// The inventory holds less stock than the order asks for.
    InventoryReservationFailed,
    /// Placement was attempted after the pending window elapsed.
    TimeoutRejected,
    /// A requested order item already has a compensation record.
    AlreadyCompensated,
    /// A federated query returned an error or a malformed response.
    ExternalServiceError,
    /// A durable-store operation failed.
    StorageError,
}

impl OrderError {
    /// A stable, human-readable name of the error kind.
    pub fn kind_name(&self) -> (r: &'static str)
        ensures
            *self == OrderError::AuthDenied ==> r@ == "auth_denied"@,
            *self == OrderError::NotFound ==> r@ == "not_found"@,
            *self == OrderError::InvalidOrderData ==> r@ == "invalid_order_data"@,
            *self == OrderError::InventoryReservationFailed ==> r@ == "inventory_reservation_failed"@,
            *self == OrderError::TimeoutRejected ==> r@ == "timeout_rejected"@,
            *self == OrderError::AlreadyCompensated ==> r@ == "already_compensated"@,
            *self == OrderError::ExternalServiceError ==> r@ == "external_service_error"@,
            *self == OrderError::StorageError ==> r@ == "storage_error"@,
    {
        match self {
            OrderError::AuthDenied => "auth_denied",
            OrderError::NotFound => "not_found",
            OrderError::InvalidOrderData => "invalid_order_data",
            OrderError::InventoryReservationFailed => "inventory_reservation_failed",
            OrderError::TimeoutRejected => "timeout_rejected",
            OrderError::AlreadyCompensated => "already_compensated",
            OrderError::ExternalServiceError => "external_service_error",
            OrderError::StorageError => "storage_error",
        }
    }
}

} // verus!
