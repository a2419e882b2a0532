//! Validation of payment-card records: a checksum over the number's digits,
//! a freshness check on the expiration date, a length check on the security
//! code, and the card brand inferred from the number's prefix.
//!
//! [`validate`] decides on one record as of a given month, and
//! [`validate_batch`] filters a batch. [`parse_json`] reads a batch from a
//! JSON document and [`render_report`] writes the accepted records as one.
//! Nothing here contacts an issuer: a record that passes is plausible, not
//! authorised.

pub mod brand;
mod clock;
pub mod digits;
pub mod expiry;
pub mod input;
pub mod json;
pub mod luhn;
pub mod output;
pub mod records;
pub mod validator;

pub use brand::{get_brand, Brand};
pub use expiry::{parse_expiration, YearMonth};
pub use input::{cards_in, parse_json, InputError};
pub use output::{render_report, report_document};
pub use records::{validate_batch, validate_batch_now, Card, ValidatedCard};
pub use validator::{validate, validate_card, Verdict};
