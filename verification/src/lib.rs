//! Engine for claiming entries on a points-based giveaway platform.
//!
//! The library covers the three layers with real design content: turning a
//! listing page into structured giveaway records, deciding which records to
//! enter under a points budget, and interpreting the submission endpoint's
//! responses.  All network traffic stays outside the library; every function
//! here is a total, verified computation on plain values.

use vstd::prelude::*;

pub mod account;
pub mod engine;
pub mod markup;
pub mod protocol;
pub mod steamgifts_acc;
pub mod text;
pub mod timespan;

verus! {

/// Failure while turning markup into structured data.  Extraction is strict:
/// a required element that is missing aborts the whole page, since a layout
/// change makes every remaining record equally suspect.
#[derive(Debug, Clone, PartialEq, Eq)]
pub enum ExtractError {
    /// A selector string was not valid CSS.
    SelectorInvalid,
    /// A required element matched nothing.
    ElementMissing,
    /// A required attribute was absent from a matched element.
    AttributeMissing,
    /// A giveaway's title anchor was empty where a display name is required.
    EmptyName,
    /// A giveaway named a copy count of zero where a positive winner count
    /// is required.
    ZeroCopies,
    /// A text fragment held no digit where a number was expected.
    NotNumeric,
    /// A numeric fragment's value does not fit in the balance type.
    NumberTooLarge,
    /// A giveaway path was too short to carry the five-character code.
    MalformedPath,
    /// A remaining-time span did not parse as a duration.
    BadDuration,
}

/// Failure while opening an authenticated session.
#[derive(Debug, Clone, PartialEq, Eq)]
pub enum AuthError {
    /// The landing page exposed no anti-forgery token: the platform's way of
    /// signaling an invalid or expired cookie.
    TokenMissing,
}

/// Failure of one submission attempt.  Local to the attempt: the run skips
/// the record and continues.
#[derive(Debug, Clone, PartialEq, Eq)]
pub enum SubmitError {
    /// The endpoint answered with a status other than 200.
    StatusCode(u16),
    /// The platform rejected the entry for a stated reason.
    Rejected(String),
    /// The response's discriminator was neither success nor error.
    UnknownResponse(String),
    /// The response was not a JSON object of the expected shape.
    MalformedResponse,
}

/// Failure to understand the caller's configuration.
#[derive(Debug, Clone, PartialEq, Eq)]
pub enum ConfigError {
    /// The time-ceiling text did not parse as a duration.
    BadDuration,
}

} // verus!
