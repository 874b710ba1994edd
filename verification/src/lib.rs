//! Normalisation and reconciliation of utility-billing records read from a
//! rendered web page, together with the decision logic of the browser session
//! that reads them.

pub mod amount;
pub mod date;
pub mod error;
pub mod extract;
pub mod navigator;
pub mod payment;
pub mod picker;
pub mod reconcile;
pub mod record;
pub mod text;
