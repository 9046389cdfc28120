//! Verified core of a single-page crypto portfolio tracker: the chain and
//! quote-source catalogue, quote request planning, JSON price extraction,
//! price-history range selection and a few display decisions.

pub mod catalog;
pub mod display;
pub mod history;
pub mod json;
pub mod quotes;
pub mod text;
