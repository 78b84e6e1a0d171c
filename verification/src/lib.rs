//! Font selection: CSS-style family-name matching over a platform font
//! catalog, plus the exact piecewise-linear scale conversion used to map
//! property values between the CSS scale and a platform-native scale.

pub mod error;
pub mod family_handle;
pub mod family_name;
pub mod handle;
pub mod matching;
pub mod properties;
pub mod rational;
pub mod scale;
pub mod source;
pub mod sources;
