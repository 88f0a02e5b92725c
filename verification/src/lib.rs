//! Bow model data, its validation and the migration of older bow files.
pub mod binary64;
pub mod rounding;
pub mod arithmetic;
pub mod division;
pub mod errors;
pub mod validation;
pub mod validity;
pub mod model;
pub mod joint;
pub mod geometry;
pub mod output;
pub mod version4;
pub mod legacy_symmetric;
pub mod compatibility;
pub mod simulation;
