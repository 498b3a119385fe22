pub use crate::alchemy::standard_units::Temperature;
