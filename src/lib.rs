pub mod clientbound;
pub mod datatypes;
pub mod protocol;
pub mod serverbound;
