pub mod binary64;
pub mod calibration;
pub mod codec;
pub mod control;
pub mod daemon;
pub mod dates;
pub mod error;
pub mod fans;
pub mod fourcc;
pub mod laws;
pub mod margin;
pub mod prepare;
pub mod probe;
pub mod report;
pub mod selection;
pub mod sensors;
pub mod session;
pub mod smc;
pub mod text;
