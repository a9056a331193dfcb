//! Parser for EnergyPlus Weather (EPW) files: the eight header lines and the
//! hourly data records that follow them.

pub mod error;
pub mod epw_file;
pub mod text;
pub mod number;
pub mod time;
pub mod header;
pub mod weather_data;

pub use epw_file::EPWFile;
pub use error::EPWParseError;
pub use header::Header;
pub use weather_data::WeatherData;
