//! Direct display output on atomic kernel mode setting.

pub mod assemble;
pub mod assign;
pub mod backend;
pub mod cards;
pub mod color;
pub mod commit;
pub mod config;
pub mod cursor;
pub mod damage;
pub mod devices;
pub mod display;
pub mod error;
pub mod flips;
pub mod formats;
pub mod info;
pub mod matching;
pub mod modes;
pub mod output;
pub mod plan;
pub mod present;
pub mod reports;
pub mod request;
pub mod rounds;
pub mod scanout;
pub mod select;
pub mod session;
pub mod shown;
pub mod surface;
