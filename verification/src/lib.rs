//! Directory listing as a library: option parsing, ordering and filtering of
//! entries, field formatting and the plain, table and JSON renderings.

pub mod columns;
pub mod entry;
pub mod json;
pub mod listing;
pub mod options;
pub mod order;
pub mod owner;
pub mod permissions;
pub mod plain;
pub mod size;
pub mod table;
pub mod text;
pub mod time;
pub mod tint;
