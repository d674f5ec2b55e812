//! What holds of the operations of this library, stated of any call of them: of what goes in and what
//! comes out, byte by byte and field by field.
pub mod arriving;
pub mod building;
pub mod codes;
pub mod finding;
pub mod going_on;
pub mod messages;
pub mod searching;
pub mod settings;
pub mod transferring;
pub mod writing;
