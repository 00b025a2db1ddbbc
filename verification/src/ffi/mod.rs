//! The macOS process-information records and the pure parts of reading
//! them: states, descriptor kinds, socket addresses, the environment
//! buffer and error mapping.
pub mod raw;
pub mod process;
pub mod procargs;
