//! A multi-server IRC client's protocol and text logic, verified.
pub mod text;
pub mod commands;
pub mod format;
pub mod clock;
pub mod util;
pub mod complete;
pub mod numerics;
pub mod model;
pub mod sasl;
pub mod irc;
pub mod session;
pub mod backend;
pub mod profiles;
pub mod logging;
pub mod users;
pub mod ui;
pub mod input;
