//! Decision and text logic of the Rustoki chat bot: each module holds the rules
//! of one feature, with contracts that Verus proves.
pub mod avatar;
pub mod birthday;
pub mod call;
pub mod cleanup;
pub mod commands;
pub mod dm;
pub mod embed_cmd;
pub mod json;
pub mod num;
pub mod pixels;
pub mod quoted;
pub mod rainbow;
pub mod resp;
pub mod roles;
pub mod routing;
pub mod shell;
pub mod startup;
pub mod text;
pub mod timestamps;
pub mod trap;
pub mod upboard;
