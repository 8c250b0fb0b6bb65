//! Harvesting the contracts of open security contests.
//!
//! A contest listing is a page that carries its data in a script block. This
//! library reads the contests out of such a page, tells which of them are
//! still open, finds the Solidity sources of a contest's repository in the
//! answers of the hosting API, decodes them, resolves import remappings, and
//! takes the deployable bytecode out of what the compiler returns. It sends
//! no request and runs no compiler: the caller does, and hands over what
//! came back. `harvest` tells the caller which step is next.
//!
//! Every function states what it returns over a model of its arguments, and
//! Verus proves that it does. HTML, JSON, timestamps, base64 and hexadecimal
//! are read and written by the crates that are made for it; what is taken on
//! trust of them is stated where they are called.

pub mod artifact;
pub mod contest;
pub mod harvest;
pub mod instant;
pub mod json;
pub mod listing;
pub mod remap;
pub mod repo;
pub mod source;
pub mod text;
