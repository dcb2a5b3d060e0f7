//! Interactive cleanup of git branches: the branch records read from the
//! repository, the selection and navigation state machine that the terminal
//! front end drives, and the decisions behind each branch deletion.

pub mod branch;
pub mod text;
pub mod registry;
pub mod deletion;
pub mod session;
pub mod keys;
pub mod laws;
