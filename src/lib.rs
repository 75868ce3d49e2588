//! Client-side synchronisation of a displayed record collection with a
//! remote CRUD service, together with the user records, forms, filters and
//! sorters that drive it.

pub mod access;
pub mod auth_forms;
pub mod chain;
pub mod errors;
pub mod form;
pub mod ledger;
pub mod list;
pub mod pending;
pub mod records;
pub mod render;
pub mod sort;
pub mod user_list;
pub mod users;
