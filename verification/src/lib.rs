//! Acquires monthly curtailment tables published on a grid operator's
//! open-data index page: resolves which remote file belongs to which
//! calendar month, selects the months inside a requested interval,
//! reconciles the sources' differing column encodings, and merges them
//! into one table ready to be persisted.

pub mod catalog;
pub mod dates;
pub mod errors;
pub mod filename;
pub mod htmlq;
pub mod paths;
pub mod reconcile;
pub mod textnorm;
