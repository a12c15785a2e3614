//! Compensation functions of transactions.

pub mod compfn;
