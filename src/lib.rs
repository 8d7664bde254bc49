//! A spin mutex: one guarded value and an atomic lock flag, with the
//! acquisition protocol's decisions verified step by step and its
//! safety laws proved over a model of any number of threads.
pub mod model;
pub mod mutex;
pub mod protocol;
