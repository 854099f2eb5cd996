//! Factor graphs: the names of their variables, their factors, and the solver.
pub mod names;
pub mod solver;
pub mod factors;
pub mod logger;
