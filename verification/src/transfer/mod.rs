//! File transfers: the tracker of transfer tasks, the decisions of the
//! sending and receiving loops, and the names given to received files.
pub mod flow;
pub mod naming;
pub mod tracker;
