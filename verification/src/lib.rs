//! A fixed-size worker pool whose every scheduling decision is verified.
//!
//! The pool is a monitor. [`pool::ThreadPool`] owns the workers' records and
//! the [`queue::JobQueue`] of pending jobs; it decides who may take from the
//! queue, which job a worker gets, and when the owner may stop waiting for a
//! worker. Each of its methods is one event of the transition system in
//! [`model`], and [`laws`] proves what holds of every sequence of events:
//! each job runs exactly once, never more jobs run than there are workers,
//! jobs start in the order they were submitted, and shutdown loses none.
//! The threads that run the jobs live outside this crate and only carry
//! out what the pool decides; [`worker`] holds the cycle of one of them.
//!
//! Around the pool stand the small pieces of the programs that use it:
//! answering a request line ([`http`]), searching a text ([`minigrep`],
//! [`text`]), a guessing game ([`guessing`]), quotas ([`quota`]), posts
//! under review ([`blog`], [`staged_blog`]), and sorting, counting and
//! comparing ([`collections`], [`generics`], [`inventory`], [`list`]).

pub mod adder;
pub mod art;
pub mod averaged;
pub mod blog;
pub mod coins;
pub mod collections;
pub mod generics;
pub mod guessing;
pub mod gui;
pub mod http;
pub mod inventory;
pub mod iterators;
pub mod laws;
pub mod lifetimes;
pub mod list;
pub mod minigrep;
pub mod model;
pub mod numbers;
pub mod operators;
pub mod order;
pub mod ownership;
pub mod pool;
pub mod queue;
pub mod quota;
pub mod restaurant;
pub mod shapes;
pub mod staged_blog;
pub mod summary;
pub mod text;
pub mod users;
pub mod worker;
