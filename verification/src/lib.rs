//! Dense matrix multiplication split into independent inner-product tasks.
//!
//! A product of two matrices is computed cell by cell: every output cell is one
//! task, tasks are routed to a fixed number of workers by their index, and the
//! replies are assembled by index into the result.
//!
//! `multiply` runs that pipeline on a pool inside the library and is proved to
//! return the product, whatever the number of workers is. `dispatch` and
//! `collect` run its two phases over the queues and reply channels of workers
//! that live elsewhere; each worker serves an envelope with `Msg::serve`. What
//! travels through a channel is outside what can be proved here, so for that
//! path the proof is conditional: replies that answer their tasks assemble to
//! the product.
//!
//! `Metrics` is a store of event counts shared between threads.

pub mod error;
pub mod matrix;
pub mod metrics;
pub mod multiply;
pub mod pool;
pub mod queues;
pub mod task;
pub mod text;
pub mod vector;

pub use error::Error;
pub use matrix::{render_cells, Matrix, MatrixView};
pub use metrics::{next_count, render_lines, Metrics};
pub use multiply::{envelope, multiply, multiply_with, place};
pub use pool::{route, Pool, NUM_THREADS};
pub use queues::{collect, dispatch};
pub use task::{await_reply, delivered, received, Msg, MsgInput, MsgOutput};
pub use vector::{dot_product, Vector};
