//! Evaluation and scoring engine of a programming-contest platform.
//!
//! Contestants submit solutions to problems; submissions are judged; what
//! the judge finds becomes awards, and awards add up to the scores of
//! problems and of the contest. This library holds the rules of that:
//!
//! - `store`: blobs kept under the hash of their bytes, and their packs;
//! - `score`: ranges, values and grades of scores, and their totals;
//! - `clock`: the status of the contest, from its times and the time now;
//! - `evaluation` and `pipeline`: the events of a judging, the awards they
//!   fold into, and the life of an evaluation;
//! - `contest`, `problem`, `material`, `award`, `content`, `user`,
//!   `queries`, `admin`: the contest and what is shown and asked of it;
//! - `encoding`: base64 and UTF-8.
//!
//! The library decides and computes. Reading and writing, the judge and the
//! authorization gate are its caller's: their answers come in as plain
//! values, and what is to be done goes out as plain values.

pub mod admin;
pub mod award;
pub mod clock;
pub mod content;
pub mod contest;
pub mod encoding;
pub mod evaluation;
pub mod material;
pub mod pipeline;
pub mod problem;
pub mod queries;
pub mod score;
pub mod store;
pub mod user;
