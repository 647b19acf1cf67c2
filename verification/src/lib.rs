//! Deterministic test doubles for byte-stream endpoints.
//!
//! A [`Source`] replays a scripted sequence of read outcomes (data chunks,
//! errors, end-of-stream); a [`Sink`] consumes writes against a scripted
//! sequence of write outcomes and records every byte presented to it.
//! Both are driven by builder-style append methods and inspected afterwards.

mod error;
mod handle;
mod laws;
mod outcome;
mod sink;
mod source;

pub use error::MockError;
pub use handle::OwnedHandle;
pub use laws::{outcome_data, pending_data, read_returned, read_returned_all, read_steps, write_accepted, write_accepted_total, write_steps};
pub use laws::{lemma_accept_limit_drained, lemma_accept_limit_partial, lemma_filled_prefix_is_returned, lemma_log_is_append_only, lemma_read_closed_once, lemma_read_error_not_replayed, lemma_read_step_conserves, lemma_read_step_never_grows, lemma_reads_conserve_data, lemma_reads_return_all_data, lemma_write_closed_once, lemma_write_error_not_replayed, lemma_write_step_never_grows};
pub use outcome::{ReadOutcome, WriteOutcome};
pub use sink::{accept_count, write_log, write_result, write_step, Sink, SinkView};
pub use source::{read_count, read_filled, read_result, read_step, Source};
