//! Streaming line deduplication: emit only the first occurrence of each
//! distinct line, where "distinct" is either full-line equality or equality
//! of the substrings captured by a user-supplied regular expression.

mod driver;
mod exact;
mod laws;
mod pattern;
mod tester;

pub use driver::filter_input;
pub use exact::HashUniqueTester;

pub use laws::is_subsequence;
pub use laws::lemma_empty_input;
pub use laws::lemma_exact_distinct;
pub use laws::lemma_exact_repeat;
pub use laws::lemma_nonmatch_passthrough;
pub use laws::lemma_order_preservation;
pub use pattern::PatternError;
pub use pattern::RegexUniqueTester;
pub use pattern::captures_of;
pub use pattern::fingerprint_of_groups;
pub use pattern::group_text;
pub use pattern::pattern_of;
pub use pattern::pattern_valid;
pub use tester::UniqueTester;
pub use tester::lemma_retained_append;
pub use tester::lemma_retained_single;
pub use tester::retained;
pub use tester::seen_after_all;
pub use tester::step_dup;
pub use tester::step_seen;
