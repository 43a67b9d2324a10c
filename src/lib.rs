//! Numeric primitives over sequences: aggregation, trend estimation on an
//! implicit index axis, and elementwise vector arithmetic.
//!
//! Every function is generic over the element type and goes through the
//! standard operator traits, so the same code serves integers, whose
//! arithmetic the verifier knows exactly, and the host's floating-point values.

mod aggregate;
mod trend;
mod vector;

pub use aggregate::{count_of, left_sum, mean, mean_permitted, sum, sum_permitted, zero_of};
pub use trend::{
    arithmetic_total, cross_sum, cross_total, exact_denominator, exact_numerator, index_square_total,
    index_total, lemma_index_denominator_positive, lemma_perfect_line_slope, lemma_slope_of_line,
    position, position_square_sum, position_sum, slope, slope_denominator, slope_in_range,
    slope_numerator, slope_of, slope_step_in_range, value_total, widened,
};
pub use vector::{paired_len, vector_add, vector_subtract};
