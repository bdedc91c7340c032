//! What the signature aggregator computes once the signature files have been
//! read.

use vstd::prelude::*;
use vstd::string::StringExecFns;
use crate::cli::input::{parse_threshold, splits_at, word_outcome};
use crate::text::{decimal_text, push_decimal};

verus! {

/// Whether `count` signatures meet the threshold written as `N-of-M`: the
/// string splits in exactly two at `-of-`, both parts are numbers, `N` is
/// not above `M`, and `count` is at least `N`.  A threshold that is not
/// written so is met by no count.
pub open spec fn meets_threshold(threshold: Seq<char>, count: usize) -> bool {
    exists|i: int|
        splits_at(threshold, i) && (word_outcome(threshold.take(i)) matches Ok(required)
            && word_outcome(threshold.skip(i + 4)) matches Ok(total) && required <= total
            && count >= required)
}

/// What the aggregator prints in text form.
pub open spec fn aggregation_report_text(count: usize, met: bool, output: Seq<char>) -> Seq<char> {
    "Aggregated "@ + decimal_text(count as nat) + " signatures\nThreshold met: "@ + (if met {
        "Yes"@
    } else {
        "No"@
    }) + "\nSaved to: "@ + output + "\n"@
}

/// Whether the number of gathered signatures meets the threshold.  Where no
/// threshold is given, any number does; a threshold that `parse_threshold`
/// refuses is met by none.
pub fn threshold_met(threshold: Option<&str>, signature_count: usize) -> (met: bool)
    ensures
        met == match threshold {
            Some(text) => meets_threshold(text@, signature_count),
            None => true,
        },
{
    match threshold {
        Some(text) => match parse_threshold(text) {
            Ok((required, _)) => signature_count >= required,
            Err(_) => false,
        },
        None => true,
    }
}

/// What the aggregator prints in text form once the signatures are saved.
pub fn format_aggregation_output(signature_count: usize, threshold_met: bool, output_file: &str) -> (text:
    String)
    ensures
        text@ == aggregation_report_text(signature_count, threshold_met, output_file@),
{
    let mut text = "Aggregated ".to_owned();
    push_decimal(&mut text, signature_count as u64);
    text.append(" signatures\nThreshold met: ");
    if threshold_met {
        text.append("Yes");
    } else {
        text.append("No");
    }
    text.append("\nSaved to: ");
    text.append(output_file);
    text.append("\n");
    text
}

} // verus!
