//! The status texts shown on the display: scan progress, the final unique
//! count, and the free-space report. Rendering pixels is the display
//! driver's business; the exact wording is fixed here.

use vstd::prelude::*;
use vstd::string::StringExecFns;

use crate::text::{spec_dec, u64_to_dec};

verus! {

/// The remaining-time line of a scan status update.
pub fn time_left_text(seconds: u64) -> (text: String)
    ensures
        text@ == "Time left: "@ + spec_dec(seconds as nat) + "s"@,
{
    let mut text = String::from_str("Time left: ");
    let digits = u64_to_dec(seconds);
    text.append(digits.as_str());
    text.append("s");
    text
}

/// The unique-count line of a scan status update.
pub fn macs_found_text(count: u64) -> (text: String)
    ensures
        text@ == "MACs found: "@ + spec_dec(count as nat),
{
    let mut text = String::from_str("MACs found: ");
    let digits = u64_to_dec(count);
    text.append(digits.as_str());
    text
}

/// The line shown once a scan session is over.
pub fn final_count_text(count: u64) -> (text: String)
    ensures
        text@ == "Found "@ + spec_dec(count as nat) + " MACs"@,
{
    let mut text = String::from_str("Found ");
    let digits = u64_to_dec(count);
    text.append(digits.as_str());
    text.append(" MACs");
    text
}

/// The two lines of the free-space report: total and used bytes.
pub fn size_report_lines(total_bytes: u64, used_bytes: u64) -> (lines: Vec<String>)
    ensures
        lines@.len() == 2,
        lines@[0]@ == "Total: "@ + spec_dec(total_bytes as nat) + " bytes"@,
        lines@[1]@ == "Used: "@ + spec_dec(used_bytes as nat) + " bytes"@,
{
    let mut total_line = String::from_str("Total: ");
    let total_digits = u64_to_dec(total_bytes);
    total_line.append(total_digits.as_str());
    total_line.append(" bytes");
    let mut used_line = String::from_str("Used: ");
    let used_digits = u64_to_dec(used_bytes);
    used_line.append(used_digits.as_str());
    used_line.append(" bytes");
    let mut lines: Vec<String> = Vec::new();
    lines.push(total_line);
    lines.push(used_line);
    lines
}

} // verus!
