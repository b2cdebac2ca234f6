//! The texts of the progress bars, one bar for each part.

use crate::text::{decimal, decimal_text};
use vstd::prelude::*;

verus! {

/// The template of the progress bar of the part with index `part`. Parts
/// are counted from 1 where they are shown.
pub open spec fn bar_template_text(part: usize) -> Seq<char> {
    "[Part "@ + decimal_text((part + 1) as nat)
        + "] {spinner:.green} [{elapsed_precise}] {bar:60.green/blue} {percent}% {bytes}/{total_bytes} [{binary_bytes_per_sec}] ({eta}) {msg:.green}"@
}

/// The message on the progress bar of the part with index `part` once the
/// part is complete.
pub open spec fn part_complete_text(part: usize) -> Seq<char> {
    "Part "@ + decimal_text((part + 1) as nat) + " complete"@
}

/// The template of the progress bar of the part with index `part`.
pub fn bar_template(part: usize) -> (template: String)
    requires
        part < usize::MAX,
    ensures
        template@ == bar_template_text(part),
{
    let mut template = String::from_str("[Part ");
    template.append(decimal((part + 1) as u64).as_str());
    template.append(
        "] {spinner:.green} [{elapsed_precise}] {bar:60.green/blue} {percent}% {bytes}/{total_bytes} [{binary_bytes_per_sec}] ({eta}) {msg:.green}",
    );
    template
}

/// The message on the progress bar of the part with index `part` once the
/// part is complete.
pub fn part_complete_message(part: usize) -> (message: String)
    requires
        part < usize::MAX,
    ensures
        message@ == part_complete_text(part),
{
    let mut message = String::from_str("Part ");
    message.append(decimal((part + 1) as u64).as_str());
    message.append(" complete");
    message
}

} // verus!
