//! The unit shown after the memory reading.
use vstd::prelude::*;

verus! {

/// The unit written after the memory value: "%" when the value is shown as a
/// percentage of the total, else " GB" on a horizontal panel and "GB" on a
/// vertical one.
pub open spec fn memory_unit_text(percentage: bool, vertical_panel: bool) -> Seq<char> {
    if percentage {
        "%"@
    } else if !vertical_panel {
        " GB"@
    } else {
        "GB"@
    }
}

pub fn memory_unit(percentage: bool, vertical_panel: bool) -> (u: &'static str)
    ensures
        u@ == memory_unit_text(percentage, vertical_panel),
{
    if percentage {
        "%"
    } else if !vertical_panel {
        " GB"
    } else {
        "GB"
    }
}

} // verus!
