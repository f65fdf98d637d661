//! Prometheus text exposition of the healer's counter.

use vstd::prelude::*;
use crate::strutil::{spec_decimal, u64_to_string};

verus! {

/// The exposition text for the healed-containers counter.
pub open spec fn spec_metrics_text(healed_total: nat) -> Seq<char> {
    "# HELP containers_healed_total Number of containers healed\n"@
        + "# TYPE containers_healed_total counter\n"@ + "containers_healed_total "@
        + spec_decimal(healed_total) + "\n"@
}

/// Renders the healer's counter in the Prometheus exposition format.
pub fn render_metrics(healed_total: u64) -> (s: String)
    ensures
        s@ == spec_metrics_text(healed_total as nat),
{
    let mut s = "# HELP containers_healed_total Number of containers healed\n".to_owned();
    s.append("# TYPE containers_healed_total counter\n");
    s.append("containers_healed_total ");
    let count = u64_to_string(healed_total);
    s.append(count.as_str());
    s.append("\n");
    s
}

} // verus!
