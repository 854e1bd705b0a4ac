//! The public tunnel helper's announcement.

use vstd::prelude::*;
use crate::text::same_text;

verus! {

/// The first line the tunnel helper prints when it is ready.
pub const FUNNEL_BANNER: &'static str = "Available on the internet:";

/// What is reported when the helper's output cannot be read.
pub const FUNNEL_UNEXPECTED: &'static str = "unexpected output from tailscale binary";

/// The helper announced itself as expected: the banner, then an empty line.
pub open spec fn funnel_ready(line1: Seq<char>, line2: Seq<char>) -> bool {
    line1 == FUNNEL_BANNER@ && line2.len() == 0
}

/// What the first three lines of the helper's output mean: the message
/// that announces the public URL (the third line), or the failure to
/// report before shutting down. A missing line is a failure too.
pub fn funnel_report(line1: Option<&str>, line2: Option<&str>, line3: Option<&str>) -> (r: Result<
    String,
    String,
>)
    ensures
        (line1 is None || line2 is None || line3 is None) ==> (r matches Err(m) && m@
            == FUNNEL_UNEXPECTED@),
        (line1 is Some && line2 is Some && line3 is Some) ==> {
            let (l1, l2, l3) = (line1->0@, line2->0@, line3->0@);
            &&& funnel_ready(l1, l2) ==> (r matches Ok(m) && m@ == "funnelled at "@ + l3)
            &&& !funnel_ready(l1, l2) ==> (r matches Err(m) && m@ == FUNNEL_UNEXPECTED@
                + ":\n> "@ + l1 + "\n> "@ + l2)
        },
{
    match (line1, line2, line3) {
        (Some(l1), Some(l2), Some(l3)) => {
            if same_text(l1, FUNNEL_BANNER) && l2.is_empty() {
                let mut m = String::from_str("funnelled at ");
                m.append(l3);
                Ok(m)
            } else {
                let mut m = String::from_str(FUNNEL_UNEXPECTED);
                m.append(":\n> ");
                m.append(l1);
                m.append("\n> ");
                m.append(l2);
                Err(m)
            }
        },
        _ => Err(String::from_str(FUNNEL_UNEXPECTED)),
    }
}

} // verus!
