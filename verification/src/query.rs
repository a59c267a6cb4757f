use vstd::prelude::*;

use crate::monitor::Point;

verus! {

/// The pixel size of a monitor whose rectangle has the given bounds, as the
/// OS reports them: `left <= right` and `top <= bottom` for any attached
/// monitor's rectangle.
pub fn monitor_size(left: i32, top: i32, right: i32, bottom: i32) -> (r: (u32, u32))
    requires
        left <= right,
        top <= bottom,
    ensures
        r.0 == right - left,
        r.1 == bottom - top,
{
    (((right as i64 - left as i64) as u32), ((bottom as i64 - top as i64) as u32))
}

/// A display mode's vertical refresh rate in millihertz, from the whole
/// hertz value the OS reports.
pub fn frequency_to_millihertz(hertz: u32) -> (r: u32)
    requires
        hertz * 1000 <= u32::MAX,
    ensures
        r == hertz * 1000,
{
    hertz * 1000
}

/// The fail-soft position rule of enumeration: a monitor whose rectangle
/// could not be queried is reported at the origin rather than aborting the
/// enumeration.
pub fn position_or_origin(queried: Option<Point>) -> (r: Point)
    ensures
        match queried {
            Some(p) => r == p,
            None => r.x == 0 && r.y == 0,
        },
{
    match queried {
        Some(p) => p,
        None => Point { x: 0, y: 0 },
    }
}

/// The fail-soft DPI rule: a monitor whose effective DPI the system cannot
/// report — the per-monitor DPI query may be absent or may fail — is treated
/// as having the baseline DPI, that is, a scale factor of exactly one.
pub fn dpi_or_baseline(queried: Option<u32>) -> (r: u32)
    ensures
        match queried {
            Some(dpi) => r == dpi,
            None => r == crate::BASE_DPI,
        },
{
    match queried {
        Some(dpi) => dpi,
        None => crate::BASE_DPI,
    }
}

/// The index of the first nul unit in a wide string, or its length when none
/// occurs: the prefix before it is the string's content.
pub open spec fn first_nul(s: Seq<u16>) -> int
    decreases s.len(),
{
    if s.len() == 0 {
        0
    } else if s[0] == 0 {
        0
    } else {
        1 + first_nul(s.drop_first())
    }
}

/// `first_nul` points at the first nul: everything before it is non-nul, and
/// it is either a nul unit or the end of the string.
pub proof fn lemma_first_nul(s: Seq<u16>)
    ensures
        0 <= first_nul(s) <= s.len(),
        forall|j: int| 0 <= j < first_nul(s) ==> s[j] != 0,
        first_nul(s) < s.len() ==> s[first_nul(s)] == 0,
    decreases s.len(),
{
    if s.len() > 0 && s[0] != 0 {
        lemma_first_nul(s.drop_first());
        assert forall|j: int| 0 <= j < first_nul(s) implies s[j] != 0 by {
            if j > 0 {
                assert(s.drop_first()[j - 1] == s[j]);
                assert(s.drop_first()[j - 1] != 0);
            }
        }
    }
}

/// The content of a nul-terminated wide string: its units up to, and not
/// including, the first nul; the whole buffer when no nul occurs.
pub fn wide_prefix_before_nul(wide: &[u16]) -> (r: Vec<u16>)
    ensures
        r@ == wide@.take(first_nul(wide@)),
{
    proof {
        lemma_first_nul(wide@);
    }
    let n = wide.len();
    let mut out: Vec<u16> = Vec::new();
    let mut i: usize = 0;
    while i < n
        invariant
            n == wide@.len(),
            0 <= i <= n,
            out@ =~= wide@.take(i as int),
            forall|j: int| 0 <= j < i ==> wide@[j] != 0,
            0 <= first_nul(wide@) <= wide@.len(),
            forall|j: int| 0 <= j < first_nul(wide@) ==> wide@[j] != 0,
            first_nul(wide@) < wide@.len() ==> wide@[first_nul(wide@)] == 0,
            i <= first_nul(wide@),
        decreases n - i,
    {
        if wide[i] == 0 {
            proof {
                assert(first_nul(wide@) == i as int) by {
                    if first_nul(wide@) > i as int {
                        assert(wide@[i as int] != 0);
                    }
                }
                assert(out@ =~= wide@.take(first_nul(wide@)));
            }
            return out;
        }
        out.push(wide[i]);
        i = i + 1;
    }
    proof {
        assert(first_nul(wide@) == wide@.len());
        assert(out@ =~= wide@.take(first_nul(wide@)));
    }
    out
}

} // verus!
