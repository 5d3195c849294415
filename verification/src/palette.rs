//! The shading table.
//!
//! A palette maps an escape count in `[0, max_iterations]` to an 8-bit
//! grayscale luminance.  Its entries stand for the intensity
//! `(count / max_iterations) ^ gamma` scaled to 8 bits, with a
//! gamma in `(0, 1]`, so they are forced to rise monotonically from 0
//! (an immediate escape renders black) to 255 (a point that never
//! escapes renders brightest).  The table itself is supplied by the
//! caller, which keeps the shading exponent out of the verified core
//! while pinning every property the renderer relies on.

use vstd::prelude::*;

verus! {

/// What a well-formed shading table for cap `n` is: one entry per
/// possible count, 0 at count 0, 255 at count `n`, monotone throughout.
pub open spec fn palette_wf(levels: Seq<u8>, n: nat) -> bool {
    &&& levels.len() == n + 1
    &&& levels[0] == 0
    &&& levels[n as int] == 255
    &&& forall|i: int, j: int| 0 <= i <= j <= n ==> levels[i] <= levels[j]
}

/// A shading table, valid for the iteration cap it was built for.
#[derive(Clone, Debug)]
pub struct Palette {
    /// Luminance per escape count; index by the count.
    pub levels: Vec<u8>,
}

impl Palette {
    /// Whether this palette fits iteration cap `n`.
    pub open spec fn wf(self, n: nat) -> bool {
        palette_wf(self.levels@, n)
    }

    /// Accepts `levels` as the shading table for cap `max_iterations`
    /// iff it is well formed: `max_iterations + 1` entries that rise
    /// monotonically from 0 to 255.
    pub fn from_levels(levels: Vec<u8>, max_iterations: u32) -> (r: Option<Palette>)
        ensures
            (r is Some) <==> palette_wf(levels@, max_iterations as nat),
            r matches Some(p) ==> p.levels@ == levels@ && p.wf(max_iterations as nat),
    {
        let want: u64 = max_iterations as u64 + 1;
        if levels.len() as u64 != want {
            return None;
        }
        if levels[0] != 0 {
            return None;
        }
        if levels[max_iterations as usize] != 255 {
            return None;
        }
        let mut k: usize = 0;
        while k < levels.len() - 1
            invariant
                k < levels@.len(),
                levels@.len() == max_iterations + 1,
                forall|i: int| 0 <= i < k ==> #[trigger] levels@[i] <= levels@[i + 1],
            decreases levels@.len() - k,
        {
            if levels[k] > levels[k + 1] {
                proof {
                    assert(!palette_wf(levels@, max_iterations as nat));
                }
                return None;
            }
            k = k + 1;
        }
        proof {
            lemma_adjacent_monotone(levels@);
        }
        Some(Palette { levels })
    }
}

/// A table whose adjacent entries never descend is monotone outright.
proof fn lemma_adjacent_monotone(s: Seq<u8>)
    requires
        forall|i: int| 0 <= i < s.len() - 1 ==> #[trigger] s[i] <= s[i + 1],
    ensures
        forall|i: int, j: int| 0 <= i <= j < s.len() ==> s[i] <= s[j],
{
    assert forall|i: int, j: int| 0 <= i <= j < s.len() implies s[i] <= s[j] by {
        lemma_run_monotone(s, i, j);
    }
}

proof fn lemma_run_monotone(s: Seq<u8>, i: int, j: int)
    requires
        forall|k: int| 0 <= k < s.len() - 1 ==> #[trigger] s[k] <= s[k + 1],
        0 <= i <= j < s.len(),
    ensures
        s[i] <= s[j],
    decreases j - i,
{
    if i < j {
        lemma_run_monotone(s, i, j - 1);
        assert(s[j - 1] <= s[j]);
    }
}

} // verus!
