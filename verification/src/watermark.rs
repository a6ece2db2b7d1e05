use vstd::prelude::*;
use vstd::string::StringExecFns;

verus! {

/// The character of bit `k` of `n`, counting bit 0 as the most
/// significant of eight.
pub open spec fn bit_char(n: u32, k: int) -> char {
    if (n >> (7 - k) as u32) & 1u32 == 1u32 {
        '1'
    } else {
        '0'
    }
}

/// The eight-character binary rendering of `n`: most significant bit
/// first, zero-padded.
pub open spec fn binary8(n: u32) -> Seq<char> {
    Seq::new(8, |k: int| bit_char(n, k))
}

/// Format a sequence index as exactly eight binary digits, most
/// significant bit first, zero-padded. Indices of 256 and above are out
/// of contract and are excluded rather than silently truncated.
#[verifier::loop_isolation(false)]
pub fn format_binary8(n: u32) -> (s: String)
    requires
        n < 256,
    ensures
        s@ == binary8(n),
        s@.len() == 8,
{
    let mut s = String::new();
    let mut k: usize = 0;
    while k < 8
        invariant
            k <= 8,
            s@.len() == k,
            forall|j: int| 0 <= j < k ==> s@[j] == bit_char(n, j),
        decreases 8 - k,
    {
        let shift: u32 = (7 - k) as u32;
        let bit: u32 = (n >> shift) & 1;
        if bit == 1 {
            s.append("1");
            proof {
                reveal_strlit("1");
            }
        } else {
            s.append("0");
            proof {
                reveal_strlit("0");
            }
        }
        k = k + 1;
    }
    proof {
        assert(s@ =~= binary8(n));
    }
    s
}

} // verus!
