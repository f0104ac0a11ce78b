//! The identity this CLI binds in the policy library's seat.

use vstd::prelude::*;
use vstd::string::*;

verus! {

/// Low word of the agent slot this CLI binds so the shell check has a workspace root.
pub const HOST_AGENT_LO: u64 = 1;

/// The lowercase hexadecimal digit of value `d` (for `d < 16`).
pub open spec fn hex_digit(d: nat) -> char {
    seq!['0', '1', '2', '3', '4', '5', '6', '7', '8', '9', 'a', 'b', 'c', 'd', 'e', 'f'][d as int]
}

/// The last `n` lowercase hexadecimal digits of `x`, most significant first
/// (zero-padded to width `n`).
pub open spec fn hex_fixed(x: nat, n: nat) -> Seq<char>
    decreases n,
{
    if n == 0 {
        Seq::empty()
    } else {
        hex_fixed(x / 16, (n - 1) as nat).push(hex_digit(x % 16))
    }
}

/// The one-character string of hexadecimal digit `d`.
fn hex_digit_str(d: u64) -> (r: &'static str)
    requires
        d < 16,
    ensures
        r@ == seq![hex_digit(d as nat)],
{
    let table = "0123456789abcdef";
    proof {
        reveal_strlit("0123456789abcdef");
    }
    assert(table@ =~= seq![
        '0', '1', '2', '3', '4', '5', '6', '7', '8', '9', 'a', 'b', 'c', 'd', 'e', 'f'
    ]);
    let i = d as usize;
    let r = table.substring_char(i, i + 1);
    assert(r@ =~= seq![hex_digit(d as nat)]);
    r
}

/// `x` as exactly `n` lowercase hexadecimal digits (its last `n` digits, zero-padded).
pub fn hex_fixed_width(x: u64, n: usize) -> (r: String)
    ensures
        r@ == hex_fixed(x as nat, n as nat),
    decreases n,
{
    if n == 0 {
        String::new()
    } else {
        let mut s = hex_fixed_width(x / 16, n - 1);
        s.append(hex_digit_str(x % 16));
        s
    }
}

/// The agent id bound in the seat: high word 0 and low word [`HOST_AGENT_LO`],
/// each as 16 lowercase hexadecimal digits.
pub fn host_agent_hex() -> (r: String)
    ensures
        r@ == hex_fixed(0, 16) + hex_fixed(HOST_AGENT_LO as nat, 16),
{
    let hi = hex_fixed_width(0, 16);
    let lo = hex_fixed_width(HOST_AGENT_LO, 16);
    hi.concat(lo.as_str())
}

} // verus!
