//! Byte counts as the lists and reports show them.

use vstd::prelude::*;

verus! {

/// The decimal digits of `n`.
pub open spec fn decimal(n: nat) -> Seq<char>
    decreases n,
{
    if n < 10 {
        seq![(('0' as u32) + n) as char]
    } else {
        decimal(n / 10).push((('0' as u32) + n % 10) as char)
    }
}

/// What `bytesize` writes for `n` bytes.
pub uninterp spec fn byte_size_text(n: u64) -> Seq<char>;

/// `ByteSize(n).to_string()` of bytesize: below 1000 bytes, the count
/// followed by " B"; from 1000 on, the count in the largest decimal unit
/// (KB, MB, ...) that it reaches, with one decimal, as the crate's floating
/// point arithmetic rounds it (that part is not stated).
#[verifier::external_body]
fn byte_size(n: u64) -> (r: String)
    ensures
        r@ == byte_size_text(n),
        n < 1000 ==> r@ == decimal(n as nat) + " B"@,
{
    bytesize::ByteSize(n).to_string()
}

/// `n` bytes as shown to the user: below 1000 bytes, the count and " B".
pub fn size_text(n: u64) -> (r: String)
    ensures
        r@ == byte_size_text(n),
        n < 1000 ==> r@ == decimal(n as nat) + " B"@,
{
    byte_size(n)
}

} // verus!
