//! Byte-level formatting helpers for the records the library hands out:
//! decimal rendering of counters and sizes, and separator joins.
use vstd::prelude::*;

verus! {

use crate::strlist::null_free;

/// ASCII space.
pub const SP: u8 = 32;

/// ASCII colon.
pub const COLON: u8 = 58;

/// ASCII semicolon.
pub const SEMICOLON: u8 = 59;

/// ASCII digit zero.
pub const DIGIT0: u8 = 48;

/// Decimal digits of `n`, most significant first, as ASCII bytes.
pub open spec fn dec_seq(n: nat) -> Seq<u8>
    decreases n,
{
    if n < 10 {
        seq![(48 + n) as u8]
    } else {
        dec_seq(n / 10) + seq![(48 + n % 10) as u8]
    }
}

/// Every decimal digit is an ASCII digit, so rendered numbers are null-free.
pub proof fn lemma_dec_seq_digits(n: nat)
    ensures
        forall|i: int| 0 <= i < dec_seq(n).len() ==> 48 <= #[trigger] dec_seq(n)[i] <= 57,
        null_free(dec_seq(n)),
    decreases n,
{
    if n >= 10 {
        lemma_dec_seq_digits(n / 10);
    }
}

/// Append the decimal rendering of `n` to `out`.
pub fn push_dec(out: &mut Vec<u8>, n: u64)
    ensures
        final(out)@ == old(out)@ + dec_seq(n as nat),
    decreases n,
{
    if n >= 10 {
        push_dec(out, n / 10);
        out.push(48 + (n % 10) as u8);
        proof {
            assert(out@ =~= old(out)@ + dec_seq(n as nat));
        }
    } else {
        out.push(48 + n as u8);
        proof {
            assert(out@ =~= old(out)@ + dec_seq(n as nat));
        }
    }
}

/// The decimal rendering of `n` on its own.
pub fn u64_to_dec(n: u64) -> (r: Vec<u8>)
    ensures
        r@ == dec_seq(n as nat),
{
    let mut out: Vec<u8> = Vec::new();
    push_dec(&mut out, n);
    proof {
        assert(out@ =~= dec_seq(n as nat));
    }
    out
}

/// `parts` joined by the single byte `sep`, in order.
pub open spec fn join_sep(parts: Seq<Seq<u8>>, sep: u8) -> Seq<u8>
    decreases parts.len(),
{
    if parts.len() == 0 {
        Seq::empty()
    } else if parts.len() == 1 {
        parts[0]
    } else {
        join_sep(parts.drop_last(), sep) + seq![sep] + parts.last()
    }
}

/// Append `parts` joined by `sep` to `out`.
pub fn push_joined(out: &mut Vec<u8>, parts: &Vec<Vec<u8>>, sep: u8)
    ensures
        final(out)@ == old(out)@ + join_sep(parts@.map_values(|p: Vec<u8>| p@), sep),
{
    let ghost pseq = parts@.map_values(|p: Vec<u8>| p@);
    let n = parts.len();
    let mut i: usize = 0;
    while i < n
        invariant
            n == parts@.len(),
            i <= n,
            pseq == parts@.map_values(|p: Vec<u8>| p@),
            out@ == old(out)@ + join_sep(pseq.take(i as int), sep),
        decreases n - i,
    {
        if i > 0 {
            out.push(sep);
        }
        let part = &parts[i];
        out.extend_from_slice(part.as_slice());
        proof {
            assert(pseq.take(i + 1).drop_last() =~= pseq.take(i as int));
            assert(pseq.take(i + 1).last() == pseq[i as int]);
            if i == 0 {
                assert(join_sep(pseq.take(1), sep) == pseq[0]);
                assert(out@ =~= old(out)@ + join_sep(pseq.take(i + 1), sep));
            } else {
                assert(out@ =~= old(out)@ + join_sep(pseq.take(i + 1), sep));
            }
        }
        i = i + 1;
    }
    proof {
        assert(pseq.take(n as int) =~= pseq);
    }
}

} // verus!
