//! Text building blocks for the hashed material: decimal numerals and
//! comma-joined rosters.

use vstd::prelude::*;
use vstd::string::*;
use crate::digest::{digit_char, digit_str};

verus! {

/// The decimal numeral of `n`, without leading zeros.
pub open spec fn decimal_text(n: nat) -> Seq<char>
    decreases n,
{
    if n < 10 {
        seq![digit_char(n as int)]
    } else {
        decimal_text(n / 10).push(digit_char((n % 10) as int))
    }
}

/// The view of each string, in order.
pub open spec fn texts(names: Seq<String>) -> Seq<Seq<char>> {
    Seq::new(names.len(), |i: int| names[i]@)
}

/// The parts in order with `sep` between neighbours; empty for no parts.
pub open spec fn joined(parts: Seq<Seq<char>>, sep: Seq<char>) -> Seq<char>
    decreases parts.len(),
{
    if parts.len() == 0 {
        Seq::empty()
    } else if parts.len() == 1 {
        parts[0]
    } else {
        joined(parts.drop_last(), sep) + sep + parts.last()
    }
}

/// The separator between the names of a roster.
pub open spec fn comma() -> Seq<char> {
    seq![',']
}

/// Appends the decimal numeral of `n` to `out`.
pub fn append_decimal(out: &mut String, n: u64)
    ensures
        final(out)@ == old(out)@ + decimal_text(n as nat),
    decreases n,
{
    if n < 10 {
        out.append(digit_str(n as u8));
    } else {
        append_decimal(out, n / 10);
        out.append(digit_str((n % 10) as u8));
    }
    assert(out@ =~= old(out)@ + decimal_text(n as nat));
}

/// Joins the names with commas.
pub fn join_names(names: &Vec<String>) -> (out: String)
    ensures
        out@ == joined(texts(names@), comma()),
{
    let mut out = String::new();
    let mut i: usize = 0;
    while i < names.len()
        invariant
            i <= names.len(),
            out@ == joined(texts(names@).take(i as int), comma()),
        decreases names.len() - i,
    {
        if i > 0 {
            out.append(",");
        }
        out.append(names[i].as_str());
        i += 1;
        proof {
            let done = texts(names@).take(i as int);
            assert(done.drop_last() =~= texts(names@).take(i as int - 1));
            assert(done.last() == names@[i as int - 1]@);
            reveal_strlit(",");
            assert(","@ =~= comma());
            assert(out@ =~= joined(done, comma()));
        }
    }
    assert(texts(names@).take(names.len() as int) =~= texts(names@));
    out
}

} // verus!
