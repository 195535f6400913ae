//! Wide (16-bit code unit) strings: terminator search and little-endian
//! byte encoding, as used by the wide-string scan.

use vstd::prelude::*;

verus! {

/// Little-endian byte encoding of a sequence of 16-bit code units:
/// each unit contributes its low byte, then its high byte.
pub open spec fn wide_bytes(units: Seq<u16>) -> Seq<u8>
    decreases units.len(),
{
    if units.len() == 0 {
        Seq::empty()
    } else {
        seq![(units[0] % 256) as u8, (units[0] / 256) as u8] + wide_bytes(units.drop_first())
    }
}

/// Index of the first zero unit, or the length when no unit is zero.
pub open spec fn terminator_index(units: Seq<u16>) -> int
    decreases units.len(),
{
    if units.len() == 0 {
        0
    } else if units[0] == 0 {
        0
    } else {
        1 + terminator_index(units.drop_first())
    }
}

/// `terminator_index` is exactly the first position holding zero
/// (or the length, when there is none).
pub proof fn lemma_terminator_index_characterizes(units: Seq<u16>)
    ensures
        0 <= terminator_index(units) <= units.len(),
        forall|j: int| 0 <= j < terminator_index(units) ==> units[j] != 0,
        terminator_index(units) < units.len() ==> units[terminator_index(units)] == 0,
    decreases units.len(),
{
    if units.len() == 0 {
    } else if units[0] == 0 {
    } else {
        lemma_terminator_index_characterizes(units.drop_first());
        let t = terminator_index(units);
        assert forall|j: int| 0 <= j < t implies units[j] != 0 by {
            if j > 0 {
                assert(units.drop_first()[j - 1] == units[j]);
            }
        }
        if t < units.len() {
            assert(units.drop_first()[t - 1] == units[t]);
        }
    }
}

/// Appending one unit extends the encoding by that unit's two bytes.
pub proof fn lemma_wide_bytes_push(units: Seq<u16>, u: u16)
    ensures
        wide_bytes(units.push(u)) == wide_bytes(units) + seq![(u % 256) as u8, (u / 256) as u8],
    decreases units.len(),
{
    if units.len() == 0 {
        assert(units.push(u)[0] == u);
        assert(units.push(u).drop_first() =~= Seq::<u16>::empty());
        assert(wide_bytes(units.push(u)) == seq![(u % 256) as u8, (u / 256) as u8] + wide_bytes(
            Seq::<u16>::empty(),
        ));
        assert(wide_bytes(units.push(u)) =~= seq![(u % 256) as u8, (u / 256) as u8]);
        assert(wide_bytes(units) + seq![(u % 256) as u8, (u / 256) as u8] =~= seq![
            (u % 256) as u8,
            (u / 256) as u8,
        ]);
    } else {
        lemma_wide_bytes_push(units.drop_first(), u);
        assert(units.push(u).drop_first() =~= units.drop_first().push(u));
        assert(units.push(u)[0] == units[0]);
        assert(wide_bytes(units.push(u)) == seq![
            (units[0] % 256) as u8,
            (units[0] / 256) as u8,
        ] + wide_bytes(units.drop_first().push(u)));
        assert(wide_bytes(units) + seq![(u % 256) as u8, (u / 256) as u8] =~= seq![
            (units[0] % 256) as u8,
            (units[0] / 256) as u8,
        ] + (wide_bytes(units.drop_first()) + seq![(u % 256) as u8, (u / 256) as u8]));
    }
}

/// The encoding is twice as long as its source.
pub proof fn lemma_wide_bytes_len(units: Seq<u16>)
    ensures
        wide_bytes(units).len() == 2 * units.len(),
    decreases units.len(),
{
    if units.len() > 0 {
        lemma_wide_bytes_len(units.drop_first());
    }
}

/// Position of the first zero unit in `units`, or its length when no
/// unit is zero.  This is where a terminated wide string ends.
pub fn find_terminator(units: &[u16]) -> (n: usize)
    ensures
        n == terminator_index(units@),
{
    let len = units.len();
    let mut i: usize = 0;
    while i < len
        invariant
            i <= len,
            len == units@.len(),
            forall|j: int| 0 <= j < i ==> units@[j] != 0,
        decreases len - i,
    {
        if units[i] == 0 {
            proof {
                lemma_terminator_index_pinned(units@, i as int);
            }
            return i;
        }
        i += 1;
    }
    proof {
        lemma_terminator_index_pinned(units@, len as int);
    }
    len
}

/// A position before which no unit is zero, and which holds zero or is
/// the end, is `terminator_index`.
proof fn lemma_terminator_index_pinned(units: Seq<u16>, i: int)
    requires
        0 <= i <= units.len(),
        forall|j: int| 0 <= j < i ==> units[j] != 0,
        i < units.len() ==> units[i] == 0,
    ensures
        terminator_index(units) == i,
{
    lemma_terminator_index_characterizes(units);
    let t = terminator_index(units);
    if t < i {
        assert(units[t] != 0);
    }
    if i < t {
        assert(units[i] != 0);
    }
}

/// Little-endian encoding of the first `n` units of `units`.
pub fn encode_wide_prefix(units: &[u16], n: usize) -> (bytes: Vec<u8>)
    requires
        n <= units@.len(),
    ensures
        bytes@ == wide_bytes(units@.take(n as int)),
{
    let mut bytes: Vec<u8> = Vec::new();
    let mut i: usize = 0;
    proof {
        assert(units@.take(0) =~= Seq::<u16>::empty());
    }
    while i < n
        invariant
            i <= n,
            n <= units@.len(),
            bytes@ == wide_bytes(units@.take(i as int)),
        decreases n - i,
    {
        let u = units[i];
        bytes.push((u % 256) as u8);
        bytes.push((u / 256) as u8);
        proof {
            lemma_wide_bytes_push(units@.take(i as int), u);
            assert(units@.take(i + 1) =~= units@.take(i as int).push(units@[i as int]));
        }
        i += 1;
    }
    bytes
}

} // verus!
