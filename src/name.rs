//! Folder names: null-padded byte buffers compared by their logical
//! content.

use vstd::prelude::*;

verus! {

/// Physical size of a folder name buffer, in bytes.
pub const NAME_CAPACITY: usize = 10;

/// The index of the first zero byte of `s` at or after `i`, or `s.len()`
/// when there is none.
pub open spec fn terminator_from(s: Seq<u8>, i: int) -> int
    decreases s.len() - i,
{
    if i >= s.len() {
        s.len() as int
    } else if s[i] == 0 {
        i
    } else {
        terminator_from(s, i + 1)
    }
}

/// The logical content of a null-padded name buffer: its bytes up to the
/// first zero byte, or all of them when none is zero.
pub open spec fn logical_name(s: Seq<u8>) -> Seq<u8> {
    s.take(terminator_from(s, 0))
}

/// Length of the logical content of a name buffer.
pub fn name_len(name: &[u8; NAME_CAPACITY]) -> (r: usize)
    ensures
        r as int == terminator_from(name@, 0),
        r <= NAME_CAPACITY,
        logical_name(name@) == name@.take(r as int),
{
    let mut i: usize = 0;
    while i < NAME_CAPACITY
        invariant
            0 <= i <= NAME_CAPACITY,
            name@.len() == NAME_CAPACITY,
            terminator_from(name@, 0) == terminator_from(name@, i as int),
        decreases NAME_CAPACITY - i,
    {
        if name[i] == 0 {
            return i;
        }
        i = i + 1;
    }
    i
}

/// Whether two name buffers hold the same logical name, whatever bytes
/// follow their terminators.
pub fn same_name(a: &[u8; NAME_CAPACITY], b: &[u8; NAME_CAPACITY]) -> (r: bool)
    ensures
        r == (logical_name(a@) == logical_name(b@)),
{
    let la = name_len(a);
    let lb = name_len(b);
    if la != lb {
        assert(logical_name(a@).len() != logical_name(b@).len());
        return false;
    }
    let mut i: usize = 0;
    while i < la
        invariant
            0 <= i <= la,
            la == lb,
            la <= NAME_CAPACITY,
            a@.len() == NAME_CAPACITY,
            b@.len() == NAME_CAPACITY,
            logical_name(a@) == a@.take(la as int),
            logical_name(b@) == b@.take(lb as int),
            forall|j: int| 0 <= j < i ==> a@[j] == b@[j],
        decreases la - i,
    {
        if a[i] != b[i] {
            assert(logical_name(a@)[i as int] != logical_name(b@)[i as int]);
            return false;
        }
        i = i + 1;
    }
    assert(logical_name(a@) =~= logical_name(b@));
    true
}

/// A name buffer holding `s` left-aligned and zero-padded.
pub open spec fn padded_name(s: Seq<u8>) -> Seq<u8> {
    s + Seq::new((NAME_CAPACITY - s.len()) as nat, |j: int| 0u8)
}

/// Appends the logical content of `name` to `out`.
pub fn push_name(out: &mut Vec<u8>, name: &[u8; NAME_CAPACITY])
    ensures
        final(out)@ == old(out)@ + logical_name(name@),
{
    let len = name_len(name);
    let ghost base = out@;
    let mut i: usize = 0;
    while i < len
        invariant
            0 <= i <= len <= NAME_CAPACITY,
            name@.len() == NAME_CAPACITY,
            out@ == base + name@.take(i as int),
        decreases len - i,
    {
        out.push(name[i]);
        assert(name@.take(i + 1) =~= name@.take(i as int).push(name@[i as int]));
        i = i + 1;
    }
}

} // verus!
