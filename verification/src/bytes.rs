//! Numbers in network byte order.
use vstd::prelude::*;

verus! {

/// The number that bytes spell, most significant byte first.
pub open spec fn be_value(bytes: Seq<u8>) -> nat
    decreases bytes.len(),
{
    if bytes.len() == 0 {
        0
    } else {
        be_value(bytes.drop_last()) * 256 + bytes.last() as nat
    }
}

/// As many bytes spell a number in one way only.
pub proof fn law_spelling_is_unique(a: Seq<u8>, b: Seq<u8>)
    requires
        a.len() == b.len(),
        be_value(a) == be_value(b),
    ensures
        a == b,
    decreases a.len(),
{
    if a.len() > 0 {
        law_spelling_is_unique(a.drop_last(), b.drop_last());
        assert(a =~= a.drop_last().push(a.last()));
        assert(b =~= b.drop_last().push(b.last()));
    } else {
        assert(a =~= b);
    }
}

/// The number that four bytes from `at` on spell.
pub fn read_u32(bytes: &[u8], at: usize) -> (r: u32)
    requires
        at + 4 <= bytes@.len(),
    ensures
        r == be_value(bytes@.subrange(at as int, at + 4)),
{
    let r: u32 = ((bytes[at] as u32 * 256 + bytes[at + 1] as u32) * 256 + bytes[at + 2] as u32)
        * 256 + bytes[at + 3] as u32;
    proof {
        let s = bytes@.subrange(at as int, at + 4);
        reveal_with_fuel(be_value, 5);
        assert(s.drop_last().drop_last().drop_last().drop_last() =~= Seq::<u8>::empty());
    }
    r
}

/// The number that eight bytes from `at` on spell.
pub fn read_u64(bytes: &[u8], at: usize) -> (r: u64)
    requires
        at + 8 <= bytes@.len(),
    ensures
        r == be_value(bytes@.subrange(at as int, at + 8)),
{
    let mut r: u64 = 0;
    let mut i: usize = 0;
    while i < 8
        invariant
            i <= 8,
            at + 8 <= bytes.len(),
            r == be_value(bytes@.subrange(at as int, at + i)),
            i == 0 ==> r == 0,
            i == 1 ==> r < 0x100,
            i == 2 ==> r < 0x1_0000,
            i == 3 ==> r < 0x100_0000,
            i == 4 ==> r < 0x1_0000_0000,
            i == 5 ==> r < 0x100_0000_0000,
            i == 6 ==> r < 0x1_0000_0000_0000,
            i == 7 ==> r < 0x100_0000_0000_0000,
        decreases 8 - i,
    {
        proof {
            let s = bytes@.subrange(at as int, at + i + 1);
            assert(s.drop_last() =~= bytes@.subrange(at as int, at + i));
        }
        r = r * 256 + bytes[at + i] as u64;
        i = i + 1;
    }
    r
}

/// The four bytes that spell a number.
pub fn u32_bytes(value: u32) -> (r: Vec<u8>)
    ensures
        r@.len() == 4,
        be_value(r@) == value,
{
    let mut r: Vec<u8> = Vec::new();
    r.push((value / 0x100_0000) as u8);
    r.push((value / 0x1_0000 % 0x100) as u8);
    r.push((value / 0x100 % 0x100) as u8);
    r.push((value % 0x100) as u8);
    proof {
        reveal_with_fuel(be_value, 5);
        assert(r@.drop_last().drop_last().drop_last().drop_last() =~= Seq::<u8>::empty());
    }
    r
}

} // verus!
