//! Little-endian integers and plain copies in byte buffers.

use vstd::prelude::*;

verus! {

/// The 16-bit little-endian number that starts at `at`.
pub open spec fn le16(s: Seq<u8>, at: int) -> int {
    s[at] + 0x100 * s[at + 1]
}

/// The 32-bit little-endian number that starts at `at`.
pub open spec fn le32(s: Seq<u8>, at: int) -> int {
    s[at] + 0x100 * s[at + 1] + 0x1_0000 * s[at + 2] + 0x100_0000 * s[at + 3]
}

/// The 64-bit little-endian number that starts at `at`.
pub open spec fn le64(s: Seq<u8>, at: int) -> int {
    s[at] + 0x100 * s[at + 1] + 0x1_0000 * s[at + 2] + 0x100_0000 * s[at + 3]
        + 0x1_0000_0000 * s[at + 4] + 0x100_0000_0000 * s[at + 5]
        + 0x1_0000_0000_0000 * s[at + 6] + 0x100_0000_0000_0000 * s[at + 7]
}

/// `new` has the length of `old_bytes` and differs from it at most in `lo..hi`.
pub open spec fn same_outside(old_bytes: Seq<u8>, new: Seq<u8>, lo: int, hi: int) -> bool {
    &&& new.len() == old_bytes.len()
    &&& forall|j: int|
        0 <= j < new.len() && !(lo <= j < hi) ==> #[trigger] new[j] == old_bytes[j]
}

/// Every byte of `s` in `lo..hi` is zero.
pub open spec fn zeroed(s: Seq<u8>, lo: int, hi: int) -> bool {
    forall|j: int| lo <= j < hi ==> #[trigger] s[j] == 0
}

/// `s` with `data` in place of what starts at `at`.
pub open spec fn overwritten(s: Seq<u8>, at: int, data: Seq<u8>) -> Seq<u8> {
    Seq::new(
        s.len(),
        |j: int|
            if at <= j < at + data.len() {
                data[j - at]
            } else {
                s[j]
            },
    )
}

/// Writes a 16-bit number in little-endian order.
pub fn put_u16(storage: &mut [u8], offset: usize, value: u16)
    requires
        offset + 2 <= old(storage)@.len(),
    ensures
        le16(final(storage)@, offset as int) == value,
        same_outside(old(storage)@, final(storage)@, offset as int, offset + 2),
{
    storage[offset] = (value % 0x100) as u8;
    storage[offset + 1] = (value / 0x100) as u8;
}

/// Writes a 32-bit number in little-endian order.
pub fn put_u32(storage: &mut [u8], offset: usize, value: u32)
    requires
        offset + 4 <= old(storage)@.len(),
    ensures
        le32(final(storage)@, offset as int) == value,
        same_outside(old(storage)@, final(storage)@, offset as int, offset + 4),
{
    storage[offset] = (value % 0x100) as u8;
    storage[offset + 1] = (value / 0x100 % 0x100) as u8;
    storage[offset + 2] = (value / 0x1_0000 % 0x100) as u8;
    storage[offset + 3] = (value / 0x100_0000) as u8;
}

/// Writes a 64-bit number in little-endian order.
pub fn put_u64(storage: &mut [u8], offset: usize, value: u64)
    requires
        offset + 8 <= old(storage)@.len(),
    ensures
        le64(final(storage)@, offset as int) == value,
        same_outside(old(storage)@, final(storage)@, offset as int, offset + 8),
{
    assert(offset + 8 <= storage.len());
    put_u32(storage, offset, (value % 0x1_0000_0000) as u32);
    put_u32(storage, offset + 4, (value / 0x1_0000_0000) as u32);
}

/// Sets every byte in `from..to` to zero.
pub fn fill_zero(storage: &mut [u8], from: usize, to: usize)
    requires
        from <= to <= old(storage)@.len(),
    ensures
        zeroed(final(storage)@, from as int, to as int),
        same_outside(old(storage)@, final(storage)@, from as int, to as int),
{
    let mut i: usize = from;
    while i < to
        invariant
            from <= i <= to <= storage@.len(),
            zeroed(storage@, from as int, i as int),
            same_outside(old(storage)@, storage@, from as int, to as int),
        decreases to - i,
    {
        storage[i] = 0;
        i = i + 1;
    }
}

/// Copies `data` into `storage`, starting at `at`.
pub fn copy_into(storage: &mut [u8], at: usize, data: &[u8])
    requires
        at + data@.len() <= old(storage)@.len(),
    ensures
        final(storage)@ == overwritten(old(storage)@, at as int, data@),
        final(storage)@.subrange(at as int, at + data@.len()) == data@,
        same_outside(old(storage)@, final(storage)@, at as int, at + data@.len()),
{
    let n: usize = data.len();
    let total: usize = storage.len();
    let mut i: usize = 0;
    while i < n
        invariant
            i <= n == data@.len(),
            at + n <= storage@.len() == total,
            forall|j: int| at <= j < at + i ==> #[trigger] storage@[j] == data@[j - at],
            same_outside(old(storage)@, storage@, at as int, at + n),
        decreases n - i,
    {
        storage[at + i] = data[i];
        i = i + 1;
    }
    assert(storage@ =~= overwritten(old(storage)@, at as int, data@));
    assert(storage@.subrange(at as int, at + data@.len()) =~= data@);
}

/// The bytes of a number are its digits to the base 256, the lowest first.
pub proof fn numbers_are_stored_lowest_byte_first(s: Seq<u8>, at: int)
    ensures
        s[at] == le16(s, at) % 0x100,
        s[at + 1] == le16(s, at) / 0x100,
        s[at] == le32(s, at) % 0x100,
        s[at + 1] == le32(s, at) / 0x100 % 0x100,
        s[at + 2] == le32(s, at) / 0x1_0000 % 0x100,
        s[at + 3] == le32(s, at) / 0x100_0000,
        s[at] == le64(s, at) % 0x100,
        s[at + 1] == le64(s, at) / 0x100 % 0x100,
        s[at + 2] == le64(s, at) / 0x1_0000 % 0x100,
        s[at + 3] == le64(s, at) / 0x100_0000 % 0x100,
        s[at + 4] == le64(s, at) / 0x1_0000_0000 % 0x100,
        s[at + 5] == le64(s, at) / 0x100_0000_0000 % 0x100,
        s[at + 6] == le64(s, at) / 0x1_0000_0000_0000 % 0x100,
        s[at + 7] == le64(s, at) / 0x100_0000_0000_0000,
{
    let (r6, r5, r4, r3, r2, r1) = rests(s, at);
    let v = le64(s, at);
    lemma_quotient(v, 0x100, r1, s[at] as int);
    lemma_quotient(v, 0x1_0000, r2, s[at] + 0x100 * s[at + 1]);
    lemma_quotient(v, 0x100_0000, r3, s[at] + 0x100 * s[at + 1] + 0x1_0000 * s[at + 2]);
    lemma_quotient(v, 0x1_0000_0000, r4, v - 0x1_0000_0000 * r4);
    lemma_quotient(v, 0x100_0000_0000, r5, v - 0x100_0000_0000 * r5);
    lemma_quotient(v, 0x1_0000_0000_0000, r6, v - 0x1_0000_0000_0000 * r6);
    lemma_quotient(
        v,
        0x100_0000_0000_0000,
        s[at + 7] as int,
        v - 0x100_0000_0000_0000 * s[at + 7],
    );
    lemma_quotient(r1, 0x100, r2, s[at + 1] as int);
    lemma_quotient(r2, 0x100, r3, s[at + 2] as int);
    lemma_quotient(r3, 0x100, r4, s[at + 3] as int);
    lemma_quotient(r4, 0x100, r5, s[at + 4] as int);
    lemma_quotient(r5, 0x100, r6, s[at + 5] as int);
    lemma_quotient(r6, 0x100, s[at + 7] as int, s[at + 6] as int);
}

/// What is left of a number of eight bytes without its lowest six, five, four,
/// three, two and one.
spec fn rests(s: Seq<u8>, at: int) -> (int, int, int, int, int, int) {
    let r6 = s[at + 6] + 0x100 * s[at + 7];
    let r5 = s[at + 5] + 0x100 * r6;
    let r4 = s[at + 4] + 0x100 * r5;
    let r3 = s[at + 3] + 0x100 * r4;
    let r2 = s[at + 2] + 0x100 * r3;
    let r1 = s[at + 1] + 0x100 * r2;
    (r6, r5, r4, r3, r2, r1)
}

proof fn lemma_quotient(v: int, d: int, q: int, r: int)
    requires
        0 <= r < d,
        v == q * d + r,
    ensures
        v / d == q,
        v % d == r,
{
    vstd::arithmetic::div_mod::lemma_fundamental_div_mod_converse(v, d, q, r);
}

/// A number of eight bytes is made of two of four bytes, and each of these of
/// two of two bytes.
pub proof fn numbers_are_made_of_halves(s: Seq<u8>, at: int)
    ensures
        le64(s, at) == le32(s, at) + 0x1_0000_0000 * le32(s, at + 4),
        le32(s, at) == le16(s, at) + 0x1_0000 * le16(s, at + 2),
        le16(s, at) == s[at] + 0x100 * s[at + 1],
{
}

/// Overwriting keeps the length, puts the data in its place and leaves every
/// other byte as it was.
pub proof fn overwriting_spares_the_rest(s: Seq<u8>, at: int, data: Seq<u8>, j: int)
    requires
        0 <= j < s.len(),
    ensures
        overwritten(s, at, data).len() == s.len(),
        at <= j < at + data.len() ==> overwritten(s, at, data)[j] == data[j - at],
        j < at || at + data.len() <= j ==> overwritten(s, at, data)[j] == s[j],
{
}

/// Where at most a range changes, every byte outside it is as it was; in a
/// cleared range every byte is zero.
pub proof fn bytes_outside_a_range_stay(s0: Seq<u8>, s1: Seq<u8>, lo: int, hi: int, j: int)
    requires
        0 <= j < s0.len(),
    ensures
        same_outside(s0, s1, lo, hi) ==> s1.len() == s0.len(),
        same_outside(s0, s1, lo, hi) && (j < lo || hi <= j) ==> s1[j] == s0[j],
        zeroed(s1, lo, hi) && lo <= j < hi ==> s1[j] == 0,
{
}

} // verus!
