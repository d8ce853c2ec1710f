//! Little-endian byte codec used by every element: the byte sequences that
//! integers become, a reader over a borrowed byte buffer, and the writers that
//! append to a byte vector.
use vstd::prelude::*;

verus! {

/// `256` to the power `n`: the number of values that `n` bytes can hold.
pub open spec fn pow256(n: nat) -> nat
    decreases n,
{
    if n == 0 {
        1
    } else {
        256 * pow256((n - 1) as nat)
    }
}

/// The `n` little-endian bytes of `v` (the bytes above `n` are dropped).
pub open spec fn le_bytes(v: nat, n: nat) -> Seq<u8>
    decreases n,
{
    if n == 0 {
        Seq::empty()
    } else {
        seq![(v % 256) as u8] + le_bytes(v / 256, (n - 1) as nat)
    }
}

/// The number that the little-endian bytes `s` stand for.
pub open spec fn le_value(s: Seq<u8>) -> nat
    decreases s.len(),
{
    if s.len() == 0 {
        0
    } else {
        s[0] as nat + 256 * le_value(s.drop_first())
    }
}

pub proof fn lemma_pow256_values()
    ensures
        pow256(0) == 1,
        pow256(1) == 0x100,
        pow256(2) == 0x1_0000,
        pow256(3) == 0x100_0000,
        pow256(4) == 0x1_0000_0000,
        pow256(8) == 0x1_0000_0000_0000_0000,
{
    reveal_with_fuel(pow256, 9);
}

pub proof fn lemma_pow256_positive(n: nat)
    ensures
        pow256(n) >= 1,
    decreases n,
{
    if n > 0 {
        lemma_pow256_positive((n - 1) as nat);
    }
}

pub proof fn lemma_pow256_monotonic(a: nat, b: nat)
    requires
        a <= b,
    ensures
        pow256(a) <= pow256(b),
    decreases b,
{
    if a < b {
        lemma_pow256_monotonic(a, (b - 1) as nat);
        lemma_pow256_positive((b - 1) as nat);
    }
}

/// `le_bytes(v, n)` has exactly `n` bytes.
pub proof fn lemma_le_bytes_len(v: nat, n: nat)
    ensures
        le_bytes(v, n).len() == n,
    decreases n,
{
    if n > 0 {
        lemma_le_bytes_len(v / 256, (n - 1) as nat);
    }
}

/// The value of `n` bytes is below `256^n`.
pub proof fn lemma_le_value_bound(s: Seq<u8>)
    ensures
        le_value(s) < pow256(s.len()),
    decreases s.len(),
{
    if s.len() > 0 {
        lemma_le_value_bound(s.drop_first());
    }
}

/// Reading back the bytes of a value that fits gives the value.
pub proof fn lemma_le_value_of_bytes(v: nat, n: nat)
    requires
        v < pow256(n),
    ensures
        le_value(le_bytes(v, n)) == v,
    decreases n,
{
    if n > 0 {
        let m = (n - 1) as nat;
        assert(v / 256 < pow256(m)) by {
            assert(v < 256 * pow256(m));
        }
        lemma_le_value_of_bytes(v / 256, m);
        let s = le_bytes(v, n);
        assert(s.drop_first() =~= le_bytes(v / 256, m));
    } else {
        assert(v == 0);
    }
}

/// Writing back the value of some bytes gives the same bytes.
pub proof fn lemma_le_bytes_of_value(s: Seq<u8>)
    ensures
        le_bytes(le_value(s), s.len()) == s,
    decreases s.len(),
{
    if s.len() > 0 {
        let t = s.drop_first();
        lemma_le_bytes_of_value(t);
        let v = le_value(s);
        assert(v % 256 == s[0] as nat);
        assert(v / 256 == le_value(t));
        assert(le_bytes(v, s.len()) =~= seq![s[0]] + t);
        assert(seq![s[0]] + t =~= s);
    } else {
        assert(le_bytes(le_value(s), 0) =~= s);
    }
}

/// Byte `i` of the `n` little-endian bytes of `v` is digit `i` of `v` in
/// base 256: the least significant byte comes first.
pub proof fn lemma_le_bytes_index(v: nat, n: nat, i: int)
    requires
        0 <= i < n,
    ensures
        le_bytes(v, n)[i] == (v / pow256(i as nat)) % 256,
    decreases n,
{
    lemma_le_bytes_len(v / 256, (n - 1) as nat);
    let rest = le_bytes(v / 256, (n - 1) as nat);
    assert(le_bytes(v, n) == seq![(v % 256) as u8] + rest);
    if i == 0 {
        assert(pow256(0) == 1);
        assert(le_bytes(v, n)[0] == (v % 256) as u8);
        assert(v / 1 == v);
    } else {
        assert(le_bytes(v, n)[i] == rest[i - 1]);
        assert(pow256(i as nat) == 256 * pow256((i - 1) as nat));
        lemma_le_bytes_index(v / 256, (n - 1) as nat, i - 1);
        lemma_pow256_positive((i - 1) as nat);
        vstd::arithmetic::div_mod::lemma_div_denominator(
            v as int,
            256,
            pow256((i - 1) as nat) as int,
        );
        assert((v / 256) / pow256((i - 1) as nat) == v / pow256(i as nat));
        assert(rest[i - 1] == ((v / 256) / pow256((i - 1) as nat)) % 256);
    }
}

/// The error a decoder reports: the input ended before the element did.
#[derive(Debug, Clone, Copy, PartialEq, Eq, Structural)]
pub enum ElementError {
    UnexpectedEof,
}

/// A reader over a borrowed byte buffer. Its view is the sequence of bytes
/// that are still to be read.
pub struct ByteReader<'a> {
    data: &'a [u8],
    pos: usize,
}

impl<'a> View for ByteReader<'a> {
    type V = Seq<u8>;

    closed spec fn view(&self) -> Seq<u8> {
        self.data@.subrange(self.pos as int, self.data@.len() as int)
    }
}

impl<'a> ByteReader<'a> {
    #[verifier::type_invariant]
    spec fn inv(self) -> bool {
        self.pos <= self.data@.len()
    }

    /// A reader that yields the bytes of `data`, in order.
    pub fn new(data: &'a [u8]) -> (r: Self)
        ensures
            r@ == data@,
    {
        let r = ByteReader { data, pos: 0 };
        assert(r@ =~= data@);
        r
    }

    /// The number of bytes still to be read.
    pub fn remaining(&self) -> (r: usize)
        ensures
            r == self@.len(),
    {
        proof {
            use_type_invariant(self);
        }
        self.data.len() - self.pos
    }

    /// Reads the next byte, or fails on an empty input without consuming
    /// anything.
    pub fn read_u8(&mut self) -> (r: Result<u8, ElementError>)
        ensures
            old(self)@.len() >= 1 ==> r == Ok::<u8, ElementError>(old(self)@[0]) && final(self)@
                == old(self)@.skip(1),
            old(self)@.len() < 1 ==> r == Err::<u8, ElementError>(ElementError::UnexpectedEof)
                && final(self)@ == old(self)@,
    {
        proof {
            use_type_invariant(&*self);
        }
        if self.pos < self.data.len() {
            let b = self.data[self.pos];
            self.pos = self.pos + 1;
            assert(self@ =~= old(self)@.skip(1));
            Ok(b)
        } else {
            Err(ElementError::UnexpectedEof)
        }
    }

    /// Reads an unsigned integer of `nbytes` little-endian bytes, or fails
    /// without consuming anything when fewer bytes remain.
    pub fn read_uint(&mut self, nbytes: usize) -> (r: Result<u64, ElementError>)
        requires
            1 <= nbytes <= 8,
        ensures
            old(self)@.len() >= nbytes ==> r == Ok::<u64, ElementError>(
                le_value(old(self)@.take(nbytes as int)) as u64,
            ) && final(self)@ == old(self)@.skip(nbytes as int),
            old(self)@.len() < nbytes ==> r == Err::<u64, ElementError>(ElementError::UnexpectedEof)
                && final(self)@ == old(self)@,
            r matches Ok(v) ==> v < pow256(nbytes as nat) && v as nat == le_value(
                old(self)@.take(nbytes as int),
            ),
    {
        proof {
            use_type_invariant(&*self);
        }
        if self.data.len() - self.pos < nbytes {
            return Err(ElementError::UnexpectedEof);
        }
        let ghost s = old(self)@.take(nbytes as int);
        let start = self.pos;
        let mut i = nbytes;
        let mut acc: u64 = 0;
        proof {
            lemma_pow256_values();
            lemma_pow256_monotonic(nbytes as nat, 8);
        }
        while i > 0
            invariant
                0 <= i <= nbytes <= 8,
                start + nbytes <= self.data.len(),
                s == self.data@.subrange(start as int, start + nbytes),
                acc == le_value(s.skip(i as int)),
                acc < pow256((nbytes - i) as nat),
                pow256(8) == 0x1_0000_0000_0000_0000,
            decreases i,
        {
            let b = self.data[start + i - 1];
            proof {
                lemma_pow256_monotonic((nbytes - i + 1) as nat, 8);
                assert(s.skip(i - 1).drop_first() =~= s.skip(i as int));
                assert(s.skip(i - 1)[0] == b);
            }
            acc = b as u64 + 256 * acc;
            i = i - 1;
        }
        self.pos = start + nbytes;
        proof {
            assert(s.skip(0) =~= s);
            assert(self@ =~= old(self)@.skip(nbytes as int));
        }
        Ok(acc)
    }

    /// Reads a little-endian `u16`.
    pub fn read_u16(&mut self) -> (r: Result<u16, ElementError>)
        ensures
            old(self)@.len() >= 2 ==> r == Ok::<u16, ElementError>(
                le_value(old(self)@.take(2)) as u16,
            ) && final(self)@ == old(self)@.skip(2),
            old(self)@.len() < 2 ==> r == Err::<u16, ElementError>(ElementError::UnexpectedEof)
                && final(self)@ == old(self)@,
    {
        proof {
            lemma_pow256_values();
        }
        let ghost input = self@;
        proof {
            if input.len() >= 2 {
                lemma_le_value_bound(input.take(2));
            }
        }
        match self.read_uint(2) {
            Ok(v) => Ok(v as u16),
            Err(e) => Err(e),
        }
    }

    /// Reads a little-endian `u32`.
    pub fn read_u32(&mut self) -> (r: Result<u32, ElementError>)
        ensures
            old(self)@.len() >= 4 ==> r == Ok::<u32, ElementError>(
                le_value(old(self)@.take(4)) as u32,
            ) && final(self)@ == old(self)@.skip(4),
            old(self)@.len() < 4 ==> r == Err::<u32, ElementError>(ElementError::UnexpectedEof)
                && final(self)@ == old(self)@,
    {
        proof {
            lemma_pow256_values();
        }
        let ghost input = self@;
        proof {
            if input.len() >= 4 {
                lemma_le_value_bound(input.take(4));
            }
        }
        match self.read_uint(4) {
            Ok(v) => Ok(v as u32),
            Err(e) => Err(e),
        }
    }

    /// Reads the next `len` bytes into a vector, or fails without consuming
    /// anything when fewer remain.
    pub fn read_blob(&mut self, len: usize) -> (r: Result<Vec<u8>, ElementError>)
        ensures
            old(self)@.len() >= len ==> (r matches Ok(v) && v@ == old(self)@.take(len as int)
                && final(self)@ == old(self)@.skip(len as int)),
            old(self)@.len() < len ==> r == Err::<Vec<u8>, ElementError>(
                ElementError::UnexpectedEof,
            ) && final(self)@ == old(self)@,
    {
        proof {
            use_type_invariant(&*self);
        }
        if self.data.len() - self.pos < len {
            return Err(ElementError::UnexpectedEof);
        }
        let start = self.pos;
        let mut out: Vec<u8> = Vec::new();
        let mut i: usize = 0;
        while i < len
            invariant
                i <= len,
                start + len <= self.data.len(),
                out@ == self.data@.subrange(start as int, start + i),
            decreases len - i,
        {
            out.push(self.data[start + i]);
            i = i + 1;
            assert(out@ =~= self.data@.subrange(start as int, start + i));
        }
        self.pos = start + len;
        assert(out@ =~= old(self)@.take(len as int));
        assert(self@ =~= old(self)@.skip(len as int));
        Ok(out)
    }

    /// Reads every remaining byte.
    pub fn read_to_end(&mut self) -> (r: Vec<u8>)
        ensures
            r@ == old(self)@,
            final(self)@ == Seq::<u8>::empty(),
    {
        proof {
            use_type_invariant(&*self);
        }
        let mut out: Vec<u8> = Vec::new();
        let start = self.pos;
        let end = self.data.len();
        let mut i = start;
        while i < end
            invariant
                start <= i <= end,
                end == self.data@.len(),
                out@ == self.data@.subrange(start as int, i as int),
            decreases end - i,
        {
            out.push(self.data[i]);
            i = i + 1;
            assert(out@ =~= self.data@.subrange(start as int, i as int));
        }
        self.pos = end;
        assert(self@ =~= Seq::<u8>::empty());
        out
    }
}

/// Appends one byte.
pub fn write_u8(write: &mut Vec<u8>, value: u8)
    ensures
        final(write)@ == old(write)@ + seq![value],
{
    write.push(value);
}

/// Appends the `nbytes` little-endian bytes of `value`, which must fit in
/// them.
pub fn write_uint(write: &mut Vec<u8>, value: u64, nbytes: usize)
    requires
        1 <= nbytes <= 8,
        value < pow256(nbytes as nat),
    ensures
        final(write)@ == old(write)@ + le_bytes(value as nat, nbytes as nat),
{
    let mut x = value;
    let mut i: usize = 0;
    while i < nbytes
        invariant
            i <= nbytes,
            old(write)@ + le_bytes(value as nat, nbytes as nat) == write@ + le_bytes(
                x as nat,
                (nbytes - i) as nat,
            ),
        decreases nbytes - i,
    {
        let ghost before = write@;
        let ghost m = (nbytes - i - 1) as nat;
        write.push((x % 256) as u8);
        assert(le_bytes(x as nat, (m + 1) as nat) == seq![(x % 256) as u8] + le_bytes(
            (x / 256) as nat,
            m,
        ));
        assert(before + le_bytes(x as nat, (m + 1) as nat) =~= write@ + le_bytes(
            (x / 256) as nat,
            m,
        ));
        x = x / 256;
        i = i + 1;
    }
    assert(le_bytes(x as nat, 0) =~= Seq::<u8>::empty());
    assert(write@ + le_bytes(x as nat, 0) =~= write@);
}

/// Appends the two little-endian bytes of `value`.
pub fn write_u16(write: &mut Vec<u8>, value: u16)
    ensures
        final(write)@ == old(write)@ + le_bytes(value as nat, 2),
{
    proof {
        lemma_pow256_values();
    }
    write_uint(write, value as u64, 2);
}

/// Appends the four little-endian bytes of `value`.
pub fn write_u32(write: &mut Vec<u8>, value: u32)
    ensures
        final(write)@ == old(write)@ + le_bytes(value as nat, 4),
{
    proof {
        lemma_pow256_values();
    }
    write_uint(write, value as u64, 4);
}

/// Appends all of `data`.
pub fn write_blob(write: &mut Vec<u8>, data: &[u8])
    ensures
        final(write)@ == old(write)@ + data@,
{
    let mut i: usize = 0;
    while i < data.len()
        invariant
            i <= data@.len(),
            write@ == old(write)@ + data@.take(i as int),
        decreases data@.len() - i,
    {
        write.push(data[i]);
        i = i + 1;
        assert(write@ =~= old(write)@ + data@.take(i as int));
    }
    assert(data@.take(data@.len() as int) =~= data@);
}

} // verus!
