//! SHA-1 over byte sequences, proved equal to its mathematical definition.

use vstd::prelude::*;

verus! {

/// The five 32-bit words of SHA-1's chaining state.
pub type State = (u32, u32, u32, u32, u32);

/// Addition modulo 2^32.
pub open spec fn add32(x: u32, y: u32) -> u32 {
    ((x as int + y as int) % 0x1_0000_0000) as u32
}

/// Left rotation of a word by `n` bits, for `0 < n < 32`.
pub open spec fn rotl(x: u32, n: u32) -> u32 {
    (x << n) | (x >> ((32 - n) as u32))
}

/// The initial chaining state.
pub open spec fn initial_state() -> State {
    (0x67452301u32, 0xEFCDAB89u32, 0x98BADCFEu32, 0x10325476u32, 0xC3D2E1F0u32)
}

/// Number of zero bytes that follow the `0x80` marker for a message of `len` bytes,
/// so that the padded length before the length field is 56 modulo 64.
pub open spec fn zero_fill(len: nat) -> nat {
    ((119 - (len % 64) as int) % 64) as nat
}

/// The big-endian bytes of a 64-bit value.
pub open spec fn be_u64(x: u64) -> Seq<u8> {
    Seq::new(8, |k: int| (x >> ((56 - 8 * k) as u64)) as u8)
}

/// The message followed by the `0x80` marker, the zero fill and its bit length.
pub open spec fn padded(m: Seq<u8>) -> Seq<u8> {
    m + seq![0x80u8] + Seq::new(zero_fill(m.len()), |i: int| 0u8) + be_u64((m.len() * 8) as u64)
}

/// The big-endian 32-bit word that starts at byte `j`.
pub open spec fn be_word(b: Seq<u8>, j: int) -> u32 {
    ((b[j] as u32) << 24u32) | ((b[j + 1] as u32) << 16u32) | ((b[j + 2] as u32) << 8u32)
        | (b[j + 3] as u32)
}

/// Word `i` of the 80-word message schedule of a 64-byte block.
pub open spec fn schedule_word(block: Seq<u8>, i: nat) -> u32
    decreases i,
{
    if i < 16 {
        be_word(block, 4 * i as int)
    } else {
        rotl(
            schedule_word(block, (i - 3) as nat) ^ schedule_word(block, (i - 8) as nat)
                ^ schedule_word(block, (i - 14) as nat) ^ schedule_word(block, (i - 16) as nat),
            1,
        )
    }
}

/// The nonlinear function of round `i`.
pub open spec fn round_fn(i: nat, b: u32, c: u32, d: u32) -> u32 {
    if i < 20 {
        (b & c) | (!b & d)
    } else if i < 40 {
        b ^ c ^ d
    } else if i < 60 {
        (b & c) | (b & d) | (c & d)
    } else {
        b ^ c ^ d
    }
}

/// The additive constant of round `i`.
pub open spec fn round_const(i: nat) -> u32 {
    if i < 20 {
        0x5A827999u32
    } else if i < 40 {
        0x6ED9EBA1u32
    } else if i < 60 {
        0x8F1BBCDCu32
    } else {
        0xCA62C1D6u32
    }
}

/// One round applied to the working variables, with schedule word `w`.
pub open spec fn round(s: State, i: nat, w: u32) -> State {
    let t = add32(add32(add32(add32(rotl(s.0, 5), round_fn(i, s.1, s.2, s.3)), s.4), round_const(i)), w);
    (t, s.0, rotl(s.1, 30), s.2, s.3)
}

/// The working variables after the first `n` rounds over `block`.
pub open spec fn rounds(s: State, block: Seq<u8>, n: nat) -> State
    decreases n,
{
    if n == 0 {
        s
    } else {
        round(rounds(s, block, (n - 1) as nat), (n - 1) as nat, schedule_word(block, (n - 1) as nat))
    }
}

/// The chaining state after one 64-byte block.
pub open spec fn compress(h: State, block: Seq<u8>) -> State {
    let s = rounds(h, block, 80);
    (add32(h.0, s.0), add32(h.1, s.1), add32(h.2, s.2), add32(h.3, s.3), add32(h.4, s.4))
}

/// The chaining state after the first `n` blocks of `data`.
pub open spec fn process_blocks(h: State, data: Seq<u8>, n: nat) -> State
    decreases n,
{
    if n == 0 {
        h
    } else {
        compress(process_blocks(h, data, (n - 1) as nat), data.subrange(64 * (n - 1), 64 * n as int))
    }
}

/// The big-endian bytes of a word.
pub open spec fn be_u32(x: u32) -> Seq<u8> {
    seq![(x >> 24u32) as u8, (x >> 16u32) as u8, (x >> 8u32) as u8, x as u8]
}

/// The 20 bytes of a chaining state.
pub open spec fn state_bytes(h: State) -> Seq<u8> {
    be_u32(h.0) + be_u32(h.1) + be_u32(h.2) + be_u32(h.3) + be_u32(h.4)
}

/// The SHA-1 digest of a message.
pub open spec fn sha1_spec(m: Seq<u8>) -> Seq<u8> {
    let p = padded(m);
    state_bytes(process_blocks(initial_state(), p, p.len() / 64))
}

/// A message is short enough when its bit length fits the 64-bit length field
/// and its padded copy fits in memory.
pub open spec fn hashable(len: nat) -> bool {
    len * 8 <= u64::MAX && len + 72 <= usize::MAX
}

fn add32_exec(x: u32, y: u32) -> (r: u32)
    ensures
        r == add32(x, y),
{
    x.wrapping_add(y)
}

fn rotl_exec(x: u32, n: u32) -> (r: u32)
    requires
        0 < n < 32,
    ensures
        r == rotl(x, n),
{
    (x << n) | (x >> (32 - n))
}

proof fn lemma_padded_len(n: nat)
    ensures
        (n + 9 + zero_fill(n)) % 64 == 0,
{
    let r = n % 64;
    assert(n == 64 * (n / 64) + r) by (nonlinear_arith)
        requires r == n % 64;
    if r <= 55 {
        assert(zero_fill(n) == 55 - r);
        assert(n + 9 + zero_fill(n) == 64 * (n / 64 + 1));
    } else {
        assert(zero_fill(n) == 119 - r);
        assert(n + 9 + zero_fill(n) == 64 * (n / 64 + 2));
    }
}

/// Builds the padded copy of the message.
fn pad_message(message: &[u8]) -> (data: Vec<u8>)
    requires
        hashable(message@.len()),
    ensures
        data@ == padded(message@),
        data@.len() % 64 == 0,
{
    let n = message.len();
    let mut data: Vec<u8> = Vec::new();
    let mut i: usize = 0;
    while i < n
        invariant
            n == message@.len(),
            i <= n,
            data@ == message@.subrange(0, i as int),
        decreases n - i,
    {
        data.push(message[i]);
        i = i + 1;
    }
    assert(data@ =~= message@);
    data.push(0x80u8);
    let z: usize = (119 - n % 64) % 64;
    assert(z == zero_fill(n as nat));
    let mut k: usize = 0;
    while k < z
        invariant
            n == message@.len(),
            z == zero_fill(n as nat),
            hashable(n as nat),
            k <= z,
            data@ == message@ + seq![0x80u8] + Seq::new(k as nat, |i: int| 0u8),
        decreases z - k,
    {
        data.push(0u8);
        k = k + 1;
        assert(data@ =~= message@ + seq![0x80u8] + Seq::new(k as nat, |i: int| 0u8));
    }
    let ml: u64 = (n as u64) * 8;
    let mut j: usize = 0;
    while j < 8
        invariant
            n == message@.len(),
            ml == n * 8,
            z == zero_fill(n as nat),
            hashable(n as nat),
            j <= 8,
            data@ == message@ + seq![0x80u8] + Seq::new(z as nat, |i: int| 0u8)
                + be_u64(ml).subrange(0, j as int),
        decreases 8 - j,
    {
        let shift: u64 = 56 - 8 * (j as u64);
        data.push((ml >> shift) as u8);
        j = j + 1;
        assert(data@ =~= message@ + seq![0x80u8] + Seq::new(z as nat, |i: int| 0u8)
            + be_u64(ml).subrange(0, j as int));
    }
    assert(be_u64(ml).subrange(0, 8) =~= be_u64(ml));
    proof {
        lemma_padded_len(n as nat);
    }
    data
}

/// Fills the message schedule of the block that starts at `base`.
fn message_schedule(data: &Vec<u8>, base: usize) -> (w: [u32; 80])
    requires
        base + 64 <= data@.len() <= usize::MAX,
    ensures
        forall|i: int|
            0 <= i < 80 ==> #[trigger] w@[i] == schedule_word(
                data@.subrange(base as int, base + 64),
                i as nat,
            ),
{
    let ghost block = data@.subrange(base as int, base + 64);
    let mut w: [u32; 80] = [0u32; 80];
    let mut i: usize = 0;
    while i < 16
        invariant
            base + 64 <= data@.len() <= usize::MAX,
            block == data@.subrange(base as int, base + 64),
            i <= 16,
            forall|j: int| 0 <= j < i ==> w@[j] == schedule_word(block, j as nat),
        decreases 16 - i,
    {
        let j = base + 4 * i;
        w[i] = ((data[j] as u32) << 24u32) | ((data[j + 1] as u32) << 16u32)
            | ((data[j + 2] as u32) << 8u32) | (data[j + 3] as u32);
        assert(w@[i as int] == schedule_word(block, i as nat));
        i = i + 1;
    }
    while i < 80
        invariant
            base + 64 <= data@.len() <= usize::MAX,
            block == data@.subrange(base as int, base + 64),
            16 <= i <= 80,
            forall|j: int| 0 <= j < i ==> w@[j] == schedule_word(block, j as nat),
        decreases 80 - i,
    {
        w[i] = rotl_exec(w[i - 3] ^ w[i - 8] ^ w[i - 14] ^ w[i - 16], 1);
        i = i + 1;
    }
    w
}

/// Runs the 80 rounds of one block and adds the result into the chaining state.
fn compress_block(h: State, data: &Vec<u8>, base: usize) -> (r: State)
    requires
        base + 64 <= data@.len() <= usize::MAX,
    ensures
        r == compress(h, data@.subrange(base as int, base + 64)),
{
    let ghost block = data@.subrange(base as int, base + 64);
    let w = message_schedule(data, base);
    let (mut a, mut b, mut c, mut d, mut e) = h;
    let mut i: usize = 0;
    while i < 80
        invariant
            block == data@.subrange(base as int, base + 64),
            i <= 80,
            forall|j: int| 0 <= j < 80 ==> #[trigger] w@[j] == schedule_word(block, j as nat),
            (a, b, c, d, e) == rounds(h, block, i as nat),
        decreases 80 - i,
    {
        let (f, k) = if i < 20 {
            ((b & c) | (!b & d), 0x5A827999u32)
        } else if i < 40 {
            (b ^ c ^ d, 0x6ED9EBA1u32)
        } else if i < 60 {
            ((b & c) | (b & d) | (c & d), 0x8F1BBCDCu32)
        } else {
            (b ^ c ^ d, 0xCA62C1D6u32)
        };
        let temp = add32_exec(add32_exec(add32_exec(add32_exec(rotl_exec(a, 5), f), e), k), w[i]);
        e = d;
        d = c;
        c = rotl_exec(b, 30);
        b = a;
        a = temp;
        i = i + 1;
    }
    (add32_exec(h.0, a), add32_exec(h.1, b), add32_exec(h.2, c), add32_exec(h.3, d), add32_exec(h.4, e))
}

/// Writes the big-endian bytes of `x` at `at`.
fn put_word(out: &mut [u8; 20], at: usize, x: u32)
    requires
        at + 4 <= 20,
    ensures
        final(out)@ == old(out)@.subrange(0, at as int) + be_u32(x) + old(out)@.subrange(at + 4, 20),
{
    out[at] = (x >> 24u32) as u8;
    out[at + 1] = (x >> 16u32) as u8;
    out[at + 2] = (x >> 8u32) as u8;
    out[at + 3] = x as u8;
    assert(out@ =~= old(out)@.subrange(0, at as int) + be_u32(x) + old(out)@.subrange(at + 4, 20));
}

/// The SHA-1 digest of `message`.
pub fn sha1(message: &[u8]) -> (digest: [u8; 20])
    requires
        hashable(message@.len()),
    ensures
        digest@ == sha1_spec(message@),
{
    let data = pad_message(message);
    let ghost p = padded(message@);
    assert(p.len() <= message@.len() + 72);
    let nblocks = data.len() / 64;
    let mut h: State = (0x67452301u32, 0xEFCDAB89u32, 0x98BADCFEu32, 0x10325476u32, 0xC3D2E1F0u32);
    let mut i: usize = 0;
    while i < nblocks
        invariant
            data@ == p,
            nblocks == p.len() / 64,
            p.len() % 64 == 0,
            p.len() <= usize::MAX,
            i <= nblocks,
            h == process_blocks(initial_state(), p, i as nat),
        decreases nblocks - i,
    {
        assert(64 * i + 64 <= p.len()) by (nonlinear_arith)
            requires i < nblocks, nblocks == p.len() / 64, p.len() % 64 == 0;
        h = compress_block(h, &data, 64 * i);
        i = i + 1;
    }
    let mut out: [u8; 20] = [0u8; 20];
    put_word(&mut out, 0, h.0);
    put_word(&mut out, 4, h.1);
    put_word(&mut out, 8, h.2);
    put_word(&mut out, 12, h.3);
    put_word(&mut out, 16, h.4);
    assert(out@ =~= state_bytes(h));
    out
}

} // verus!
