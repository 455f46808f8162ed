use vstd::prelude::*;

verus! {

/// Bytes yielded by a looping reader over a stream holding `data`: starting
/// at `offset`, the cursor wraps to position 0 whenever it reaches the end,
/// so exactly `n` bytes always come back. Meaningful when `data` is not
/// empty and `0 <= offset <= data.len()`.
pub open spec fn looped_read(data: Seq<u8>, offset: int, n: nat) -> Seq<u8> {
    Seq::new(n, |i: int| data[(offset + i) % (data.len() as int)])
}

/// Cursor position after a looping read of `n` bytes.
pub open spec fn looped_offset(data: Seq<u8>, offset: int, n: nat) -> int {
    (offset + n) % (data.len() as int)
}

/// Bytes yielded by a non-looping reader: it stops at end-of-stream, so
/// fewer than `n` bytes may come back. Meaningful when
/// `0 <= offset <= data.len()`.
pub open spec fn capped_read(data: Seq<u8>, offset: int, n: nat) -> Seq<u8> {
    data.subrange(offset, vstd::math::min(offset + n, data.len() as int))
}

/// Cursor position after a non-looping read of up to `n` bytes.
pub open spec fn capped_offset(data: Seq<u8>, offset: int, n: nat) -> int {
    vstd::math::min(offset + n, data.len() as int)
}

/// Advancing a cursor by one position, modulo the stream length.
proof fn lemma_mod_step(x: int, l: int)
    requires
        l > 0,
        x >= 0,
    ensures
        (x + 1) % l == if x % l + 1 == l {
            0int
        } else {
            x % l + 1
        },
{
    vstd::arithmetic::div_mod::lemma_fundamental_div_mod(x, l);
    vstd::arithmetic::div_mod::lemma_mod_bound(x, l);
    let q = x / l;
    let r = x % l;
    if r + 1 == l {
        assert((q + 1) * l + 0 == x + 1) by (nonlinear_arith)
            requires
                x == l * q + r,
                r + 1 == l,
        ;
        vstd::arithmetic::div_mod::lemma_fundamental_div_mod_converse(x + 1, l, q + 1, 0);
    } else {
        assert(q * l + (r + 1) == x + 1) by (nonlinear_arith)
            requires
                x == l * q + r,
        ;
        vstd::arithmetic::div_mod::lemma_fundamental_div_mod_converse(x + 1, l, q, r + 1);
    }
}

/// Read exactly `n` bytes from an in-memory stream, wrapping at the end.
/// Returns the bytes and the new cursor position.
pub fn read_looped(data: &Vec<u8>, offset: usize, n: usize) -> (r: (Vec<u8>, usize))
    requires
        data@.len() > 0,
        offset <= data@.len(),
    ensures
        r.0@ == looped_read(data@, offset as int, n as nat),
        r.1 == looped_offset(data@, offset as int, n as nat),
        r.1 < data@.len(),
{
    let l = data.len();
    let mut out: Vec<u8> = Vec::with_capacity(n);
    let mut pos: usize = if offset == l {
        0
    } else {
        offset
    };
    proof {
        if offset < l {
            vstd::arithmetic::div_mod::lemma_small_mod(offset as nat, l as nat);
        } else {
            vstd::arithmetic::div_mod::lemma_mod_self_0(l as int);
        }
        assert(out@ =~= looped_read(data@, offset as int, 0));
    }
    let mut i: usize = 0;
    while i < n
        invariant
            data@.len() == l,
            0 < l,
            i <= n,
            pos < l,
            pos == (offset + i) % (l as int),
            out@ == looped_read(data@, offset as int, i as nat),
        decreases n - i,
    {
        out.push(data[pos]);
        proof {
            lemma_mod_step(offset + i, l as int);
            assert(out@ =~= looped_read(data@, offset as int, (i + 1) as nat));
        }
        pos = pos + 1;
        if pos == l {
            pos = 0;
        }
        i = i + 1;
    }
    (out, pos)
}

/// Read up to `n` bytes from an in-memory stream, stopping at the end.
/// Returns the bytes and the new cursor position.
pub fn read_capped(data: &Vec<u8>, offset: usize, n: usize) -> (r: (Vec<u8>, usize))
    requires
        offset <= data@.len(),
    ensures
        r.0@ == capped_read(data@, offset as int, n as nat),
        r.1 == capped_offset(data@, offset as int, n as nat),
        r.1 <= data@.len(),
{
    let l = data.len();
    let mut out: Vec<u8> = Vec::with_capacity(n);
    let mut pos: usize = offset;
    let mut i: usize = 0;
    while i < n && pos < l
        invariant
            data@.len() == l,
            i <= n,
            offset <= pos <= l,
            pos == offset + i,
            pos < l || i == n || pos == l,
            out@ == data@.subrange(offset as int, pos as int),
        decreases n - i,
    {
        out.push(data[pos]);
        proof {
            assert(out@ =~= data@.subrange(offset as int, pos + 1));
        }
        pos = pos + 1;
        i = i + 1;
    }
    proof {
        assert(out@ =~= capped_read(data@, offset as int, n as nat));
    }
    (out, pos)
}

/// Looping across end-of-stream: reading the whole stream plus `k` more
/// bytes from position 0 yields the stream followed by its own first `k`
/// bytes, and leaves the cursor at `k`.
pub proof fn lemma_loop_on_eof_wraps(data: Seq<u8>, k: int)
    requires
        0 < data.len(),
        0 <= k < data.len(),
    ensures
        looped_read(data, 0, (data.len() + k) as nat) == data + data.take(k),
        looped_offset(data, 0, (data.len() + k) as nat) == k,
{
    let l = data.len() as int;
    assert forall|i: int| 0 <= i < l + k implies looped_read(data, 0, (l + k) as nat)[i] == (data
        + data.take(k))[i] by {
        if i < l {
            vstd::arithmetic::div_mod::lemma_small_mod(i as nat, l as nat);
        } else {
            vstd::arithmetic::div_mod::lemma_mod_multiples_vanish(1, i - l, l);
            vstd::arithmetic::div_mod::lemma_small_mod((i - l) as nat, l as nat);
        }
    }
    assert(looped_read(data, 0, (l + k) as nat) =~= data + data.take(k));
    vstd::arithmetic::div_mod::lemma_mod_multiples_vanish(1, k, l);
    vstd::arithmetic::div_mod::lemma_small_mod(k as nat, l as nat);
}

/// A non-looping read never yields more than requested, stops exactly at
/// end-of-stream, and yields the full request only when enough bytes
/// remain before the end.
pub proof fn lemma_no_loop_stops_at_eof(data: Seq<u8>, offset: int, n: nat)
    requires
        0 <= offset <= data.len(),
    ensures
        capped_read(data, offset, n).len() <= n,
        capped_read(data, offset, n) == looped_read(data, offset, n).take(
            capped_read(data, offset, n).len() as int,
        ) || data.len() == 0,
        capped_read(data, offset, n).len() == n <==> offset + n <= data.len(),
{
    let l = data.len() as int;
    let taken = capped_read(data, offset, n);
    if data.len() > 0 {
        assert forall|i: int| 0 <= i < taken.len() implies taken[i] == looped_read(
            data,
            offset,
            n,
        )[i] by {
            vstd::arithmetic::div_mod::lemma_small_mod((offset + i) as nat, l as nat);
        }
        assert(taken =~= looped_read(data, offset, n).take(taken.len() as int));
    }
}

} // verus!
