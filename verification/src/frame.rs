//! Frame definitions and the wire codec.
//!
//! A message is a command byte, a 64-bit session identifier, and a run
//! of opaque byte buffers.  On the wire a message is a 4-byte
//! big-endian length prefix followed by the payload: the command byte,
//! the identifier (8 bytes big-endian), the buffer count (4 bytes
//! big-endian), then each buffer as a 4-byte big-endian length and its
//! bytes.  Encoding and decoding are proved to be mutual inverses.

use vstd::prelude::*;

verus! {

/// A control frame, the only unit exchanged with the host; requests
/// and replies share this shape.
#[derive(Debug, PartialEq, Eq)]
pub struct AVFrame {
    pub command: u8,
    pub ident: i64,
    pub frame: Vec<Vec<u8>>,
}

/// Big-endian bytes of a 32-bit value, most significant first.
pub open spec fn be32(x: u32) -> Seq<u8> {
    seq![(x >> 24) as u8, (x >> 16) as u8, (x >> 8) as u8, x as u8]
}

/// Big-endian bytes of a 64-bit value, most significant first.
pub open spec fn be64(x: u64) -> Seq<u8> {
    seq![
        (x >> 56) as u8,
        (x >> 48) as u8,
        (x >> 40) as u8,
        (x >> 32) as u8,
        (x >> 24) as u8,
        (x >> 16) as u8,
        (x >> 8) as u8,
        x as u8,
    ]
}

/// The 32-bit value read back from four big-endian bytes.
pub open spec fn u32_of_be(b: Seq<u8>) -> u32
    recommends
        b.len() == 4,
{
    ((b[0] as u32) << 24) | ((b[1] as u32) << 16) | ((b[2] as u32) << 8) | (b[3] as u32)
}

/// The 64-bit value read back from eight big-endian bytes.
pub open spec fn u64_of_be(b: Seq<u8>) -> u64
    recommends
        b.len() == 8,
{
    ((b[0] as u64) << 56) | ((b[1] as u64) << 48) | ((b[2] as u64) << 40) | ((b[3] as u64) << 32)
        | ((b[4] as u64) << 24) | ((b[5] as u64) << 16) | ((b[6] as u64) << 8) | (b[7] as u64)
}

pub proof fn lemma_be32_roundtrip(x: u32)
    ensures
        u32_of_be(be32(x)) == x,
{
    assert(((((x >> 24) as u8) as u32) << 24) | ((((x >> 16) as u8) as u32) << 16) | ((((x
        >> 8) as u8) as u32) << 8) | ((x as u8) as u32) == x) by (bit_vector);
}

pub proof fn lemma_be64_roundtrip(x: u64)
    ensures
        u64_of_be(be64(x)) == x,
{
    assert(((((x >> 56) as u8) as u64) << 56) | ((((x >> 48) as u8) as u64) << 48) | ((((x
        >> 40) as u8) as u64) << 40) | ((((x >> 32) as u8) as u64) << 32) | ((((x
        >> 24) as u8) as u64) << 24) | ((((x >> 16) as u8) as u64) << 16) | ((((x
        >> 8) as u8) as u64) << 8) | ((x as u8) as u64) == x) by (bit_vector);
}

pub proof fn lemma_ident_roundtrip(x: i64)
    ensures
        ((x as u64) as i64) == x,
{
    assert(((x as u64) as i64) == x) by (bit_vector);
}

/// One buffer on the wire: its length, then its bytes.
pub open spec fn enc_buf(b: Seq<u8>) -> Seq<u8>
    recommends
        b.len() <= u32::MAX,
{
    be32(b.len() as u32) + b
}

/// A run of buffers on the wire, in order.
pub open spec fn enc_bufs(bufs: Seq<Seq<u8>>) -> Seq<u8>
    decreases bufs.len(),
{
    if bufs.len() == 0 {
        Seq::empty()
    } else {
        enc_buf(bufs[0]) + enc_bufs(bufs.skip(1))
    }
}

/// The machine limits the 4-byte length fields force: the buffer count
/// and each buffer's length must fit in 32 bits.
pub open spec fn wire_ok(m: AVFrame) -> bool {
    &&& m.frame@.len() <= u32::MAX
    &&& forall|i: int| 0 <= i < m.frame@.len() ==> (#[trigger] m.frame@[i])@.len() <= u32::MAX
}

/// The payload bytes of a message.
pub open spec fn encoded(m: AVFrame) -> Seq<u8>
    recommends
        wire_ok(m),
{
    seq![m.command] + be64(m.ident as u64) + be32(m.frame@.len() as u32) + enc_bufs(
        m.frame.deep_view(),
    )
}

/// A payload on the wire: a 4-byte big-endian length prefix, then the
/// payload itself.
pub open spec fn framed(payload: Seq<u8>) -> Seq<u8>
    recommends
        payload.len() <= u32::MAX,
{
    be32(payload.len() as u32) + payload
}

/// Parse `n` buffers from `b`; the whole of `b` must be consumed.
pub open spec fn dec_bufs(b: Seq<u8>, n: nat) -> Option<Seq<Seq<u8>>>
    decreases n,
{
    if n == 0 {
        if b.len() == 0 {
            Some(Seq::empty())
        } else {
            None
        }
    } else if b.len() < 4 {
        None
    } else {
        let l = u32_of_be(b.take(4)) as int;
        if b.len() - 4 < l {
            None
        } else {
            match dec_bufs(b.skip(4 + l), (n - 1) as nat) {
                None => None,
                Some(rest) => Some(seq![b.subrange(4, 4 + l)] + rest),
            }
        }
    }
}

/// Parse a whole payload into command, identifier and buffers.
pub open spec fn dec_msg(b: Seq<u8>) -> Option<(u8, i64, Seq<Seq<u8>>)> {
    if b.len() < 13 {
        None
    } else {
        let cmd = b[0];
        let id = (u64_of_be(b.subrange(1, 9)) as i64);
        let n = u32_of_be(b.subrange(9, 13));
        match dec_bufs(b.skip(13), n as nat) {
            None => None,
            Some(bufs) => Some((cmd, id, bufs)),
        }
    }
}

proof fn lemma_dec_enc_bufs(bufs: Seq<Seq<u8>>)
    requires
        forall|i: int| 0 <= i < bufs.len() ==> (#[trigger] bufs[i]).len() <= u32::MAX,
    ensures
        dec_bufs(enc_bufs(bufs), bufs.len()) == Some(bufs),
    decreases bufs.len(),
{
    if bufs.len() > 0 {
        let head = bufs[0];
        let e = enc_bufs(bufs);
        lemma_be32_roundtrip(head.len() as u32);
        assert(e.take(4) =~= be32(head.len() as u32));
        assert(u32_of_be(e.take(4)) as int == head.len());
        assert(e.subrange(4, 4 + head.len() as int) =~= head);
        assert(e.skip(4 + head.len() as int) =~= enc_bufs(bufs.skip(1)));
        lemma_dec_enc_bufs(bufs.skip(1));
        assert(seq![head] + bufs.skip(1) =~= bufs);
    }
}

/// Law: decoding an encoded message reproduces the command, the
/// identifier and every buffer byte for byte.
pub proof fn lemma_round_trip(m: AVFrame)
    requires
        wire_ok(m),
    ensures
        dec_msg(encoded(m)) == Some((m.command, m.ident, m.frame.deep_view())),
{
    let e = encoded(m);
    let d = m.frame.deep_view();
    assert(e[0] == m.command);
    assert(e.subrange(1, 9) =~= be64(m.ident as u64));
    lemma_be64_roundtrip(m.ident as u64);
    lemma_ident_roundtrip(m.ident);
    assert(e.subrange(9, 13) =~= be32(m.frame@.len() as u32));
    lemma_be32_roundtrip(m.frame@.len() as u32);
    assert(e.skip(13) =~= enc_bufs(d));
    assert(forall|i: int| 0 <= i < d.len() ==> (#[trigger] d[i]).len() <= u32::MAX);
    lemma_dec_enc_bufs(d);
    assert(d.len() == m.frame@.len());
}

pub(crate) fn push_be32(out: &mut Vec<u8>, x: u32)
    ensures
        final(out)@ == old(out)@ + be32(x),
{
    let ghost pre = out@;
    out.push(#[verifier::truncate] ((x >> 24) as u8));
    out.push(#[verifier::truncate] ((x >> 16) as u8));
    out.push(#[verifier::truncate] ((x >> 8) as u8));
    out.push(#[verifier::truncate] (x as u8));
    proof {
        assert(out@ =~= pre + be32(x));
    }
}

pub(crate) fn push_be64(out: &mut Vec<u8>, x: u64)
    ensures
        final(out)@ == old(out)@ + be64(x),
{
    let ghost pre = out@;
    out.push(#[verifier::truncate] ((x >> 56) as u8));
    out.push(#[verifier::truncate] ((x >> 48) as u8));
    out.push(#[verifier::truncate] ((x >> 40) as u8));
    out.push(#[verifier::truncate] ((x >> 32) as u8));
    out.push(#[verifier::truncate] ((x >> 24) as u8));
    out.push(#[verifier::truncate] ((x >> 16) as u8));
    out.push(#[verifier::truncate] ((x >> 8) as u8));
    out.push(#[verifier::truncate] (x as u8));
    proof {
        assert(out@ =~= pre + be64(x));
    }
}

pub(crate) fn get_u32(b: &Vec<u8>, pos: usize) -> (x: u32)
    requires
        pos + 4 <= b@.len(),
    ensures
        x == u32_of_be(b@.subrange(pos as int, pos as int + 4)),
{
    let avail = b.len();
    proof {
        assert(pos + 4 <= avail);
    }
    let x = ((b[pos] as u32) << 24) | ((b[pos + 1] as u32) << 16) | ((b[pos + 2] as u32) << 8) | (
    b[pos + 3] as u32);
    proof {
        let s = b@.subrange(pos as int, pos as int + 4);
        assert(s[0] == b@[pos as int]);
        assert(s[1] == b@[pos as int + 1]);
        assert(s[2] == b@[pos as int + 2]);
        assert(s[3] == b@[pos as int + 3]);
    }
    x
}

pub(crate) fn get_u64(b: &Vec<u8>, pos: usize) -> (x: u64)
    requires
        pos + 8 <= b@.len(),
    ensures
        x == u64_of_be(b@.subrange(pos as int, pos as int + 8)),
{
    let avail = b.len();
    proof {
        assert(pos + 8 <= avail);
    }
    let x = ((b[pos] as u64) << 56) | ((b[pos + 1] as u64) << 48) | ((b[pos + 2] as u64) << 40) | ((
    b[pos + 3] as u64) << 32) | ((b[pos + 4] as u64) << 24) | ((b[pos + 5] as u64) << 16) | ((b[pos
        + 6] as u64) << 8) | (b[pos + 7] as u64);
    proof {
        let s = b@.subrange(pos as int, pos as int + 8);
        assert(s[0] == b@[pos as int]);
        assert(s[1] == b@[pos as int + 1]);
        assert(s[2] == b@[pos as int + 2]);
        assert(s[3] == b@[pos as int + 3]);
        assert(s[4] == b@[pos as int + 4]);
        assert(s[5] == b@[pos as int + 5]);
        assert(s[6] == b@[pos as int + 6]);
        assert(s[7] == b@[pos as int + 7]);
    }
    x
}

proof fn lemma_enc_bufs_push(pre: Seq<Seq<u8>>, b: Seq<u8>)
    ensures
        enc_bufs(pre.push(b)) == enc_bufs(pre) + enc_buf(b),
    decreases pre.len(),
{
    if pre.len() == 0 {
        assert(pre.push(b)[0] == b);
        assert(pre.push(b).skip(1) =~= Seq::<Seq<u8>>::empty());
        assert(enc_bufs(pre.push(b).skip(1)) == enc_bufs(Seq::<Seq<u8>>::empty()));
        assert(enc_bufs(Seq::<Seq<u8>>::empty()) == Seq::<u8>::empty());
        assert(enc_bufs(pre.push(b)) == enc_buf(b) + Seq::<u8>::empty());
        assert(enc_bufs(pre) == Seq::<u8>::empty());
        assert(enc_buf(b) + Seq::<u8>::empty() =~= Seq::<u8>::empty() + enc_buf(b));
        assert(enc_bufs(pre.push(b)) == enc_bufs(pre) + enc_buf(b));
    } else {
        assert(pre.push(b)[0] == pre[0]);
        assert(pre.push(b).skip(1) =~= pre.skip(1).push(b));
        lemma_enc_bufs_push(pre.skip(1), b);
        assert(enc_bufs(pre.push(b)) == enc_buf(pre[0]) + enc_bufs(pre.push(b).skip(1)));
        assert(enc_bufs(pre.push(b).skip(1)) == enc_bufs(pre.skip(1).push(b)));
        assert(enc_bufs(pre) == enc_buf(pre[0]) + enc_bufs(pre.skip(1)));
        let a = enc_buf(pre[0]);
        let mid = enc_bufs(pre.skip(1));
        let c = enc_buf(b);
        assert(a + (mid + c) =~= (a + mid) + c);
        assert(enc_bufs(pre.push(b)) == a + (mid + c));
        assert(enc_bufs(pre) + enc_buf(b) == (a + mid) + c);
        assert(enc_bufs(pre.push(b)) == enc_bufs(pre) + enc_buf(b));
    }
}

/// Whether a message respects the wire's 32-bit length fields; a
/// caller checks this before encoding.
pub fn wire_check(m: &AVFrame) -> (ok: bool)
    ensures
        ok == wire_ok(*m),
{
    if m.frame.len() > u32::MAX as usize {
        return false;
    }
    let mut i: usize = 0;
    while i < m.frame.len()
        invariant
            i <= m.frame@.len(),
            m.frame@.len() <= u32::MAX,
            forall|k: int| 0 <= k < i ==> (#[trigger] m.frame@[k])@.len() <= u32::MAX,
        decreases m.frame@.len() - i,
    {
        if m.frame[i].len() > u32::MAX as usize {
            return false;
        }
        i = i + 1;
    }
    true
}

/// Encode a message into its payload bytes.
#[verifier::loop_isolation(false)]
pub fn encode(m: &AVFrame) -> (out: Vec<u8>)
    requires
        wire_ok(*m),
    ensures
        out@ == encoded(*m),
{
    let ghost d = m.frame.deep_view();
    let mut out: Vec<u8> = Vec::new();
    out.push(m.command);
    push_be64(&mut out, #[verifier::truncate] (m.ident as u64));
    push_be32(&mut out, m.frame.len() as u32);
    let ghost header = out@;
    proof {
        assert(header =~= seq![m.command] + be64(m.ident as u64) + be32(m.frame@.len() as u32));
        assert(d.take(0) =~= Seq::<Seq<u8>>::empty());
    }
    let mut i: usize = 0;
    while i < m.frame.len()
        invariant
            i <= m.frame@.len(),
            wire_ok(*m),
            d == m.frame.deep_view(),
            header =~= seq![m.command] + be64(m.ident as u64) + be32(m.frame@.len() as u32),
            out@ == header + enc_bufs(d.take(i as int)),
        decreases m.frame@.len() - i,
    {
        let ghost out0 = out@;
        let buf_len = m.frame[i].len();
        push_be32(&mut out, buf_len as u32);
        let mut j: usize = 0;
        while j < buf_len
            invariant
                j <= buf_len,
                i < m.frame@.len(),
                buf_len == m.frame@[i as int]@.len(),
                out@ == out0 + be32(buf_len as u32) + m.frame@[i as int]@.take(j as int),
            decreases buf_len - j,
        {
            let byte = m.frame[i][j];
            out.push(byte);
            proof {
                assert(m.frame@[i as int]@.take(j + 1 as int) =~= m.frame@[i as int]@.take(
                    j as int,
                ).push(byte));
                assert(out@ =~= out0 + be32(buf_len as u32) + m.frame@[i as int]@.take(j + 1 as int));
            }
            j = j + 1;
        }
        proof {
            assert(m.frame@[i as int]@.take(buf_len as int) =~= m.frame@[i as int]@);
            assert(d[i as int] =~= m.frame@[i as int]@);
            lemma_enc_bufs_push(d.take(i as int), d[i as int]);
            assert(d.take(i + 1 as int) =~= d.take(i as int).push(d[i as int]));
            assert(out@ =~= header + enc_bufs(d.take(i + 1 as int)));
        }
        i = i + 1;
    }
    proof {
        assert(d.take(d.len() as int) =~= d);
        assert(out@ =~= encoded(*m));
    }
    out
}

/// Encode a message and put the 4-byte length prefix in front; `None`
/// when the payload itself does not fit the 32-bit prefix.
pub fn encode_framed(m: &AVFrame) -> (out: Option<Vec<u8>>)
    requires
        wire_ok(*m),
    ensures
        match out {
            Some(v) => encoded(*m).len() <= u32::MAX && v@ == framed(encoded(*m)),
            None => encoded(*m).len() > u32::MAX,
        },
{
    let payload = encode(m);
    if payload.len() > u32::MAX as usize {
        return None;
    }
    let mut out: Vec<u8> = Vec::new();
    push_be32(&mut out, payload.len() as u32);
    let ghost prefix = out@;
    let mut i: usize = 0;
    while i < payload.len()
        invariant
            i <= payload@.len(),
            out@ == prefix + payload@.take(i as int),
        decreases payload@.len() - i,
    {
        let byte = payload[i];
        out.push(byte);
        proof {
            assert(payload@.take(i + 1 as int) =~= payload@.take(i as int).push(byte));
            assert(out@ =~= prefix + payload@.take(i + 1 as int));
        }
        i = i + 1;
    }
    proof {
        assert(payload@.take(payload@.len() as int) =~= payload@);
        assert(out@ =~= framed(encoded(*m)));
    }
    Some(out)
}

/// The payload length announced by a 4-byte big-endian prefix.
pub fn prefix_len(b0: u8, b1: u8, b2: u8, b3: u8) -> (n: u32)
    ensures
        n == u32_of_be(seq![b0, b1, b2, b3]),
{
    ((b0 as u32) << 24) | ((b1 as u32) << 16) | ((b2 as u32) << 8) | (b3 as u32)
}

/// Decode a payload back into a message; `None` exactly when the bytes
/// are not a well-formed payload.
#[verifier::loop_isolation(false)]
pub fn decode(bytes: &Vec<u8>) -> (r: Option<AVFrame>)
    ensures
        match r {
            Some(m) => dec_msg(bytes@) == Some((m.command, m.ident, m.frame.deep_view())),
            None => dec_msg(bytes@) is None,
        },
{
    if bytes.len() < 13 {
        return None;
    }
    let command = bytes[0];
    let idu = get_u64(bytes, 1);
    let ident = #[verifier::truncate] (idu as i64);
    proof {
        lemma_ident_roundtrip_back(idu);
        assert(bytes@.subrange(1, 9) =~= bytes@.subrange(1 as int, 1 as int + 8));
        assert(bytes@.subrange(9, 13) =~= bytes@.subrange(9 as int, 9 as int + 4));
    }
    let n = get_u32(bytes, 9);
    let mut bufs: Vec<Vec<u8>> = Vec::new();
    let mut pos: usize = 13;
    let mut k: u32 = 0;
    proof {
        assert(bufs.deep_view() =~= Seq::<Seq<u8>>::empty());
        assert(bytes@.skip(13) =~= bytes@.skip(pos as int));
    }
    while k < n
        invariant
            k <= n,
            13 <= pos <= bytes@.len(),
            dec_bufs(bytes@.skip(13), n as nat) == (match dec_bufs(
                bytes@.skip(pos as int),
                (n - k) as nat,
            ) {
                None => None::<Seq<Seq<u8>>>,
                Some(rest) => Some(bufs.deep_view() + rest),
            }),
        decreases n - k,
    {
        let ghost tail = bytes@.skip(pos as int);
        if bytes.len() - pos < 4 {
            proof {
                assert(tail.len() < 4);
            }
            return None;
        }
        let l = get_u32(bytes, pos);
        proof {
            assert(tail.take(4) =~= bytes@.subrange(pos as int, pos as int + 4));
        }
        let l_usize = l as usize;
        if bytes.len() - pos - 4 < l_usize {
            proof {
                assert(tail.len() - 4 < l);
            }
            return None;
        }
        let mut buf: Vec<u8> = Vec::new();
        let start = pos + 4;
        let mut j: usize = 0;
        while j < l_usize
            invariant
                j <= l_usize,
                start + l_usize <= bytes@.len(),
                buf@ == bytes@.subrange(start as int, start as int + j),
            decreases l_usize - j,
        {
            let byte = bytes[start + j];
            buf.push(byte);
            proof {
                assert(bytes@.subrange(start as int, start as int + j + 1) =~= bytes@.subrange(
                    start as int,
                    start as int + j,
                ).push(byte));
            }
            j = j + 1;
        }
        let ghost bufs_pre = bufs.deep_view();
        bufs.push(buf);
        proof {
            assert(bufs.deep_view() =~~= bufs_pre.push(buf@));
            assert(buf@ =~= tail.subrange(4, 4 + l as int));
            assert(tail.skip(4 + l as int) =~= bytes@.skip(pos as int + 4 + l as int));
        }
        pos = pos + 4 + l_usize;
        k = k + 1;
        proof {
            let rest_now = dec_bufs(bytes@.skip(pos as int), (n - k) as nat);
            match rest_now {
                None => {},
                Some(rest) => {
                    assert(bufs_pre + (seq![buf@] + rest) =~= bufs.deep_view() + rest);
                },
            }
        }
    }
    if pos != bytes.len() {
        proof {
            assert(bytes@.skip(pos as int).len() > 0);
        }
        return None;
    }
    proof {
        assert(bytes@.skip(pos as int).len() == 0);
        assert(bufs.deep_view() + Seq::<Seq<u8>>::empty() =~= bufs.deep_view());
    }
    Some(AVFrame { command, ident, frame: bufs })
}

proof fn lemma_ident_roundtrip_back(x: u64)
    ensures
        ((x as i64) as u64) == x,
{
    assert(((x as i64) as u64) == x) by (bit_vector);
}

} // verus!
