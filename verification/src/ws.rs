use vstd::prelude::*;

verus! {

/// Opcode of a binary data frame.
pub const WS_OPCODE_BINARY: u8 = 0x02;

/// Opcode of a close frame.
pub const WS_OPCODE_CLOSE: u8 = 0x08;

/// Opcode of a ping frame.
pub const WS_OPCODE_PING: u8 = 0x09;

/// Largest payload a reader accepts (16 MiB).
pub const MAX_PAYLOAD: u64 = 16777216;

/// A WebSocket frame as the tunnel sees it.
#[derive(Debug)]
pub enum WsFrame {
    Binary(Vec<u8>),
    Ping(Vec<u8>),
    Close,
    Other(u8),
}

/// The mathematical value of a frame.
pub enum FrameV {
    Binary(Seq<u8>),
    Ping(Seq<u8>),
    Close,
    Other(u8),
}

impl WsFrame {
    pub open spec fn view_frame(&self) -> FrameV {
        match self {
            WsFrame::Binary(p) => FrameV::Binary(p@),
            WsFrame::Ping(p) => FrameV::Ping(p@),
            WsFrame::Close => FrameV::Close,
            WsFrame::Other(o) => FrameV::Other(*o),
        }
    }
}

/// What a frame of `opcode` with (unmasked) `payload` is: continuation,
/// text and binary frames carry data; close, ping, and anything else.
pub open spec fn frame_of(opcode: u8, payload: Seq<u8>) -> FrameV {
    if opcode == 0 || opcode == 1 || opcode == 2 {
        FrameV::Binary(payload)
    } else if opcode == 8 {
        FrameV::Close
    } else if opcode == 9 {
        FrameV::Ping(payload)
    } else {
        FrameV::Other(opcode)
    }
}

/// `n` as `k` bytes, most significant first.
pub open spec fn be_bytes(n: nat, k: nat) -> Seq<u8>
    decreases k,
{
    if k == 0 {
        seq![]
    } else {
        be_bytes(n / 256, (k - 1) as nat).push((n % 256) as u8)
    }
}

/// The number that `b` writes most significant byte first.
pub open spec fn be_value(b: Seq<u8>) -> nat
    decreases b.len(),
{
    if b.len() == 0 {
        0
    } else {
        (be_value(b.drop_last()) * 256 + b.last()) as nat
    }
}

pub open spec fn pow256(k: nat) -> nat
    decreases k,
{
    if k == 0 {
        1
    } else {
        256 * pow256((k - 1) as nat)
    }
}

pub proof fn lemma_be_roundtrip(n: nat, k: nat)
    requires
        n < pow256(k),
    ensures
        be_bytes(n, k).len() == k,
        be_value(be_bytes(n, k)) == n,
    decreases k,
{
    if k > 0 {
        assert(n / 256 < pow256((k - 1) as nat)) by (nonlinear_arith)
            requires
                n < 256 * pow256((k - 1) as nat),
        ;
        lemma_be_roundtrip(n / 256, (k - 1) as nat);
        let b = be_bytes(n, k);
        assert(b.drop_last() =~= be_bytes(n / 256, (k - 1) as nat));
        assert(b.last() == (n % 256) as u8);
        assert(((n % 256) as u8) as nat == n % 256);
        assert(n == (n / 256) * 256 + n % 256);
    }
}

/// The payload with every byte xor-ed with the mask key, cycling through
/// its four bytes.
pub open spec fn masked(p: Seq<u8>, key: Seq<u8>) -> Seq<u8> {
    Seq::new(p.len(), |i: int| p[i] ^ key[i % 4])
}

/// Masking twice with the same key gives the payload back.
pub proof fn lemma_mask_involution(p: Seq<u8>, key: Seq<u8>)
    requires
        key.len() == 4,
    ensures
        masked(masked(p, key), key) == p,
{
    assert forall|i: int| 0 <= i < p.len() implies #[trigger] masked(masked(p, key), key)[i] == p[i] by {
        let x = p[i];
        let k = key[i % 4];
        assert((x ^ k) ^ k == x) by (bit_vector);
    }
    assert(masked(masked(p, key), key) =~= p);
}

/// The header of a final, masked frame: the FIN bit or-ed into the opcode
/// byte, then the payload length in 7 bits, or 126 and 16 bits, or 127 and
/// 64 bits.
pub open spec fn frame_header(opcode: u8, len: nat) -> Seq<u8> {
    let b0 = 0x80u8 | opcode;
    if len < 126 {
        seq![b0, (128 + len) as u8]
    } else if len <= 65535 {
        seq![b0, 254u8] + be_bytes(len, 2)
    } else {
        seq![b0, 255u8] + be_bytes(len, 8)
    }
}

/// The bytes of a final frame whose payload is masked with `key`.
pub open spec fn frame_bytes(opcode: u8, payload: Seq<u8>, key: Seq<u8>) -> Seq<u8> {
    frame_header(opcode, payload.len()) + key + masked(payload, key)
}

/// The result of reading a frame from the front of a buffer.
pub enum ReadOutcome {
    /// The buffer does not yet hold a whole frame.
    NeedMore,
    /// A frame, and how many bytes it took.
    Frame(WsFrame, usize),
    /// The peer answered with HTTP (`HT`) instead of a frame.
    HttpResponse,
    /// The announced payload exceeds [`MAX_PAYLOAD`].
    TooLarge(u64),
}

/// The mathematical value of a [`ReadOutcome`].
pub enum OutcomeV {
    NeedMore,
    Frame(FrameV, nat),
    HttpResponse,
    TooLarge(nat),
}

impl ReadOutcome {
    pub open spec fn view_outcome(&self) -> OutcomeV {
        match self {
            ReadOutcome::NeedMore => OutcomeV::NeedMore,
            ReadOutcome::Frame(f, n) => OutcomeV::Frame(f.view_frame(), *n as nat),
            ReadOutcome::HttpResponse => OutcomeV::HttpResponse,
            ReadOutcome::TooLarge(n) => OutcomeV::TooLarge(*n as nat),
        }
    }
}

/// How a frame at the front of `buf` is read: two header bytes (`HT` means
/// an HTTP answer), then the extended length, then the mask key when the
/// mask bit is set, then the size check, then the payload, unmasked.
pub open spec fn parse_spec(buf: Seq<u8>) -> OutcomeV {
    if buf.len() < 2 {
        OutcomeV::NeedMore
    } else if buf[0] == 72 && buf[1] == 84 {
        OutcomeV::HttpResponse
    } else {
        let opcode = (buf[0] % 16) as u8;
        let is_masked = buf[1] >= 128;
        let len7 = buf[1] % 128;
        let ext: int = if len7 == 126 { 2 } else if len7 == 127 { 8 } else { 0 };
        let mask_len: int = if is_masked { 4 } else { 0 };
        let hdr = 2 + ext + mask_len;
        if buf.len() < hdr {
            OutcomeV::NeedMore
        } else {
            let len: int = if ext == 0 { len7 as int } else { be_value(buf.subrange(2, 2 + ext)) as int };
            if len > MAX_PAYLOAD {
                OutcomeV::TooLarge(len as nat)
            } else if buf.len() < hdr + len {
                OutcomeV::NeedMore
            } else {
                let raw = buf.subrange(hdr, hdr + len);
                let payload = if is_masked {
                    masked(raw, buf.subrange(2 + ext, 2 + ext + 4))
                } else {
                    raw
                };
                OutcomeV::Frame(frame_of(opcode, payload), (hdr + len) as nat)
            }
        }
    }
}


fn be_bytes_exec(n: u64, k: usize) -> (r: Vec<u8>)
    requires
        k <= 8,
    ensures
        r@ == be_bytes(n as nat, k as nat),
    decreases k,
{
    if k == 0 {
        Vec::new()
    } else {
        let mut v = be_bytes_exec(n / 256, k - 1);
        v.push((n % 256) as u8);
        v
    }
}

fn be_value_exec(b: &[u8], from: usize, k: usize) -> (r: u64)
    requires
        k <= 8,
        from + k <= b@.len(),
    ensures
        r as nat == be_value(b@.subrange(from as int, (from + k) as int)),
{
    let mut acc: u64 = 0;
    let mut j: usize = 0;
    while j < k
        invariant
            j <= k <= 8,
            from + k <= b.len(),
            acc as nat == be_value(b@.subrange(from as int, (from + j) as int)),
            (acc as nat) < pow256(j as nat),
        decreases k - j,
    {
        let ghost sub = b@.subrange(from as int, (from + j + 1) as int);
        assert(sub.drop_last() =~= b@.subrange(from as int, (from + j) as int));
        assert(sub.last() == b@[(from + j) as int]);
        proof {
            lemma_pow256_bound(j as nat);
            lemma_pow256_bound((j + 1) as nat);
            assert(acc * 256 + b@[(from + j) as int] < pow256((j + 1) as nat)) by (nonlinear_arith)
                requires
                    acc < pow256(j as nat),
                    b@[(from + j) as int] < 256,
                    pow256((j + 1) as nat) == 256 * pow256(j as nat),
            ;
        }
        acc = acc * 256 + b[from + j] as u64;
        j = j + 1;
    }
    acc
}

proof fn lemma_pow256_bound(j: nat)
    requires
        j <= 8,
    ensures
        pow256(j) <= 18446744073709551616,
        pow256((j + 1) as nat) == 256 * pow256(j),
    decreases j,
{
    reveal_with_fuel(pow256, 10);
    if j > 0 {
        lemma_pow256_bound((j - 1) as nat);
    }
}

/// The bytes of a final frame carrying `payload`, masked with `mask_key`.
pub fn encode_frame(opcode: u8, payload: &[u8], mask_key: [u8; 4]) -> (r: Vec<u8>)
    ensures
        r@ == frame_bytes(opcode, payload@, mask_key@),
{
    let fin_opcode: u8 = 0x80 | opcode;
    let len = payload.len();
    let mut out: Vec<u8> = Vec::new();
    out.push(fin_opcode);
    if len < 126 {
        out.push(0x80u8 + len as u8);
    } else if len <= 65535 {
        out.push(254u8);
        let ext = be_bytes_exec(len as u64, 2);
        proof {
            reveal_with_fuel(be_bytes, 3);
        }
        let mut i: usize = 0;
        assert(out@ =~= seq![fin_opcode, 254u8] + ext@.take(0));
        while i < 2
            invariant
                i <= 2,
                ext@.len() == 2,
                out@ == seq![fin_opcode, 254u8] + ext@.take(i as int),
            decreases 2 - i,
        {
            out.push(ext[i]);
            i = i + 1;
            assert(out@ =~= seq![fin_opcode, 254u8] + ext@.take(i as int));
        }
        assert(ext@.take(2) =~= ext@);
    } else {
        out.push(255u8);
        let ext = be_bytes_exec(len as u64, 8);
        let mut i: usize = 0;
        proof {
            reveal_with_fuel(be_bytes, 9);
        }
        assert(out@ =~= seq![fin_opcode, 255u8] + ext@.take(0));
        while i < 8
            invariant
                i <= 8,
                ext@.len() == 8,
                out@ == seq![fin_opcode, 255u8] + ext@.take(i as int),
            decreases 8 - i,
        {
            out.push(ext[i]);
            i = i + 1;
            assert(out@ =~= seq![fin_opcode, 255u8] + ext@.take(i as int));
        }
        assert(ext@.take(8) =~= ext@);
    }
    assert(out@ =~= frame_header(opcode, payload@.len()));
    let ghost head = out@;
    let mut i: usize = 0;
    while i < 4
        invariant
            i <= 4,
            out@ == head + mask_key@.take(i as int),
        decreases 4 - i,
    {
        out.push(mask_key[i]);
        i = i + 1;
        assert(out@ =~= head + mask_key@.take(i as int));
    }
    assert(mask_key@.take(4) =~= mask_key@);
    let ghost head2 = out@;
    let mut i: usize = 0;
    while i < len
        invariant
            i <= len,
            len == payload@.len(),
            out@ == head2 + masked(payload@, mask_key@).take(i as int),
        decreases len - i,
    {
        out.push(payload[i] ^ mask_key[i % 4]);
        i = i + 1;
        assert(out@ =~= head2 + masked(payload@, mask_key@).take(i as int));
    }
    assert(masked(payload@, mask_key@).take(len as int) =~= masked(payload@, mask_key@));
    out
}

/// Reads one frame from the front of `buf`.
pub fn parse_frame(buf: &[u8]) -> (r: ReadOutcome)
    ensures
        r.view_outcome() == parse_spec(buf@),
{
    if buf.len() < 2 {
        return ReadOutcome::NeedMore;
    }
    let b0 = buf[0];
    let b1 = buf[1];
    if b0 == 72 && b1 == 84 {
        return ReadOutcome::HttpResponse;
    }
    let opcode: u8 = b0 & 0x0F;
    let is_masked = b1 & 0x80 != 0;
    let len7: u8 = b1 & 0x7F;
    assert(opcode == b0 % 16) by (bit_vector)
        requires
            opcode == b0 & 0x0F,
    ;
    assert(is_masked == (b1 >= 128)) by (bit_vector)
        requires
            is_masked == (b1 & 0x80 != 0),
    ;
    assert(len7 == b1 % 128) by (bit_vector)
        requires
            len7 == b1 & 0x7F,
    ;
    let ext: usize = if len7 == 126 {
        2
    } else if len7 == 127 {
        8
    } else {
        0
    };
    let mask_len: usize = if is_masked {
        4
    } else {
        0
    };
    let hdr = 2 + ext + mask_len;
    if buf.len() < hdr {
        return ReadOutcome::NeedMore;
    }
    let len: u64 = if ext == 0 {
        len7 as u64
    } else {
        be_value_exec(buf, 2, ext)
    };
    if len > MAX_PAYLOAD {
        return ReadOutcome::TooLarge(len);
    }
    let n = len as usize;
    if buf.len() - hdr < n {
        return ReadOutcome::NeedMore;
    }
    let mut payload: Vec<u8> = Vec::new();
    let mut i: usize = 0;
    let ghost raw = buf@.subrange(hdr as int, hdr + n);
    let ghost key = buf@.subrange(2 + ext, 2 + ext + 4);
    while i < n
        invariant
            i <= n,
            hdr + n <= buf.len(),
            hdr == 2 + ext + mask_len,
            mask_len == (if is_masked { 4usize } else { 0usize }),
            raw == buf@.subrange(hdr as int, hdr + n),
            key == buf@.subrange(2 + ext, 2 + ext + 4),
            payload@ == (if is_masked { masked(raw, key) } else { raw }).take(i as int),
        decreases n - i,
    {
        let b = buf[hdr + i];
        if is_masked {
            payload.push(b ^ buf[2 + ext + i % 4]);
        } else {
            payload.push(b);
        }
        i = i + 1;
        assert(payload@ =~= (if is_masked { masked(raw, key) } else { raw }).take(i as int));
    }
    assert((if is_masked { masked(raw, key) } else { raw }).take(n as int) =~= (if is_masked { masked(raw, key) } else { raw }));
    let frame = if opcode == 0 || opcode == 1 || opcode == WS_OPCODE_BINARY {
        WsFrame::Binary(payload)
    } else if opcode == WS_OPCODE_CLOSE {
        WsFrame::Close
    } else if opcode == WS_OPCODE_PING {
        WsFrame::Ping(payload)
    } else {
        WsFrame::Other(opcode)
    };
    ReadOutcome::Frame(frame, hdr + n)
}

/// Reading back an encoded frame gives the frame with its payload unmasked,
/// whatever bytes follow it.
pub proof fn lemma_frame_roundtrip(opcode: u8, payload: Seq<u8>, key: Seq<u8>, rest: Seq<u8>)
    requires
        opcode < 16,
        key.len() == 4,
        payload.len() <= MAX_PAYLOAD,
    ensures
        parse_spec(frame_bytes(opcode, payload, key) + rest) == OutcomeV::Frame(
            frame_of(opcode, payload),
            frame_bytes(opcode, payload, key).len(),
        ),
{
    let fb = frame_bytes(opcode, payload, key);
    let buf = fb + rest;
    let len = payload.len();
    let h = frame_header(opcode, len);
    assert(buf[0] == 0x80u8 | opcode);
    assert((0x80u8 | opcode) % 16 == opcode) by (bit_vector)
        requires
            opcode < 16,
    ;
    lemma_mask_involution(payload, key);
    if len < 126 {
        assert(buf[1] == (128 + len) as u8);
        assert(h.len() == 2);
        assert(buf.subrange(6, 6 + len as int) =~= masked(payload, key));
        assert(buf.subrange(2, 6) =~= key);
    } else if len <= 65535 {
        reveal_with_fuel(pow256, 3);
        lemma_be_roundtrip(len, 2);
        assert(buf[1] == 254);
        assert(h.len() == 4);
        assert(buf.subrange(2, 4) =~= be_bytes(len, 2));
        assert(buf.subrange(8, 8 + len as int) =~= masked(payload, key));
        assert(buf.subrange(4, 8) =~= key);
    } else {
        reveal_with_fuel(pow256, 9);
        lemma_be_roundtrip(len, 8);
        assert(buf[1] == 255);
        assert(h.len() == 10);
        assert(buf.subrange(2, 10) =~= be_bytes(len, 8));
        assert(buf.subrange(14, 14 + len as int) =~= masked(payload, key));
        assert(buf.subrange(10, 14) =~= key);
    }
}


/// A server's frames are not masked: an unmasked final binary frame with a
/// short length byte reads as its payload, taking the two header bytes and
/// the payload, whatever bytes follow it.
pub proof fn lemma_unmasked_binary_frame(p: Seq<u8>, rest: Seq<u8>)
    requires
        p.len() < 126,
    ensures
        parse_spec(seq![0x82u8, p.len() as u8] + p + rest) == OutcomeV::Frame(
            FrameV::Binary(p),
            (2 + p.len()) as nat,
        ),
{
    let buf = seq![0x82u8, p.len() as u8] + p + rest;
    assert(buf[0] == 0x82u8 && buf[1] == p.len() as u8);
    assert(buf.subrange(2, 2 + p.len() as int) =~= p);
}

/// Unmasked control frames read by their opcode: a ping (9) with its
/// payload, a close (8), and text (1) or continuation (0) frames carry data
/// like binary ones.
pub proof fn lemma_unmasked_control_frames(p: Seq<u8>, rest: Seq<u8>)
    requires
        p.len() < 126,
    ensures
        parse_spec(seq![0x89u8, p.len() as u8] + p + rest) == OutcomeV::Frame(FrameV::Ping(p), (2 + p.len()) as nat),
        parse_spec(seq![0x88u8, p.len() as u8] + p + rest) == OutcomeV::Frame(FrameV::Close, (2 + p.len()) as nat),
        parse_spec(seq![0x81u8, p.len() as u8] + p + rest) == OutcomeV::Frame(FrameV::Binary(p), (2 + p.len()) as nat),
        parse_spec(seq![0x80u8, p.len() as u8] + p + rest) == OutcomeV::Frame(FrameV::Binary(p), (2 + p.len()) as nat),
{
    let b9 = seq![0x89u8, p.len() as u8] + p + rest;
    let b8 = seq![0x88u8, p.len() as u8] + p + rest;
    let b1 = seq![0x81u8, p.len() as u8] + p + rest;
    let b0 = seq![0x80u8, p.len() as u8] + p + rest;
    assert(b9[0] == 0x89u8 && b9[1] == p.len() as u8);
    assert(b8[0] == 0x88u8 && b8[1] == p.len() as u8);
    assert(b1[0] == 0x81u8 && b1[1] == p.len() as u8);
    assert(b0[0] == 0x80u8 && b0[1] == p.len() as u8);
    assert(b9.subrange(2, 2 + p.len() as int) =~= p);
    assert(b8.subrange(2, 2 + p.len() as int) =~= p);
    assert(b1.subrange(2, 2 + p.len() as int) =~= p);
    assert(b0.subrange(2, 2 + p.len() as int) =~= p);
}

/// An unmasked final binary frame with a 16-bit length (126, then the length
/// most significant byte first) reads as its payload, taking four header
/// bytes and the payload.
pub proof fn lemma_unmasked_binary_frame_16(p: Seq<u8>, rest: Seq<u8>)
    requires
        126 <= p.len() <= 65535,
    ensures
        parse_spec(seq![0x82u8, 126u8, (p.len() / 256) as u8, (p.len() % 256) as u8] + p + rest)
            == OutcomeV::Frame(FrameV::Binary(p), (4 + p.len()) as nat),
{
    let len = p.len();
    let hdr = seq![0x82u8, 126u8, (len / 256) as u8, (len % 256) as u8];
    let buf = hdr + p + rest;
    assert(buf[0] == 0x82u8 && buf[1] == 126u8);
    let ext = buf.subrange(2, 4);
    assert(ext =~= seq![(len / 256) as u8, (len % 256) as u8]);
    assert(ext.drop_last() =~= seq![(len / 256) as u8]);
    assert(ext.drop_last().drop_last() =~= Seq::<u8>::empty());
    assert(be_value(ext.drop_last().drop_last()) == 0);
    assert(len / 256 < 256);
    assert(ext.drop_last().last() == (len / 256) as u8);
    assert(be_value(ext.drop_last()) == (len / 256) as nat);
    assert(ext.last() == (len % 256) as u8);
    assert(be_value(ext) == len);
    assert(buf.subrange(4, 4 + len as int) =~= p);
}

/// Masking does not change what is read: a frame masked with any key and
/// the same frame unmasked read as the same frame.
pub proof fn lemma_masked_reads_as_unmasked(p: Seq<u8>, key: Seq<u8>, rest: Seq<u8>)
    requires
        p.len() < 126,
        key.len() == 4,
    ensures
        parse_spec(frame_bytes(WS_OPCODE_BINARY, p, key) + rest) matches OutcomeV::Frame(f, _)
            && parse_spec(seq![0x82u8, p.len() as u8] + p + rest) matches OutcomeV::Frame(g, _)
            && f == g,
{
    lemma_frame_roundtrip(WS_OPCODE_BINARY, p, key, rest);
    lemma_unmasked_binary_frame(p, rest);
}

/// `uuid::Uuid::new_v4().as_bytes()`: sixteen random bytes carrying the
/// version-4 and RFC 4122 variant bits. Nothing is claimed of the other
/// bits: they come from the system's random source.
#[verifier::external_body]
pub(crate) fn random_uuid_bytes() -> (r: [u8; 16])
    ensures
        r[6] / 16 == 4,
        r[8] / 64 == 2,
{
    *uuid::Uuid::new_v4().as_bytes()
}

/// A fresh random masking key: the first four bytes of a random UUID.
pub fn rand_mask_key() -> (r: [u8; 4]) {
    let bytes = random_uuid_bytes();
    [bytes[0], bytes[1], bytes[2], bytes[3]]
}

/// Reads frames out of the bytes received so far.
pub struct WsReader {
    buf: Vec<u8>,
}

impl WsReader {
    /// The bytes received and not yet read as frames.
    pub closed spec fn pending(&self) -> Seq<u8> {
        self.buf@
    }

    pub fn new() -> (r: WsReader)
        ensures
            r.pending() == Seq::<u8>::empty(),
    {
        WsReader { buf: Vec::new() }
    }

    /// Appends received bytes.
    pub fn feed(&mut self, data: &[u8])
        ensures
            final(self).pending() == old(self).pending() + data@,
    {
        let mut i: usize = 0;
        let ghost start = self.buf@;
        while i < data.len()
            invariant
                i <= data.len(),
                self.buf@ == start + data@.take(i as int),
            decreases data.len() - i,
        {
            self.buf.push(data[i]);
            i = i + 1;
            assert(self.buf@ =~= start + data@.take(i as int));
        }
        assert(data@.take(data.len() as int) =~= data@);
    }

    /// Reads the next frame; a whole frame leaves the buffer, anything else
    /// leaves the buffer as it is.
    pub fn read_frame(&mut self) -> (r: ReadOutcome)
        ensures
            r.view_outcome() == parse_spec(old(self).pending()),
            match r {
                ReadOutcome::Frame(_, n) => final(self).pending() == old(self).pending().skip(n as int),
                _ => final(self).pending() == old(self).pending(),
            },
    {
        let r = parse_frame(self.buf.as_slice());
        if let ReadOutcome::Frame(_, n) = &r {
            proof {
                lemma_parse_consumed(self.buf@);
            }
            let n = *n;
            let rest = self.buf.split_off(n);
            self.buf = rest;
        }
        r
    }
}

/// A whole frame never takes more bytes than the buffer holds.
pub proof fn lemma_parse_consumed(buf: Seq<u8>)
    ensures
        parse_spec(buf) matches OutcomeV::Frame(_, n) ==> n <= buf.len(),
{
}

/// Frames outgoing data, each with a fresh random mask.
pub struct WsWriter {}

impl WsWriter {
    pub fn new() -> (r: WsWriter) {
        WsWriter {  }
    }

    /// The bytes of one final frame carrying `payload`.
    pub fn write_frame(&self, opcode: u8, payload: &[u8]) -> (r: Vec<u8>)
        ensures
            exists|key: Seq<u8>| key.len() == 4 && r@ == frame_bytes(opcode, payload@, key),
    {
        let key = rand_mask_key();
        encode_frame(opcode, payload, key)
    }

    /// A binary data frame.
    pub fn write_binary(&self, data: &[u8]) -> (r: Vec<u8>)
        ensures
            exists|key: Seq<u8>| key.len() == 4 && r@ == frame_bytes(WS_OPCODE_BINARY, data@, key),
    {
        self.write_frame(WS_OPCODE_BINARY, data)
    }

    /// An empty close frame.
    pub fn write_close(&self) -> (r: Vec<u8>)
        ensures
            exists|key: Seq<u8>| key.len() == 4 && r@ == frame_bytes(WS_OPCODE_CLOSE, seq![], key),
    {
        let empty: Vec<u8> = Vec::new();
        let r = self.write_frame(WS_OPCODE_CLOSE, empty.as_slice());
        assert(empty@ =~= Seq::<u8>::empty());
        r
    }
}

} // verus!
