use vstd::prelude::*;
use vstd::arithmetic::power2::{lemma2_to64, lemma2_to64_rest, lemma_pow2_adds, lemma_pow2_pos, pow2};
use vstd::bits::lemma_u64_shl_is_mul;

verus! {

/// Frames longer than this are refused.
pub const MAX_FRAME_LEN: usize = 1024 * 1024;

/// The LEB128 encoding of `value`: seven bits per byte, least significant
/// first, the high bit set on every byte but the last.
pub open spec fn leb128(value: nat) -> Seq<u8>
    decreases value,
{
    if value < 128 {
        seq![value as u8]
    } else {
        seq![((value % 128) + 128) as u8] + leb128(value / 128)
    }
}

/// The seven payload bits of a varint byte.
pub open spec fn chunk(byte: u8) -> u64 {
    (byte & 0x7f) as u64
}

/// The value that the bytes of a varint carry so far: the payload bits of
/// byte `i` placed at bit `7 * i` of a 64-bit value.
pub open spec fn varint_acc(bytes: Seq<u8>) -> u64
    decreases bytes.len(),
{
    if bytes.len() == 0 {
        0
    } else {
        varint_acc(bytes.drop_last()) | (chunk(bytes.last()) << ((7 * (bytes.len() - 1)) as u64))
    }
}

/// Appends the LEB128 encoding of `value` to `buf`, by
/// `prost::encoding::encode_varint`.
#[verifier::external_body]
fn encode_varint(value: u64, buf: &mut Vec<u8>)
    ensures
        final(buf)@ == old(buf)@ + leb128(value as nat),
{
    prost::encoding::encode_varint(value, buf);
}

/// The frame of a message for the game controller's team protocol: the
/// payload's length as a varint, then the payload.
pub fn frame_message(payload: &Vec<u8>) -> (frame: Vec<u8>)
    ensures
        frame@ == leb128(payload@.len()) + payload@,
{
    let mut frame: Vec<u8> = Vec::new();
    encode_varint(payload.len() as u64, &mut frame);
    let mut i: usize = 0;
    while i < payload.len()
        invariant
            i <= payload@.len(),
            frame@ == leb128(payload@.len()) + payload@.take(i as int),
        decreases payload@.len() - i,
    {
        frame.push(payload[i]);
        assert(payload@.take(i + 1 as int) =~= payload@.take(i as int).push(payload@[i as int]));
        i = i + 1;
    }
    assert(payload@.take(payload@.len() as int) =~= payload@);
    frame
}

/// What a varint decoder answers to one more byte.
#[derive(Debug, Clone, Copy, PartialEq, Eq, Structural)]
pub enum VarintStep {
    /// The varint is complete and carries this value.
    Done(u64),
    /// The varint goes on.
    NeedMore,
    /// Ten bytes went by without the varint ending.
    Invalid,
}

/// Reads the varint length prefix of a frame one byte at a time.
pub struct VarintDecoder {
    pub value: u64,
    pub shift: u32,
    pub read: u32,
    pub seen: Ghost<Seq<u8>>,
}

impl VarintDecoder {
    /// The decoder holds the bytes seen so far, fewer than ten, each with the
    /// continuation bit set, and the value they carry.
    pub open spec fn wf(self) -> bool {
        &&& self.seen@.len() == self.read
        &&& self.read < 10
        &&& self.shift == 7 * self.read
        &&& self.value == varint_acc(self.seen@)
        &&& forall|i: int| 0 <= i < self.seen@.len() ==> self.seen@[i] >= 128
    }

    /// A decoder that has seen nothing.
    pub fn new() -> (r: VarintDecoder)
        ensures
            r.wf(),
            r.seen@ == Seq::<u8>::empty(),
    {
        VarintDecoder { value: 0, shift: 0, read: 0, seen: Ghost(Seq::empty()) }
    }

    /// Takes the next byte: a byte without the continuation bit ends the
    /// varint; the tenth byte with it makes the varint invalid.
    pub fn push(&mut self, byte: u8) -> (r: VarintStep)
        requires
            old(self).wf(),
        ensures
            ({
                let seen = old(self).seen@.push(byte);
                &&& byte < 128 ==> r == VarintStep::Done(varint_acc(seen))
                &&& byte >= 128 && seen.len() == 10 ==> r == VarintStep::Invalid
                &&& byte >= 128 && seen.len() < 10 ==> r == VarintStep::NeedMore
                    && final(self).wf() && final(self).seen@ == seen
            }),
    {
        let ghost seen = self.seen@.push(byte);
        let value = self.value | (((byte & 0x7f) as u64) << (self.shift as u64));
        proof {
            assert(seen.drop_last() =~= self.seen@);
            assert(((byte & 0x7f) as u64) == chunk(byte));
        }
        if byte & 0x80 == 0 {
            assert(byte < 128) by (bit_vector)
                requires
                    byte & 0x80 == 0,
            ;
            return VarintStep::Done(value);
        }
        assert(byte >= 128) by (bit_vector)
            requires
                byte & 0x80 != 0,
        ;
        if self.read + 1 == 10 {
            return VarintStep::Invalid;
        }
        self.value = value;
        self.shift = self.shift + 7;
        self.read = self.read + 1;
        self.seen = Ghost(seen);
        VarintStep::NeedMore
    }
}

/// Why a frame from the game controller is refused.
#[derive(Debug, Clone, Copy, PartialEq, Eq, Structural)]
pub enum FrameError {
    /// The length prefix did not end within ten bytes.
    InvalidLength,
    /// The announced length is above the limit.
    TooLarge(usize),
}

/// Checks an announced frame length against the limit.
pub fn check_frame_len(len: u64) -> (r: Result<usize, FrameError>)
    ensures
        (len as usize) <= MAX_FRAME_LEN ==> r == Ok::<usize, FrameError>(len as usize),
        (len as usize) > MAX_FRAME_LEN ==> r == Err::<usize, FrameError>(FrameError::TooLarge(len as usize)),
{
    let len = len as usize;
    if len > MAX_FRAME_LEN {
        return Err(FrameError::TooLarge(len));
    }
    Ok(len)
}

/// The number that the bytes of a varint carry, least significant group of
/// seven bits first.
pub open spec fn varint_value(bytes: Seq<u8>) -> nat
    decreases bytes.len(),
{
    if bytes.len() == 0 {
        0
    } else {
        chunk(bytes[0]) as nat + 128 * varint_value(bytes.drop_first())
    }
}

/// The same number, summed from the last byte.
spec fn value_from_back(bytes: Seq<u8>) -> nat
    decreases bytes.len(),
{
    if bytes.len() == 0 {
        0
    } else {
        value_from_back(bytes.drop_last()) + chunk(bytes.last()) as nat * pow2((7 * (bytes.len() - 1)) as nat)
    }
}

proof fn lemma_chunk_below_128(b: u8)
    ensures
        chunk(b) < 128,
        b < 128 ==> chunk(b) == b,
        b >= 128 ==> chunk(b) == b - 128,
{
    assert((b & 0x7f) < 128) by (bit_vector);
    assert(b < 128 ==> (b & 0x7f) == b) by (bit_vector);
    assert(b >= 128 ==> (b & 0x7f) == b - 128) by (bit_vector);
}

proof fn lemma_pow2_step(n: nat)
    ensures
        pow2(7 * (n + 1)) == 128 * pow2(7 * n),
{
    lemma_pow2_adds(7, 7 * n);
    lemma2_to64();
    assert(7 * (n + 1) == 7 + 7 * n) by (nonlinear_arith);
}

proof fn lemma_value_from_back_bound(s: Seq<u8>)
    ensures
        value_from_back(s) < pow2((7 * s.len()) as nat),
    decreases s.len(),
{
    if s.len() == 0 {
        lemma2_to64();
    } else {
        let t = s.drop_last();
        lemma_value_from_back_bound(t);
        lemma_chunk_below_128(s.last());
        let p = pow2((7 * t.len()) as nat);
        let c = chunk(s.last()) as nat;
        lemma_pow2_step(t.len());
        assert(value_from_back(t) + c * p < 128 * p) by (nonlinear_arith)
            requires
                value_from_back(t) < p,
                c < 128,
        ;
        assert(7 * (s.len() - 1) == 7 * t.len());
        assert(7 * s.len() == 7 * (t.len() + 1));
    }
}

proof fn lemma_value_prepend(x: u8, t: Seq<u8>)
    ensures
        value_from_back(seq![x] + t) == chunk(x) as nat + 128 * value_from_back(t),
    decreases t.len(),
{
    let u = seq![x] + t;
    if t.len() == 0 {
        assert(u.drop_last() =~= Seq::<u8>::empty());
        assert(u.last() == x);
        lemma2_to64();
        assert(pow2((7 * (u.len() - 1)) as nat) == 1);
        assert(value_from_back(u) == value_from_back(u.drop_last()) + chunk(x) as nat * 1);
        assert(value_from_back(t) == 0);
    } else {
        let t1 = t.drop_last();
        assert(u.drop_last() =~= seq![x] + t1);
        assert(u.last() == t.last());
        lemma_value_prepend(x, t1);
        let c = chunk(t.last()) as nat;
        let p = pow2((7 * t1.len()) as nat);
        lemma_pow2_step(t1.len());
        assert(7 * (u.len() - 1) == 7 * (t1.len() + 1));
        assert(7 * (t.len() - 1) == 7 * t1.len());
        let q = pow2((7 * (u.len() - 1)) as nat);
        assert(q == 128 * p);
        assert(pow2((7 * (t.len() - 1)) as nat) == p);
        assert(value_from_back(u) == value_from_back(seq![x] + t1) + c * q);
        assert(value_from_back(t) == value_from_back(t1) + c * p);
        assert(128 * (value_from_back(t1) + c * p) == 128 * value_from_back(t1) + c * (128 * p))
            by (nonlinear_arith);
        assert(value_from_back(u) == chunk(x) as nat + 128 * value_from_back(t));
    }
}

proof fn lemma_value_front_back(s: Seq<u8>)
    ensures
        varint_value(s) == value_from_back(s),
    decreases s.len(),
{
    if s.len() > 0 {
        lemma_value_front_back(s.drop_first());
        assert(s =~= seq![s[0]] + s.drop_first());
        lemma_value_prepend(s[0], s.drop_first());
    }
}

proof fn lemma_varint_acc_is_value(s: Seq<u8>)
    requires
        s.len() <= 10,
        value_from_back(s) <= u64::MAX,
    ensures
        varint_acc(s) == value_from_back(s),
    decreases s.len(),
{
    if s.len() > 0 {
        let t = s.drop_last();
        let k = (7 * t.len()) as nat;
        let p = pow2(k);
        let c = chunk(s.last());
        lemma_chunk_below_128(s.last());
        lemma_pow2_pos(k);
        assert(c as nat * p >= 0) by (nonlinear_arith)
            requires
                p > 0,
        ;
        assert(7 * (s.len() - 1) == 7 * t.len());
        lemma_varint_acc_is_value(t);
        lemma_value_from_back_bound(t);
        let a = varint_acc(t);
        assert(k <= 63);
        let ku = k as u64;
        lemma2_to64();
        lemma2_to64_rest();
        assert(p <= 0x8000000000000000) by {
            if k < 63 {
                vstd::arithmetic::power2::lemma_pow2_strictly_increases(k, 63);
            }
        }
        lemma_u64_shl_is_mul(c, ku);
        lemma_u64_shl_is_mul(1u64, ku);
        assert(a < (1u64 << ku));
        let b = c << ku;
        assert(a & b == 0) by (bit_vector)
            requires
                a < (1u64 << ku),
                ku < 64,
                b == c << ku,
        ;
        assert(a | b == a + b) by (bit_vector)
            requires
                a & b == 0,
        ;
        assert(((7 * (s.len() - 1)) as u64) == ku);
    }
}

proof fn lemma_leb128_value(v: nat)
    ensures
        leb128(v).len() >= 1,
        varint_value(leb128(v)) == v,
        forall|i: int| 0 <= i < leb128(v).len() - 1 ==> leb128(v)[i] >= 128,
        leb128(v).last() < 128,
    decreases v,
{
    if v < 128 {
        let b = v as u8;
        lemma_chunk_below_128(b);
        assert(leb128(v) == seq![b]);
        assert(leb128(v).drop_first() =~= Seq::<u8>::empty());
        assert(varint_value(Seq::<u8>::empty()) == 0);
        assert(varint_value(leb128(v)) == chunk(b) as nat + 128 * varint_value(Seq::<u8>::empty()));
    } else {
        let b = ((v % 128) + 128) as u8;
        lemma_chunk_below_128(b);
        lemma_leb128_value(v / 128);
        let rest = leb128(v / 128);
        assert(leb128(v) == seq![b] + rest);
        assert(leb128(v)[0] == b);
        assert(leb128(v).drop_first() =~= rest);
        assert(chunk(b) == v % 128);
        assert(varint_value(leb128(v)) == chunk(b) as nat + 128 * varint_value(rest));
        assert(v % 128 + 128 * (v / 128) == v);
        assert forall|i: int| 0 <= i < leb128(v).len() - 1 implies leb128(v)[i] >= 128 by {
            if i > 0 {
                assert(leb128(v)[i] == rest[i - 1]);
            }
        }
        assert(leb128(v).last() == rest.last());
    }
}

proof fn lemma_leb128_len(v: nat, k: nat)
    requires
        1 <= k,
        v < pow2(7 * k),
    ensures
        leb128(v).len() <= k,
    decreases v,
{
    if v >= 128 {
        lemma_pow2_step((k - 1) as nat);
        assert(7 * k == 7 * ((k - 1) + 1));
        lemma2_to64();
        if k == 1 {
            assert(pow2(7) == 128);
        }
        assert(k >= 2);
        assert(v / 128 < pow2(7 * ((k - 1) as nat))) by (nonlinear_arith)
            requires
                v < 128 * pow2(7 * ((k - 1) as nat)),
        ;
        lemma_leb128_len(v / 128, (k - 1) as nat);
    }
}

/// Reading back a frame's length prefix gives the length that was written:
/// the LEB128 bytes of a 64-bit number are at most ten, every byte but the
/// last has the continuation bit, and the bytes carry exactly that number.
/// So a `VarintDecoder` fed the prefix answers `NeedMore` up to the last
/// byte and then `Done` with the written length.
pub proof fn lemma_varint_round_trip(v: u64)
    ensures
        ({
            let bytes = leb128(v as nat);
            &&& 1 <= bytes.len() <= 10
            &&& forall|i: int| 0 <= i < bytes.len() - 1 ==> bytes[i] >= 128
            &&& bytes.last() < 128
            &&& varint_value(bytes) == v
            &&& varint_acc(bytes) == v
        }),
{
    let bytes = leb128(v as nat);
    lemma_leb128_value(v as nat);
    lemma2_to64();
    lemma2_to64_rest();
    assert(pow2(70) == pow2(64) * pow2(6)) by {
        lemma_pow2_adds(64, 6);
    }
    assert(7 * 10nat == 70);
    lemma_leb128_len(v as nat, 10);
    lemma_value_front_back(bytes);
    lemma_varint_acc_is_value(bytes);
}

/// What the connection reads of a controller reply: its status code, the
/// reason given, and the token for the next request.
pub struct ControllerReplyView {
    pub status_code: Option<i32>,
    pub reason: Option<String>,
    pub next_token: Option<String>,
}

/// Why registering with the game controller failed.
pub enum RegistrationError {
    /// The answer to the registration carried no controller reply.
    NoReply,
    /// The controller refused the registration, for this reason.
    Rejected(String),
}

/// The text of an optional string.
pub open spec fn text_of(s: Option<String>) -> Option<Seq<char>> {
    match s {
        Some(t) => Some(t@),
        None => None,
    }
}

/// The token that the controller's hello hands out, if its message carries
/// a reply with one.
pub fn hello_token(hello: Option<ControllerReplyView>) -> (r: Option<String>)
    ensures
        text_of(r) == match hello {
            Some(reply) => text_of(reply.next_token),
            None => None,
        },
{
    match hello {
        Some(reply) => reply.next_token,
        None => None,
    }
}

/// The outcome of the registration from the controller's answer: without a
/// reply it failed; a reply whose status is not `ok_code` is a refusal with
/// the reason given (or `unknown reason`); otherwise the registration holds
/// and the token is the reply's, or the earlier one when the reply has none.
pub fn registration_outcome(reply: Option<ControllerReplyView>, ok_code: i32, token: Option<String>) -> (r: Result<
    Option<String>,
    RegistrationError,
>)
    ensures
        match reply {
            None => r matches Err(RegistrationError::NoReply),
            Some(answer) => if answer.status_code != Some(ok_code) {
                r matches Err(RegistrationError::Rejected(reason)) && reason@ == match answer.reason {
                    Some(given) => given@,
                    None => "unknown reason"@,
                }
            } else {
                r matches Ok(t) && text_of(t) == if answer.next_token is Some {
                    text_of(answer.next_token)
                } else {
                    text_of(token)
                }
            },
        },
{
    let answer = match reply {
        Some(answer) => answer,
        None => {
            return Err(RegistrationError::NoReply);
        },
    };
    let accepted = match answer.status_code {
        Some(code) => code == ok_code,
        None => false,
    };
    if !accepted {
        let reason = match answer.reason {
            Some(given) => given,
            None => "unknown reason".to_owned(),
        };
        return Err(RegistrationError::Rejected(reason));
    }
    match answer.next_token {
        Some(next) => Ok(Some(next)),
        None => Ok(token),
    }
}

/// The token after the answer to a request: a reply replaces it with the
/// reply's token (also when that is none); a message without reply keeps it.
pub fn token_after_reply(reply: Option<ControllerReplyView>, token: Option<String>) -> (r: Option<String>)
    ensures
        text_of(r) == match reply {
            Some(answer) => text_of(answer.next_token),
            None => text_of(token),
        },
{
    match reply {
        Some(answer) => answer.next_token,
        None => token,
    }
}

} // verus!
