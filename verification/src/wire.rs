//! Mailbox wire encoding: little-endian words, the Caliptra mailbox checksum,
//! and the retry decision taken on each mailbox execution.
use vstd::prelude::*;
use crate::mcu_error::{McuErrorCode, McuResult};
use crate::mcu_error::codes::{mailbox_busy, spec_mailbox_busy};

verus! {

/// Size of the common mailbox response header (checksum and FIPS status).
pub const MBOX_RESP_HEADER_SIZE: usize = 8;

/// The sum of the bytes of a sequence.
pub open spec fn byte_sum(s: Seq<u8>) -> int
    decreases s.len(),
{
    if s.len() == 0 {
        0
    } else {
        byte_sum(s.drop_last()) + s.last()
    }
}

/// An integer reduced into the `u32` range, as wrapping arithmetic does.
pub open spec fn wrap32(x: int) -> u32 {
    (x % 0x1_0000_0000) as u32
}

/// The four little-endian bytes of a word.
pub open spec fn le_bytes(x: u32) -> Seq<u8> {
    seq![
        (x % 0x100) as u8,
        ((x / 0x100) % 0x100) as u8,
        ((x / 0x1_0000) % 0x100) as u8,
        (x / 0x100_0000) as u8,
    ]
}

/// The little-endian word stored at index `i` of a byte sequence.
pub open spec fn le_u32_at(s: Seq<u8>, i: int) -> u32 {
    (s[i] + s[i + 1] * 0x100 + s[i + 2] * 0x1_0000 + s[i + 3] * 0x100_0000) as u32
}

/// The mailbox checksum of a command over the request bytes that follow the
/// checksum field: the two's complement of the byte sum of the command word
/// and those bytes.
pub open spec fn checksum_of(cmd: u32, data: Seq<u8>) -> u32 {
    wrap32(-(byte_sum(le_bytes(cmd)) + byte_sum(data)))
}

/// The byte sum of a concatenation is the sum of the byte sums.
pub proof fn lemma_byte_sum_concat(a: Seq<u8>, b: Seq<u8>)
    ensures
        byte_sum(a + b) == byte_sum(a) + byte_sum(b),
    decreases b.len(),
{
    if b.len() == 0 {
        assert(a + b =~= a);
    } else {
        lemma_byte_sum_concat(a, b.drop_last());
        assert((a + b).drop_last() =~= a + b.drop_last());
    }
}

/// The byte sum of four bytes.
pub proof fn lemma_byte_sum_four(s: Seq<u8>)
    requires
        s.len() == 4,
    ensures
        byte_sum(s) == s[0] + s[1] + s[2] + s[3],
{
    let s3 = s.drop_last();
    let s2 = s3.drop_last();
    let s1 = s2.drop_last();
    assert(s1.drop_last().len() == 0);
    assert(byte_sum(s1.drop_last()) == 0);
    assert(s1.last() == s[0]);
    assert(byte_sum(s1) == s[0]);
    assert(s2.last() == s[1]);
    assert(s3.last() == s[2]);
    assert(s.last() == s[3]);
    assert(byte_sum(s2) == s[0] + s[1]);
    assert(byte_sum(s3) == s[0] + s[1] + s[2]);
}

/// Writing a word in little-endian order and reading it back gives the word.
pub proof fn lemma_le_roundtrip(x: u32)
    ensures
        le_bytes(x).len() == 4,
        le_u32_at(le_bytes(x), 0) == x,
{
}

/// Reading a word and writing it back gives the same four bytes.
pub proof fn lemma_le_read_write(s: Seq<u8>, i: int)
    requires
        0 <= i,
        i + 4 <= s.len(),
    ensures
        le_bytes(le_u32_at(s, i)) == s.subrange(i, i + 4),
{
    let b0 = s[i] as int;
    let b1 = s[i + 1] as int;
    let b2 = s[i + 2] as int;
    let b3 = s[i + 3] as int;
    let x = b0 + b1 * 0x100 + b2 * 0x1_0000 + b3 * 0x100_0000;
    assert(x % 0x100 == b0 && (x / 0x100) % 0x100 == b1 && (x / 0x1_0000) % 0x100 == b2 && x
        / 0x100_0000 == b3) by (nonlinear_arith)
        requires
            0 <= b0 < 256,
            0 <= b1 < 256,
            0 <= b2 < 256,
            0 <= b3 < 256,
            x == b0 + b1 * 0x100 + b2 * 0x1_0000 + b3 * 0x100_0000,
    ;
    assert(le_u32_at(s, i) as int == x);
    assert(le_bytes(le_u32_at(s, i)) =~= s.subrange(i, i + 4));
}

/// The checksum cancels the request: the receiver's sum of the command
/// bytes, the request bytes and the checksum itself is zero modulo 2^32.
pub proof fn lemma_checksum_cancels(cmd: u32, data: Seq<u8>)
    ensures
        wrap32(checksum_of(cmd, data) + byte_sum(le_bytes(cmd)) + byte_sum(data)) == 0,
{
    let t = byte_sum(le_bytes(cmd)) + byte_sum(data);
    assert(((-t) % 0x1_0000_0000 + t) % 0x1_0000_0000 == 0) by (nonlinear_arith);
}

/// The little-endian bytes of a word.
pub fn u32_to_le_bytes(x: u32) -> (r: [u8; 4])
    ensures
        r@ == le_bytes(x),
{
    let r = [
        (x % 0x100) as u8,
        ((x / 0x100) % 0x100) as u8,
        ((x / 0x1_0000) % 0x100) as u8,
        (x / 0x100_0000) as u8,
    ];
    assert(r@ =~= le_bytes(x));
    r
}

/// Reads the little-endian word at `at`.
pub fn read_u32_le(buf: &[u8], at: usize) -> (r: u32)
    requires
        at + 4 <= buf@.len(),
    ensures
        r == le_u32_at(buf@, at as int),
{
    let b0 = buf[at] as u32;
    let b1 = buf[at + 1] as u32;
    let b2 = buf[at + 2] as u32;
    let b3 = buf[at + 3] as u32;
    b0 + b1 * 0x100 + b2 * 0x1_0000 + b3 * 0x100_0000
}

/// Writes `x` in little-endian order at `at`, leaving every other byte.
pub fn write_u32_le(buf: &mut Vec<u8>, at: usize, x: u32)
    requires
        at + 4 <= old(buf)@.len(),
    ensures
        final(buf)@ == old(buf)@.subrange(0, at as int) + le_bytes(x) + old(buf)@.subrange(
            at + 4,
            old(buf)@.len() as int,
        ),
{
    let _len = buf.len();
    let bytes = u32_to_le_bytes(x);
    buf.set(at, bytes[0]);
    buf.set(at + 1, bytes[1]);
    buf.set(at + 2, bytes[2]);
    buf.set(at + 3, bytes[3]);
    assert(buf@ =~= old(buf)@.subrange(0, at as int) + le_bytes(x) + old(buf)@.subrange(
        at + 4,
        old(buf)@.len() as int,
    ));
}

/// Adds every byte of `data` to `acc` with wrapping arithmetic.
pub fn wrapping_byte_sum(acc: u32, data: &[u8]) -> (r: u32)
    ensures
        r == wrap32(acc + byte_sum(data@)),
{
    let mut sum = acc;
    let mut i: usize = 0;
    while i < data.len()
        invariant
            i <= data@.len(),
            sum == wrap32(acc + byte_sum(data@.subrange(0, i as int))),
        decreases data@.len() - i,
    {
        let ghost prev = data@.subrange(0, i as int);
        assert(data@.subrange(0, i + 1).drop_last() =~= prev);
        sum = sum.wrapping_add(data[i] as u32);
        assert(sum == wrap32(acc + byte_sum(prev) + data@[i as int])) by (nonlinear_arith)
            requires
                sum == vstd::wrapping::u32_specs::wrapping_add(
                    wrap32(acc + byte_sum(prev)),
                    data@[i as int] as u32,
                ),
        ;
        i = i + 1;
    }
    assert(data@.subrange(0, data@.len() as int) =~= data@);
    sum
}

/// The mailbox checksum of `cmd` over `data`.
pub fn calc_checksum(cmd: u32, data: &[u8]) -> (r: u32)
    ensures
        r == checksum_of(cmd, data@),
{
    let cmd_bytes = u32_to_le_bytes(cmd);
    let s = wrapping_byte_sum(0, &cmd_bytes);
    let t = wrapping_byte_sum(s, data);
    proof {
        let a = byte_sum(le_bytes(cmd));
        let b = byte_sum(data@);
        assert(t == wrap32(a + b)) by (nonlinear_arith)
            requires
                s == wrap32(0 + a),
                t == wrap32(s + b),
        ;
    }
    let r = 0u32.wrapping_sub(t);
    proof {
        let x = byte_sum(le_bytes(cmd)) + byte_sum(data@);
        assert(r == wrap32(-x)) by (nonlinear_arith)
            requires
                t == wrap32(x),
                r == vstd::wrapping::u32_specs::wrapping_sub(0, t),
        ;
    }
    r
}

/// What to do after one execution of a mailbox command.
#[derive(PartialEq, Eq, Structural, Debug)]
pub enum MailboxStep<T> {
    /// The command completed with this value.
    Done(T),
    /// The mailbox was busy: execute the command again.
    Retry,
    /// The command failed: report the given error.
    Fail(McuErrorCode),
}

/// The decision taken on the result of one mailbox execution.
pub open spec fn spec_mailbox_step<T>(result: McuResult<T>, failure: McuErrorCode) -> MailboxStep<T> {
    match result {
        Ok(v) => MailboxStep::Done(v),
        Err(e) => if e == spec_mailbox_busy() {
            MailboxStep::Retry
        } else {
            MailboxStep::Fail(failure)
        },
    }
}

/// Decides, from the result of one mailbox execution, whether the command is
/// done, must be retried (the mailbox was busy), or failed with `failure`.
pub fn mailbox_step<T>(result: McuResult<T>, failure: McuErrorCode) -> (r: MailboxStep<T>)
    ensures
        r == spec_mailbox_step(result, failure),
{
    match result {
        Ok(v) => MailboxStep::Done(v),
        Err(e) => {
            if e == mailbox_busy() {
                MailboxStep::Retry
            } else {
                MailboxStep::Fail(failure)
            }
        },
    }
}

/// How a command ends when the mailbox gives `answers` in turn, one per
/// execution: the number of executions made and the final decision. The
/// command is executed again exactly while the mailbox answers busy.
pub open spec fn retry_run<T>(answers: Seq<McuResult<T>>, failure: McuErrorCode) -> (nat, MailboxStep<T>)
    decreases answers.len(),
{
    if answers.len() == 0 {
        (0, MailboxStep::Retry)
    } else {
        let step = spec_mailbox_step(answers[0], failure);
        if step is Retry {
            let (n, last) = retry_run(answers.drop_first(), failure);
            (n + 1, last)
        } else {
            (1, step)
        }
    }
}

/// A run of `k` busy answers changes nothing but the number of executions:
/// when the mailbox answers busy `k` times and then `r` (not busy), the
/// command ends as if `r` came at once, after exactly `k + 1` executions,
/// whatever would have been answered after `r`.
pub proof fn lemma_busy_run_then_answer<T>(
    k: nat,
    r: McuResult<T>,
    later: Seq<McuResult<T>>,
    failure: McuErrorCode,
)
    requires
        r != Err::<T, McuErrorCode>(spec_mailbox_busy()),
    ensures
        retry_run(Seq::new(k, |i: int| Err::<T, McuErrorCode>(spec_mailbox_busy())).push(r) + later, failure)
            == (k + 1, spec_mailbox_step(r, failure)),
        retry_run(seq![r] + later, failure) == (1nat, spec_mailbox_step(r, failure)),
        !(spec_mailbox_step(r, failure) is Retry),
    decreases k,
{
    let answers = Seq::new(k, |i: int| Err::<T, McuErrorCode>(spec_mailbox_busy())).push(r) + later;
    assert((seq![r] + later)[0] == r);
    if k > 0 {
        let rest = Seq::new((k - 1) as nat, |i: int| Err::<T, McuErrorCode>(spec_mailbox_busy())).push(r)
            + later;
        assert(answers[0] == Err::<T, McuErrorCode>(spec_mailbox_busy()));
        assert(answers.drop_first() =~= rest);
        lemma_busy_run_then_answer((k - 1) as nat, r, later, failure);
    } else {
        assert(answers =~= seq![r] + later);
    }
}

} // verus!
