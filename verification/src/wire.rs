//! The messages on the event pipe: one byte for the event, followed by the
//! address of the activity that it concerns in the machine's native word
//! size, least significant byte first.

use vstd::prelude::*;
use crate::event::{Event, EVENT_COUNT};
use vstd::arithmetic::power::pow;

verus! {

/// The number of bytes in a machine word (a `usize`).
pub open spec fn word_size() -> nat {
    vstd::layout::size_of::<usize>()
}

/// `256` raised to the power `n`: one more than the largest number that `n`
/// bytes can hold.
pub open spec fn radix_pow(n: nat) -> nat
    decreases n,
{
    if n == 0 {
        1
    } else {
        256 * radix_pow((n - 1) as nat)
    }
}

/// The `n` lowest bytes of `x`, least significant first.
pub open spec fn le_bytes(x: nat, n: nat) -> Seq<u8>
    decreases n,
{
    if n == 0 {
        Seq::empty()
    } else {
        seq![(x % 256) as u8] + le_bytes(x / 256, (n - 1) as nat)
    }
}

/// The number that the bytes `s` spell, least significant first.
pub open spec fn le_value(s: Seq<u8>) -> nat
    decreases s.len(),
{
    if s.len() == 0 {
        0
    } else {
        s[0] as nat + 256 * le_value(s.drop_first())
    }
}

pub proof fn lemma_radix_pow_positive(n: nat)
    ensures
        radix_pow(n) >= 1,
    decreases n,
{
    if n > 0 {
        lemma_radix_pow_positive((n - 1) as nat);
    }
}

pub proof fn lemma_radix_pow_word()
    ensures
        radix_pow(word_size()) == usize::MAX as nat + 1,
        word_size() >= 1,
{
    broadcast use vstd::layout::layout_of_primitives;
    assert(radix_pow(4) == 0x1_0000_0000) by {
        reveal_with_fuel(radix_pow, 5);
    }
    assert(radix_pow(8) == 0x1_0000_0000_0000_0000) by {
        reveal_with_fuel(radix_pow, 9);
    }
}

pub proof fn lemma_le_bytes_len(x: nat, n: nat)
    ensures
        le_bytes(x, n).len() == n,
    decreases n,
{
    if n > 0 {
        lemma_le_bytes_len(x / 256, (n - 1) as nat);
    }
}

pub proof fn lemma_le_value_bound(s: Seq<u8>)
    ensures
        le_value(s) < radix_pow(s.len()),
    decreases s.len(),
{
    if s.len() > 0 {
        let rest = s.drop_first();
        lemma_le_value_bound(rest);
        let v = le_value(rest);
        let p = radix_pow(rest.len());
        assert(s[0] as nat + 256 * v < 256 * p) by (nonlinear_arith)
            requires
                v < p,
                s[0] < 256,
        ;
    }
}

/// Reading back the `n` lowest bytes of a number below `256^n` gives the
/// number.
pub proof fn lemma_le_value_of_bytes(x: nat, n: nat)
    requires
        x < radix_pow(n),
    ensures
        le_value(le_bytes(x, n)) == x,
        le_bytes(x, n).len() == n,
    decreases n,
{
    lemma_le_bytes_len(x, n);
    if n > 0 {
        let p = radix_pow((n - 1) as nat);
        assert(x / 256 < p) by (nonlinear_arith)
            requires
                x < 256 * p,
        ;
        lemma_le_value_of_bytes(x / 256, (n - 1) as nat);
        let s = le_bytes(x, n);
        assert(s.drop_first() =~= le_bytes(x / 256, (n - 1) as nat));
        assert(x == (x % 256) + 256 * (x / 256)) by (nonlinear_arith);
    }
}

/// Writing out the number that some bytes spell gives back those bytes.
pub proof fn lemma_le_bytes_of_value(s: Seq<u8>)
    ensures
        le_bytes(le_value(s), s.len()) == s,
    decreases s.len(),
{
    if s.len() > 0 {
        let rest = s.drop_first();
        lemma_le_bytes_of_value(rest);
        let v = le_value(rest);
        let x = le_value(s);
        assert(x % 256 == s[0] as nat && x / 256 == v) by (nonlinear_arith)
            requires
                x == s[0] as nat + 256 * v,
                s[0] < 256,
        ;
        assert(le_bytes(x, s.len()) =~= seq![s[0]] + rest);
        assert(seq![s[0]] + rest =~= s);
    }
}

/// Byte `k` of `le_bytes(x, n)` is digit `k` of `x` in base 256: the
/// quotient of `x` by `256^k`, modulo 256.
pub proof fn lemma_le_bytes_digit(x: nat, n: nat, k: nat)
    requires
        k < n,
    ensures
        le_bytes(x, n)[k as int] as int == (x as int / pow(256, k)) % 256,
    decreases k,
{
    vstd::arithmetic::power::lemma_pow_positive(256, k);
    if k == 0 {
        vstd::arithmetic::power::lemma_pow0(256);
    } else {
        let rest = le_bytes(x / 256, (n - 1) as nat);
        lemma_le_bytes_len(x / 256, (n - 1) as nat);
        assert(le_bytes(x, n) == seq![(x % 256) as u8] + rest);
        assert(le_bytes(x, n)[k as int] == rest[k - 1]);
        lemma_le_bytes_digit(x / 256, (n - 1) as nat, (k - 1) as nat);
        let p = pow(256, (k - 1) as nat);
        vstd::arithmetic::power::lemma_pow_positive(256, (k - 1) as nat);
        assert(pow(256, k) == 256 * p) by {
            reveal(pow);
        }
        vstd::arithmetic::div_mod::lemma_div_denominator(x as int, 256, p);
    }
}

/// Digit `k` in base 256 of the number that bytes `s` spell is `s[k]`: byte
/// `k` carries the weight `256^k`.
pub proof fn lemma_le_value_digit(s: Seq<u8>, k: nat)
    requires
        k < s.len(),
    ensures
        (le_value(s) as int / pow(256, k)) % 256 == s[k as int] as int,
{
    lemma_le_bytes_of_value(s);
    lemma_le_bytes_digit(le_value(s), s.len(), k);
}

/// The little-endian bytes of `x`, as many as a machine word has: what
/// `usize::to_le_bytes` gives.
pub fn usize_to_le_bytes(x: usize) -> (r: Vec<u8>)
    ensures
        r@ == le_bytes(x as nat, word_size()),
        r@.len() == word_size(),
        forall|k: int|
            0 <= k < word_size() ==> #[trigger] r@[k] as int == (x as int / pow(256, k as nat)) % 256,
{
    let n = core::mem::size_of::<usize>();
    let mut out: Vec<u8> = Vec::new();
    let mut v: usize = x;
    let mut i: usize = 0;
    proof {
        lemma_le_bytes_len(x as nat, n as nat);
    }
    while i < n
        invariant
            i <= n,
            n == word_size(),
            out@ + le_bytes(v as nat, (n - i) as nat) == le_bytes(x as nat, n as nat),
        decreases n - i,
    {
        let ghost rest = le_bytes(v as nat / 256, (n - i - 1) as nat);
        assert(le_bytes(v as nat, (n - i) as nat) == seq![(v % 256) as u8] + rest);
        out.push((v % 256) as u8);
        v = v / 256;
        i = i + 1;
    }
    assert(out@ + le_bytes(v as nat, 0) =~= out@);
    proof {
        lemma_le_bytes_len(x as nat, n as nat);
        assert forall|k: int| 0 <= k < word_size() implies #[trigger] out@[k] as int == (x as int
            / pow(256, k as nat)) % 256 by {
            lemma_le_bytes_digit(x as nat, n as nat, k as nat);
        }
    }
    out
}

/// The number that `bytes` spell, least significant byte first: what
/// `usize::from_le_bytes` gives.
pub fn usize_from_le_bytes(bytes: &[u8]) -> (r: usize)
    requires
        bytes@.len() == word_size(),
    ensures
        r as nat == le_value(bytes@),
        forall|k: int|
            0 <= k < word_size() ==> (r as int / pow(256, k as nat)) % 256 == #[trigger] bytes@[k] as int,
{
    let n = bytes.len();
    let mut acc: usize = 0;
    let mut i: usize = n;
    proof {
        lemma_radix_pow_word();
    }
    assert(bytes@.subrange(n as int, n as int) =~= Seq::<u8>::empty());
    while i > 0
        invariant
            i <= n,
            n == bytes@.len(),
            radix_pow(n as nat) == usize::MAX as nat + 1,
            acc as nat == le_value(bytes@.subrange(i as int, n as int)),
        decreases i,
    {
        i = i - 1;
        let ghost tail = bytes@.subrange(i + 1, n as int);
        let ghost cur = bytes@.subrange(i as int, n as int);
        assert(cur.drop_first() =~= tail);
        proof {
            lemma_le_value_bound(tail);
            lemma_radix_pow_monotone(tail.len(), (n - 1) as nat);
            let p = radix_pow((n - 1) as nat);
            assert(acc as nat * 256 + bytes[i as int] < 256 * p) by (nonlinear_arith)
                requires
                    acc < p,
                    bytes[i as int] < 256,
            ;
        }
        acc = acc * 256 + bytes[i] as usize;
    }
    assert(bytes@.subrange(0, n as int) =~= bytes@);
    proof {
        assert forall|k: int| 0 <= k < word_size() implies (acc as int / pow(256, k as nat)) % 256
            == #[trigger] bytes@[k] as int by {
            lemma_le_value_digit(bytes@, k as nat);
        }
    }
    acc
}

pub proof fn lemma_radix_pow_monotone(a: nat, b: nat)
    requires
        a <= b,
    ensures
        radix_pow(a) <= radix_pow(b),
    decreases b,
{
    if a < b {
        lemma_radix_pow_monotone(a, (b - 1) as nat);
        lemma_radix_pow_positive((b - 1) as nat);
    }
}

/// The message that tells the looper thread that `event` happened to the
/// activity at address `activity`.
pub open spec fn wake_message(activity: usize, event: Event) -> Seq<u8> {
    seq![event.code()] + le_bytes(activity as nat, word_size())
}

/// The length of every message on the event pipe.
pub open spec fn wake_message_len_spec() -> nat {
    1 + word_size()
}

/// What a message on the event pipe says: the activity's address and the
/// event, or `None` where the message has the wrong length or its first byte
/// is no event's code.
pub open spec fn parse_wake_message(msg: Seq<u8>) -> Option<(usize, Event)> {
    if msg.len() == wake_message_len_spec() && msg[0] < EVENT_COUNT {
        Some((le_value(msg.drop_first()) as usize, Event::spec_from_code(msg[0])->Some_0))
    } else {
        None
    }
}

/// The length of every message on the event pipe, in bytes.
pub fn wake_message_len() -> (n: usize)
    ensures
        n == wake_message_len_spec(),
{
    proof {
        lemma_radix_pow_word();
    }
    1 + core::mem::size_of::<usize>()
}

/// The bytes that tell the looper thread that `event` happened to the
/// activity at address `activity`.
pub fn encode_wake_message(activity: usize, event: Event) -> (msg: Vec<u8>)
    ensures
        msg@ == wake_message(activity, event),
        msg@.len() == wake_message_len_spec(),
        msg@[0] == event.code(),
        forall|k: int|
            0 <= k < word_size() ==> #[trigger] msg@[k + 1] as int == (activity as int / pow(
                256,
                k as nat,
            )) % 256,
{
    let mut msg: Vec<u8> = Vec::new();
    msg.push(event.to_byte());
    let mut word = usize_to_le_bytes(activity);
    let ghost w = word@;
    msg.append(&mut word);
    assert forall|k: int| 0 <= k < word_size() implies #[trigger] msg@[k + 1] == w[k] by {}
    msg
}

/// Reads a message from the event pipe: the activity's address and the event,
/// or `None` where the message has the wrong length or its first byte is no
/// event's code.
pub fn decode_wake_message(msg: &[u8]) -> (r: Option<(usize, Event)>)
    ensures
        r == parse_wake_message(msg@),
        r is Some <==> msg@.len() == 1 + word_size() && msg@[0] < EVENT_COUNT,
        r matches Some((activity, event)) ==> {
            &&& event.code() == msg@[0]
            &&& forall|k: int|
                0 <= k < word_size() ==> (activity as int / pow(256, k as nat)) % 256
                    == #[trigger] msg@[k + 1] as int
        },
{
    let n = wake_message_len();
    if msg.len() != n {
        return None;
    }
    match Event::from_byte(msg[0]) {
        None => None,
        Some(event) => {
            let (_, word) = msg.split_at(1);
            assert(word@ =~= msg@.drop_first());
            let activity = usize_from_le_bytes(word);
            assert forall|k: int| 0 <= k < word_size() implies (activity as int / pow(256, k as nat))
                % 256 == #[trigger] msg@[k + 1] as int by {
                assert(msg@[k + 1] == word@[k]);
            }
            Some((activity, event))
        },
    }
}

} // verus!
