//! Numbers spread over registers of 16 bits, most significant register first,
//! and the two ways in which devices reorder them.
use vstd::prelude::*;

verus! {

/// How many numbers fit in `n` registers.
pub open spec fn span(n: nat) -> nat
    decreases n,
{
    if n == 0 {
        1
    } else {
        65536 * span((n - 1) as nat)
    }
}

/// The number that registers hold, the first being the most significant.
pub open spec fn number_of(words: Seq<u16>) -> nat
    decreases words.len(),
{
    if words.len() == 0 {
        0
    } else {
        number_of(words.drop_last()) * 65536 + words.last() as nat
    }
}

/// A number spread over `n` registers.
pub open spec fn words_of(v: nat, n: nat) -> Seq<u16>
    decreases n,
{
    if n == 0 {
        Seq::empty()
    } else {
        words_of(v / 65536, (n - 1) as nat).push((v % 65536) as u16)
    }
}

/// The number that the bits of `n` registers stand for in two's complement.
pub open spec fn signed_number(v: nat, n: nat) -> int {
    if 2 * v < span(n) {
        v as int
    } else {
        v - span(n)
    }
}

/// The bits that stand for a number in two's complement in `n` registers.
pub open spec fn signed_bits(i: int, n: nat) -> nat {
    if i < 0 {
        (i + span(n)) as nat
    } else {
        i as nat
    }
}

/// A register with its two bytes exchanged.
pub open spec fn exchanged(w: u16) -> u16 {
    ((w % 256) * 256 + w / 256) as u16
}

/// Registers with the bytes of each exchanged.
pub open spec fn bytes_exchanged(words: Seq<u16>) -> Seq<u16> {
    Seq::new(words.len(), |i: int| exchanged(words[i]))
}

/// Registers as a device holds them, put in the order in which they are read
/// as a number, or back: both ways are the same.
pub open spec fn arranged(words: Seq<u16>, swap_bytes: bool, swap_words: bool) -> Seq<u16> {
    let w = if swap_bytes {
        bytes_exchanged(words)
    } else {
        words
    };
    if swap_words {
        w.reverse()
    } else {
        w
    }
}

/// What one, two, four and eight registers hold.
pub proof fn lemma_spans()
    ensures
        span(1) == 0x1_0000,
        span(2) == 0x1_0000_0000,
        span(4) == 0x1_0000_0000_0000_0000,
        span(8) == 0x1_0000_0000_0000_0000_0000_0000_0000_0000,
{
    assert(span(0) == 1);
    assert(span(1) == 65536 * span(0));
    assert(span(2) == 65536 * span(1));
    assert(span(3) == 65536 * span(2));
    assert(span(4) == 65536 * span(3));
    assert(span(5) == 65536 * span(4));
    assert(span(6) == 65536 * span(5));
    assert(span(7) == 65536 * span(6));
    assert(span(8) == 65536 * span(7));
}

/// More registers hold more.
pub proof fn lemma_span_grows(a: nat, b: nat)
    requires
        a <= b,
    ensures
        span(a) <= span(b),
        span(a) >= 1,
    decreases b,
{
    if a < b {
        lemma_span_grows(a, (b - 1) as nat);
    } else if a > 0 {
        lemma_span_grows((a - 1) as nat, (a - 1) as nat);
    }
}

/// What registers hold is below their span.
pub proof fn lemma_number_bound(words: Seq<u16>)
    ensures
        number_of(words) < span(words.len()),
    decreases words.len(),
{
    if words.len() > 0 {
        lemma_number_bound(words.drop_last());
    }
}

/// A number that is spread over registers is the number that they hold, and
/// the registers that hold a number are those over which it is spread.
pub proof fn law_words_hold_number(v: nat, n: nat, words: Seq<u16>)
    requires
        v < span(n),
    ensures
        words_of(v, n).len() == n,
        number_of(words_of(v, n)) == v,
        words_of(number_of(words), words.len()) == words,
{
    lemma_words_of(v, n);
    lemma_number_of(words);
}

proof fn lemma_words_of(v: nat, n: nat)
    requires
        v < span(n),
    ensures
        words_of(v, n).len() == n,
        number_of(words_of(v, n)) == v,
    decreases n,
{
    if n > 0 {
        lemma_words_of(v / 65536, (n - 1) as nat);
        assert(words_of(v, n).drop_last() =~= words_of(v / 65536, (n - 1) as nat));
    }
}

proof fn lemma_number_of(words: Seq<u16>)
    ensures
        words_of(number_of(words), words.len()) == words,
    decreases words.len(),
{
    if words.len() > 0 {
        lemma_number_of(words.drop_last());
        let m = number_of(words.drop_last());
        assert((m * 65536 + words.last() as nat) / 65536 == m);
        assert((m * 65536 + words.last() as nat) % 65536 == words.last() as nat);
        assert(words =~= words.drop_last().push(words.last()));
    } else {
        assert(words =~= Seq::<u16>::empty());
    }
}

/// How many registers a number is spread over.
pub proof fn lemma_words_len(v: nat, n: nat)
    ensures
        words_of(v, n).len() == n,
    decreases n,
{
    if n > 0 {
        lemma_words_len(v / 65536, (n - 1) as nat);
    }
}

/// Arranging registers twice in the same way gives them back.
pub proof fn law_arranged_twice(words: Seq<u16>, swap_bytes: bool, swap_words: bool)
    ensures
        arranged(arranged(words, swap_bytes, swap_words), swap_bytes, swap_words) == words,
{
    assert forall|w: u16| exchanged(#[trigger] exchanged(w)) == w by {
        let e = (w % 256) * 256 + w / 256;
        assert(e < 65536);
        assert(e % 256 == w / 256);
        assert(e / 256 == w % 256);
    }
    assert(arranged(arranged(words, swap_bytes, swap_words), swap_bytes, swap_words) =~= words);
}

/// A number and its bits in two's complement stand for each other.
pub proof fn law_signed_bits(v: nat, n: nat)
    requires
        v < span(n),
    ensures
        signed_bits(signed_number(v, n), n) == v,
        -(span(n) as int) <= 2 * signed_number(v, n) < span(n),
{
}

/// The largest number of `n` registers.
pub fn largest(n: usize) -> (r: u128)
    requires
        n == 1 || n == 2 || n == 4 || n == 8,
    ensures
        r == span(n as nat) - 1,
{
    proof {
        lemma_spans();
    }
    if n == 1 {
        0xFFFF
    } else if n == 2 {
        0xFFFF_FFFF
    } else if n == 4 {
        0xFFFF_FFFF_FFFF_FFFF
    } else {
        0xFFFF_FFFF_FFFF_FFFF_FFFF_FFFF_FFFF_FFFF
    }
}

/// The number that up to eight registers hold.
pub fn join_words(words: &Vec<u16>) -> (r: u128)
    requires
        words@.len() <= 8,
    ensures
        r == number_of(words@),
        r < span(words@.len()),
{
    let n: usize = words.len();
    let mut acc: u128 = 0;
    assert(words@.take(0) =~= Seq::<u16>::empty());
    for i in 0..n
        invariant
            n == words@.len() <= 8,
            acc == number_of(words@.take(i as int)),
    {
        assert(words@.take(i + 1).drop_last() =~= words@.take(i as int));
        proof {
            lemma_number_bound(words@.take(i + 1));
            lemma_span_grows((i + 1) as nat, 8);
            lemma_spans();
        }
        acc = acc * 65536 + words[i] as u128;
    }
    assert(words@.take(n as int) =~= words@);
    proof {
        lemma_number_bound(words@);
    }
    acc
}

/// Puts a number, spread over `n` registers, at the end of a list.
pub fn push_words(out: &mut Vec<u16>, v: u128, n: usize)
    ensures
        final(out)@ == old(out)@ + words_of(v as nat, n as nat),
    decreases n,
{
    if n > 0 {
        push_words(out, v / 65536, n - 1);
        let w: u16 = (v % 65536) as u16;
        out.push(w);
    }
    assert(out@ =~= old(out)@ + words_of(v as nat, n as nat));
}

/// A number spread over `n` registers.
pub fn split_number(v: u128, n: usize) -> (r: Vec<u16>)
    ensures
        r@ == words_of(v as nat, n as nat),
{
    let mut r: Vec<u16> = Vec::new();
    push_words(&mut r, v, n);
    assert(r@ =~= words_of(v as nat, n as nat));
    r
}

/// A register with its two bytes exchanged.
pub fn exchange(w: u16) -> (r: u16)
    ensures
        r == exchanged(w),
{
    (w % 256) * 256 + w / 256
}

/// Registers put in the order in which they are read as a number, or back.
pub fn arrange(words: &Vec<u16>, swap_bytes: bool, swap_words: bool) -> (r: Vec<u16>)
    ensures
        r@ == arranged(words@, swap_bytes, swap_words),
{
    let n: usize = words.len();
    let mut r: Vec<u16> = Vec::new();
    let ghost goal = arranged(words@, swap_bytes, swap_words);
    for i in 0..n
        invariant
            n == words@.len(),
            goal == arranged(words@, swap_bytes, swap_words),
            r@ == goal.take(i as int),
    {
        let w: u16 = if swap_words {
            words[n - 1 - i]
        } else {
            words[i]
        };
        let w: u16 = if swap_bytes {
            exchange(w)
        } else {
            w
        };
        assert(w == goal[i as int]);
        r.push(w);
    }
    assert(goal.take(n as int) =~= goal);
    r
}

/// The number that the bits of `n` registers stand for in two's complement.
pub fn to_signed(v: u128, n: usize) -> (r: i128)
    requires
        n == 1 || n == 2 || n == 4 || n == 8,
        v < span(n as nat),
    ensures
        r == signed_number(v as nat, n as nat),
{
    proof {
        lemma_spans();
    }
    let top: u128 = largest(n);
    if v <= top / 2 {
        v as i128
    } else {
        -((top - v) as i128) - 1
    }
}

/// The bits that stand for a number in two's complement in `n` registers.
pub fn to_bits(i: i128, n: usize) -> (r: u128)
    requires
        n == 1 || n == 2 || n == 4 || n == 8,
        -(span(n as nat) as int) <= 2 * i < span(n as nat),
    ensures
        r == signed_bits(i as int, n as nat),
        r < span(n as nat),
{
    proof {
        lemma_spans();
    }
    let top: u128 = largest(n);
    if i < 0 {
        let below: u128 = (-(i + 1)) as u128;
        top - below
    } else {
        i as u128
    }
}

} // verus!
