use vstd::prelude::*;
use vstd::string::StringSliceAdditionalSpecFns;

use crate::ledger::same_address;
use crate::state::Address;

verus! {

/// Why a counter instruction failed.
#[derive(Clone, Copy, Debug, PartialEq, Eq, Structural)]
pub enum CounterError {
    /// The count or a balance would leave the range of `u64`.
    Overflow,
    /// The sender holds fewer lamports than it sends.
    InsufficientFunds,
    /// The signer is not the counter's authority.
    Unauthorized,
}

/// A counter owned by an authority; every change is announced as a
/// base64-encoded event.
#[derive(Clone, Copy, Debug)]
pub struct Counter {
    pub count: u64,
    pub authority: Address,
}

/// Standard-alphabet, padded base64 text of `bytes`.
pub uninterp spec fn base64_standard(bytes: Seq<u8>) -> Seq<char>;

/// Relies on base64's `Engine::encode` with the `STANDARD` engine: the text
/// depends on the bytes alone, and padding makes it four characters for
/// every three bytes or part of three. It panics only when the output length
/// overflows `usize`, which the bound on the input rules out.
#[verifier::external_body]
fn encode_base64(bytes: &[u8]) -> (r: String)
    requires
        bytes@.len() <= 4096,
    ensures
        r@ == base64_standard(bytes@),
        r@.len() == 4 * ((bytes@.len() + 2) / 3),
{
    base64::Engine::encode(&base64::engine::general_purpose::STANDARD, bytes)
}

/// The `k` low bytes of `n`, least significant first.
pub open spec fn le_bytes(n: nat, k: nat) -> Seq<u8>
    decreases k,
{
    if k == 0 {
        Seq::empty()
    } else {
        seq![(n % 256) as u8] + le_bytes(n / 256, (k - 1) as nat)
    }
}

/// The decimal digits of `n` as ASCII bytes, without leading zeros.
pub open spec fn decimal(n: nat) -> Seq<u8>
    decreases n,
{
    if n < 10 {
        seq![(48 + n) as u8]
    } else {
        decimal(n / 10).push((48 + n % 10) as u8)
    }
}

/// The JSON text of the event that `complex_operation` emits.
pub open spec fn complex_event(amount: u64, new_count: u64) -> Seq<u8> {
    "{\"type\":\"ComplexOp\",\"amount\":".spec_bytes() + decimal(amount as nat)
        + ",\"new_count\":".spec_bytes() + decimal(new_count as nat) + "}".spec_bytes()
}

spec fn pow10(k: nat) -> nat
    decreases k,
{
    if k == 0 {
        1
    } else {
        10 * pow10((k - 1) as nat)
    }
}

proof fn lemma_decimal_len(n: nat, k: nat)
    requires
        k >= 1,
        n < pow10(k),
    ensures
        decimal(n).len() <= k,
    decreases n,
{
    if n >= 10 {
        assert(k >= 2) by {
            if k == 1 {
                assert(pow10(1) == 10) by {
                    reveal_with_fuel(pow10, 2);
                }
            }
        }
        assert(n / 10 < pow10((k - 1) as nat));
        lemma_decimal_len(n / 10, (k - 1) as nat);
    }
}

proof fn lemma_u64_decimal_len(n: u64)
    ensures
        decimal(n as nat).len() <= 20,
{
    assert(pow10(20) == 100000000000000000000) by {
        reveal_with_fuel(pow10, 21);
    }
    lemma_decimal_len(n as nat, 20);
}

proof fn lemma_le_bytes_len(n: nat, k: nat)
    ensures
        le_bytes(n, k).len() == k,
    decreases k,
{
    if k > 0 {
        lemma_le_bytes_len(n / 256, (k - 1) as nat);
    }
}

/// The eight little-endian bytes of `n`.
fn to_le_bytes(n: u64) -> (r: Vec<u8>)
    ensures
        r@ == le_bytes(n as nat, 8),
        r@.len() == 8,
{
    let mut out: Vec<u8> = Vec::new();
    let mut rest: u64 = n;
    let mut i: usize = 0;
    while i < 8
        invariant
            i <= 8,
            out@ + le_bytes(rest as nat, (8 - i) as nat) == le_bytes(n as nat, 8),
        decreases 8 - i,
    {
        let ghost before = out@;
        out.push((rest % 256) as u8);
        assert(out@ + le_bytes((rest / 256) as nat, (8 - i - 1) as nat) =~= before + le_bytes(
            rest as nat,
            (8 - i) as nat,
        ));
        rest = rest / 256;
        i = i + 1;
    }
    assert(out@ + le_bytes(rest as nat, 0) =~= out@);
    proof {
        lemma_le_bytes_len(n as nat, 8);
    }
    out
}

/// Appends `bytes` to `out`.
fn push_bytes(out: &mut Vec<u8>, bytes: &[u8])
    ensures
        final(out)@ == old(out)@ + bytes@,
{
    let mut i: usize = 0;
    while i < bytes.len()
        invariant
            i <= bytes@.len(),
            out@ == old(out)@ + bytes@.subrange(0, i as int),
        decreases bytes@.len() - i,
    {
        out.push(bytes[i]);
        assert(bytes@.subrange(0, i + 1) =~= bytes@.subrange(0, i as int).push(bytes@[i as int]));
        i = i + 1;
    }
    assert(bytes@.subrange(0, bytes@.len() as int) =~= bytes@);
}

/// Appends the decimal digits of `n` to `out`.
fn push_decimal(out: &mut Vec<u8>, n: u64)
    ensures
        final(out)@ == old(out)@ + decimal(n as nat),
    decreases n,
{
    if n >= 10 {
        push_decimal(out, n / 10);
    }
    out.push((48 + n % 10) as u8);
    assert(out@ =~= old(out)@ + decimal(n as nat));
}

/// A new counter at zero, owned by `authority`.
pub fn initialize(authority: Address) -> (r: Counter)
    ensures
        r.count == 0,
        r.authority == authority,
{
    Counter { count: 0, authority }
}

/// Adds one to the count; returns the event data, the base64 text of the new
/// count's eight little-endian bytes. Nothing changes on error.
pub fn increment(counter: &mut Counter) -> (r: Result<String, CounterError>)
    ensures
        old(counter).count == u64::MAX ==> r == Err::<String, CounterError>(CounterError::Overflow)
            && *final(counter) == *old(counter),
        old(counter).count < u64::MAX ==> {
            &&& final(counter).count == old(counter).count + 1
            &&& final(counter).authority == old(counter).authority
            &&& r is Ok
            &&& r->Ok_0@ == base64_standard(le_bytes(final(counter).count as nat, 8))
            &&& r->Ok_0@.len() == 12
        },
{
    if counter.count == u64::MAX {
        return Err(CounterError::Overflow);
    }
    counter.count = counter.count + 1;
    let bytes = to_le_bytes(counter.count);
    Ok(encode_base64(bytes.as_slice()))
}

/// Adds `amount` to the count on behalf of `signer`, who must be the
/// counter's authority; returns the event data, the base64 text of
/// `{"type":"ComplexOp","amount":A,"new_count":N}`. Nothing changes on error.
pub fn complex_operation(counter: &mut Counter, signer: &Address, amount: u64) -> (r: Result<
    String,
    CounterError,
>)
    ensures
        counter_result(*old(counter), *signer, amount) matches Ok(c) ==> {
            &&& *final(counter) == c
            &&& r is Ok
            &&& r->Ok_0@ == base64_standard(complex_event(amount, c.count))
            &&& r->Ok_0@.len() == 4 * ((complex_event(amount, c.count).len() + 2) / 3)
        },
        counter_result(*old(counter), *signer, amount) matches Err(e) ==> r == Err::<
            String,
            CounterError,
        >(e) && *final(counter) == *old(counter),
{
    if !same_address(&counter.authority, signer) {
        return Err(CounterError::Unauthorized);
    }
    let count = match counter.count.checked_add(amount) {
        Some(v) => v,
        None => return Err(CounterError::Overflow),
    };
    counter.count = count;
    let mut event: Vec<u8> = Vec::new();
    push_bytes(&mut event, "{\"type\":\"ComplexOp\",\"amount\":".as_bytes());
    push_decimal(&mut event, amount);
    push_bytes(&mut event, ",\"new_count\":".as_bytes());
    push_decimal(&mut event, count);
    push_bytes(&mut event, "}".as_bytes());
    proof {
        lemma_u64_decimal_len(amount);
        lemma_u64_decimal_len(count);
        reveal_strlit("{\"type\":\"ComplexOp\",\"amount\":");
        reveal_strlit(",\"new_count\":");
        reveal_strlit("}");
        broadcast use vstd::string::is_ascii_spec_bytes;

        assert(vstd::string::is_ascii("{\"type\":\"ComplexOp\",\"amount\":"));
        assert(vstd::string::is_ascii(",\"new_count\":"));
        assert(vstd::string::is_ascii("}"));
    }
    assert(event@ =~= complex_event(amount, count));
    Ok(encode_base64(event.as_slice()))
}

/// The counter after its authority adds `amount`.
pub open spec fn counter_result(counter: Counter, signer: Address, amount: u64) -> Result<
    Counter,
    CounterError,
> {
    if counter.authority@ != signer@ {
        Err(CounterError::Unauthorized)
    } else if counter.count + amount > u64::MAX {
        Err(CounterError::Overflow)
    } else {
        Ok(Counter { count: (counter.count + amount) as u64, ..counter })
    }
}

/// Moves `amount` lamports from a balance of `from_lamports` to one of
/// `to_lamports`; returns both new balances and the event data, the base64
/// text of the amount's eight little-endian bytes.
pub fn transfer_sol(from_lamports: u64, to_lamports: u64, amount: u64) -> (r: Result<
    (u64, u64, String),
    CounterError,
>)
    ensures
        from_lamports < amount ==> r == Err::<(u64, u64, String), CounterError>(
            CounterError::InsufficientFunds,
        ),
        from_lamports >= amount && to_lamports + amount > u64::MAX ==> r == Err::<
            (u64, u64, String),
            CounterError,
        >(CounterError::Overflow),
        from_lamports >= amount && to_lamports + amount <= u64::MAX ==> {
            &&& r is Ok
            &&& r->Ok_0.0 == from_lamports - amount
            &&& r->Ok_0.1 == to_lamports + amount
            &&& r->Ok_0.2@ == base64_standard(le_bytes(amount as nat, 8))
            &&& r->Ok_0.2@.len() == 12
        },
{
    if from_lamports < amount {
        return Err(CounterError::InsufficientFunds);
    }
    let to = match to_lamports.checked_add(amount) {
        Some(v) => v,
        None => return Err(CounterError::Overflow),
    };
    let bytes = to_le_bytes(amount);
    Ok((from_lamports - amount, to, encode_base64(bytes.as_slice())))
}

} // verus!
