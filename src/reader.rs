//! The timed read loop: read into one buffer until a byte target is reached,
//! counting syscalls and short reads and, on request, summing every byte.
use vstd::prelude::*;

verus! {

/// std::io::Error, carried through opaque when a read fails.
#[verifier::external_type_specification]
#[verifier::external_body]
pub struct ExIoError(std::io::Error);

/// std::time::Instant, the start of a timed loop, carried through opaque.
#[verifier::external_type_specification]
#[verifier::external_body]
pub struct ExInstant(std::time::Instant);

/// The checksum wraps around at this modulus.
pub open spec fn checksum_modulus() -> int {
    0x1_0000_0000_0000_0000
}

/// Sum of the bytes of `s`, each taken as an unsigned value.
pub open spec fn bytes_total(s: Seq<u8>) -> nat
    decreases s.len(),
{
    if s.len() == 0 {
        0
    } else {
        bytes_total(s.drop_last()) + s.last() as nat
    }
}

/// Number of bytes over all chunks.
pub open spec fn chunks_len(c: Seq<Seq<u8>>) -> nat
    decreases c.len(),
{
    if c.len() == 0 {
        0
    } else {
        chunks_len(c.drop_last()) + c.last().len()
    }
}

/// Sum of every byte of every chunk.
pub open spec fn chunks_total(c: Seq<Seq<u8>>) -> nat
    decreases c.len(),
{
    if c.len() == 0 {
        0
    } else {
        chunks_total(c.drop_last()) + bytes_total(c.last())
    }
}

/// Number of chunks that hold fewer than `capacity` bytes.
pub open spec fn short_count(c: Seq<Seq<u8>>, capacity: nat) -> nat
    decreases c.len(),
{
    if c.len() == 0 {
        0
    } else {
        short_count(c.drop_last(), capacity) + if c.last().len() < capacity {
            1nat
        } else {
            0nat
        }
    }
}

/// What one timed read loop saw.
pub struct RunStats {
    /// The byte target the loop was asked to reach.
    pub total_bytes: u64,
    /// The bytes actually read: the last read may pass the target.
    pub bytes_read: u64,
    /// Number of read calls.
    pub num_syscalls: u64,
    /// Number of read calls that filled less than the whole buffer.
    pub short_reads: u64,
    /// Wall-clock time of the loop.
    pub duration_nanos: u64,
    /// Wrapping sum of every byte read, or 0 when summing was off.
    pub byte_sum: u64,
    /// The bytes of each read call, in order.
    pub chunks: Ghost<Seq<Seq<u8>>>,
}

/// Why a read loop stopped before its target.
#[derive(Debug)]
pub enum ReadError {
    /// The stream reported an error.
    Io(std::io::Error),
    /// A read call returned no bytes: the stream ended.
    EmptyRead,
    /// A read call claimed more bytes than the buffer holds.
    Overfull { returned: usize, capacity: usize },
}

/// An `Overfull` error reports the buffer's real size and a larger length.
pub open spec fn overfull_names_buffer(e: ReadError, capacity: nat) -> bool {
    match e {
        ReadError::Overfull { returned, capacity: c } => c == capacity && returned > c,
        _ => true,
    }
}

/// The run statistics describe a loop with target `target`, buffer size
/// `capacity` and summing switched by `use_buffer`.
pub open spec fn stats_describe(s: RunStats, target: u64, capacity: nat, use_buffer: bool) -> bool {
    let c = s.chunks@;
    &&& s.total_bytes == target
    &&& forall|i: int| 0 <= i < c.len() ==> 0 < #[trigger] c[i].len() <= capacity
    &&& s.bytes_read == chunks_len(c)
    &&& s.num_syscalls == c.len()
    &&& s.short_reads == short_count(c, capacity)
    &&& s.byte_sum == if use_buffer {
        chunks_total(c) as int % checksum_modulus()
    } else {
        0
    }
    &&& s.bytes_read >= target
    &&& c.len() > 0 ==> chunks_len(c.drop_last()) < target
}

/// Relies on std::io::Read::read: one read call into `buf`.
#[verifier::external_body]
fn read_once<R: std::io::Read>(f: &mut R, buf: &mut [u8]) -> (r: Result<usize, std::io::Error>)
    ensures
        final(buf)@.len() == old(buf)@.len(),
{
    f.read(buf)
}

/// Relies on std::time::Instant::now: the current time of a monotonic clock.
#[verifier::external_body]
fn clock_now() -> std::time::Instant {
    std::time::Instant::now()
}

/// Relies on std::time::Instant::elapsed: the time passed since `start`.
#[verifier::external_body]
fn elapsed_since(start: &std::time::Instant) -> std::time::Duration {
    start.elapsed()
}

/// Relies on std::time::Duration::as_nanos: a duration in whole nanoseconds.
#[verifier::external_body]
fn whole_nanos(d: &std::time::Duration) -> u128 {
    d.as_nanos()
}

/// Adds the first `n` bytes of `bytes` to a wrapping checksum.
pub fn checksum_add(sum: u64, bytes: &[u8], n: usize) -> (r: u64)
    requires
        n <= bytes@.len(),
    ensures
        r as int == (sum + bytes_total(bytes@.subrange(0, n as int))) % checksum_modulus(),
{
    let mut acc: u64 = sum;
    let mut i: usize = 0;
    proof {
        assert(bytes@.subrange(0, 0) =~= Seq::<u8>::empty());
        vstd::arithmetic::div_mod::lemma_small_mod(sum as nat, checksum_modulus() as nat);
    }
    while i < n
        invariant
            n <= bytes@.len(),
            i <= n,
            acc as int == (sum + bytes_total(bytes@.subrange(0, i as int))) % checksum_modulus(),
        decreases n - i,
    {
        let b = bytes[i] as u64;
        let ghost before = sum + bytes_total(bytes@.subrange(0, i as int));
        proof {
            assert(bytes@.subrange(0, i + 1).drop_last() =~= bytes@.subrange(0, i as int));
            lemma_wrapping_step(before, b as int);
        }
        acc = wrapping_sum(acc, b);
        i = i + 1;
    }
    acc
}

/// `a + b` modulo 2^64.
pub fn wrapping_sum(a: u64, b: u64) -> (r: u64)
    ensures
        r as int == (a + b) % checksum_modulus(),
{
    proof {
        let m = checksum_modulus();
        let s = a as int + b as int;
        if s >= m {
            vstd::arithmetic::div_mod::lemma_mod_add_multiples_vanish(s - m, m);
            vstd::arithmetic::div_mod::lemma_small_mod((s - m) as nat, m as nat);
        } else {
            vstd::arithmetic::div_mod::lemma_small_mod(s as nat, m as nat);
        }
    }
    if a > u64::MAX - b {
        a - (u64::MAX - b) - 1
    } else {
        a + b
    }
}

/// Adding to a total kept modulo 2^64 is adding to the total, modulo 2^64.
pub proof fn lemma_wrapping_step(total: int, b: int)
    ensures
        ((total % checksum_modulus()) + b) % checksum_modulus() == (total + b) % checksum_modulus(),
{
    vstd::arithmetic::div_mod::lemma_add_mod_noop_right(b, total, checksum_modulus());
}

/// Accepts the length `n` that one read call into a buffer of `capacity`
/// bytes returned: it must be positive and fit the buffer.
pub fn check_read_len(n: usize, capacity: usize) -> (r: Result<usize, ReadError>)
    ensures
        0 < n <= capacity ==> (r matches Ok(m) && m == n),
        n == 0 ==> r is Err && r->Err_0 is EmptyRead,
        n > capacity && n > 0 ==> (r matches Err(ReadError::Overfull { returned, capacity: c })
            && returned == n && c == capacity),
{
    if n == 0 {
        Err(ReadError::EmptyRead)
    } else if n > capacity {
        Err(ReadError::Overfull { returned: n, capacity })
    } else {
        Ok(n)
    }
}

/// Duration in nanoseconds, saturated to `u64`.
fn saturate_nanos(n: u128) -> (r: u64)
    ensures
        r == if n > u64::MAX as u128 { u64::MAX as u128 } else { n },
{
    if n > u64::MAX as u128 {
        u64::MAX
    } else {
        n as u64
    }
}

/// Calls `read` on `f` into `buffer` until at least `total_bytes` bytes
/// have come, timing the whole loop. With `use_buffer` every byte read is
/// added to a wrapping checksum. A read that returns no bytes, or more
/// bytes than the buffer holds, ends the loop with an error.
pub fn time_reads<R: std::io::Read>(
    f: &mut R,
    buffer: &mut [u8],
    total_bytes: u64,
    use_buffer: bool,
) -> (r: Result<RunStats, ReadError>)
    requires
        total_bytes + old(buffer)@.len() <= u64::MAX,
    ensures
        final(buffer)@.len() == old(buffer)@.len(),
        r is Ok ==> stats_describe(r->Ok_0, total_bytes, old(buffer)@.len(), use_buffer),
        total_bytes == 0 ==> r is Ok,
        r is Err ==> overfull_names_buffer(r->Err_0, old(buffer)@.len()),
{
    let capacity = buffer.len();
    let mut bytes_read: u64 = 0;
    let mut num_syscalls: u64 = 0;
    let mut short_reads: u64 = 0;
    let mut byte_sum: u64 = 0;
    let ghost mut chunks: Seq<Seq<u8>> = Seq::empty();
    let start = clock_now();
    while bytes_read < total_bytes
        invariant
            buffer@.len() == capacity,
            capacity == old(buffer)@.len(),
            total_bytes + capacity <= u64::MAX,
            bytes_read < total_bytes + capacity || bytes_read == 0,
            forall|i: int| 0 <= i < chunks.len() ==> 0 < #[trigger] chunks[i].len() <= capacity,
            bytes_read == chunks_len(chunks),
            num_syscalls == chunks.len(),
            short_reads == short_count(chunks, capacity as nat),
            byte_sum == if use_buffer {
                chunks_total(chunks) as int % checksum_modulus()
            } else {
                0
            },
            short_reads <= num_syscalls,
            num_syscalls <= bytes_read,
            chunks.len() > 0 ==> chunks_len(chunks.drop_last()) < total_bytes,
        decreases total_bytes + capacity - bytes_read,
    {
        let n = match read_once(f, buffer) {
            Ok(n) => n,
            Err(e) => {
                return Err(ReadError::Io(e));
            },
        };
        let n = check_read_len(n, capacity)?;
        let ghost chunk = buffer@.subrange(0, n as int);
        let ghost prev = chunks;
        if use_buffer {
            proof {
                lemma_wrapping_step(chunks_total(prev) as int, bytes_total(chunk) as int);
            }
            byte_sum = checksum_add(byte_sum, buffer, n);
        }
        if n < capacity {
            short_reads = short_reads + 1;
        }
        bytes_read = bytes_read + n as u64;
        num_syscalls = num_syscalls + 1;
        proof {
            chunks = chunks.push(chunk);
            assert(chunks.drop_last() =~= prev);
        }
    }
    let elapsed = elapsed_since(&start);
    let duration_nanos = saturate_nanos(whole_nanos(&elapsed));
    Ok(RunStats {
        total_bytes,
        bytes_read,
        num_syscalls,
        short_reads,
        duration_nanos,
        byte_sum,
        chunks: Ghost(chunks),
    })
}

/// A stream of zero bytes sums to zero, whatever the number of reads or
/// their sizes.
pub proof fn lemma_zero_payload_checksum(c: Seq<Seq<u8>>)
    requires
        forall|i: int, j: int| 0 <= i < c.len() && 0 <= j < c[i].len() ==> #[trigger] c[i][j] == 0,
    ensures
        chunks_total(c) == 0,
        chunks_total(c) as int % checksum_modulus() == 0,
    decreases c.len(),
{
    if c.len() > 0 {
        assert forall|i: int, j: int|
            0 <= i < c.drop_last().len() && 0 <= j < c.drop_last()[i].len() implies #[trigger] c.drop_last()[i][j] == 0 by {
            assert(c.drop_last()[i] == c[i]);
        }
        lemma_zero_payload_checksum(c.drop_last());
        lemma_zero_bytes_total(c.last());
    }
}

proof fn lemma_zero_bytes_total(s: Seq<u8>)
    requires
        forall|j: int| 0 <= j < s.len() ==> s[j] == 0,
    ensures
        bytes_total(s) == 0,
    decreases s.len(),
{
    if s.len() > 0 {
        lemma_zero_bytes_total(s.drop_last());
    }
}

/// A read loop with a positive target made at least one read call, and no
/// more short reads than read calls; it read at least its target.
pub proof fn lemma_stats_counts(s: RunStats, target: u64, capacity: nat, use_buffer: bool)
    requires
        stats_describe(s, target, capacity, use_buffer),
        target > 0,
    ensures
        s.num_syscalls >= 1,
        s.short_reads <= s.num_syscalls,
        s.bytes_read >= s.total_bytes,
{
    lemma_short_count_bounded(s.chunks@, capacity);
}

proof fn lemma_short_count_bounded(c: Seq<Seq<u8>>, capacity: nat)
    ensures
        short_count(c, capacity) <= c.len(),
    decreases c.len(),
{
    if c.len() > 0 {
        lemma_short_count_bounded(c.drop_last(), capacity);
    }
}

} // verus!
