//! The sink's record rendering and bookkeeping.
//!
//! Each merged record becomes one CSV row: the timestamp as a plain decimal,
//! then the interpolated and the raw value, each with exactly four fractional
//! digits — the precision the fixed-point values carry. The file handling
//! itself is an outside concern; this state machine renders rows byte for
//! byte and counts what it has rendered, which is the count the sink reports
//! on completion.

use crate::merger::MergedSample;
use vstd::prelude::*;

verus! {

/// Decimal digits of `n`, most significant first, no leading zeros.
pub open spec fn spec_decimal(n: nat) -> Seq<u8>
    decreases n,
{
    if n < 10 {
        seq![(48 + n) as u8]
    } else {
        spec_decimal(n / 10).push((48 + n % 10) as u8)
    }
}

/// Exactly four decimal digits of `n < 10000`, zero-padded.
pub open spec fn spec_frac4(n: nat) -> Seq<u8>
    recommends
        n < 10000,
{
    seq![
        (48 + n / 1000 % 10) as u8,
        (48 + n / 100 % 10) as u8,
        (48 + n / 10 % 10) as u8,
        (48 + n % 10) as u8,
    ]
}

/// Text of the fixed-point value `v`, which counts ten-thousandths: an
/// optional minus sign, the integer part, a point, four fractional digits.
pub open spec fn spec_fixed4(v: int) -> Seq<u8> {
    let a = if v < 0 {
        -v
    } else {
        v
    };
    let sign: Seq<u8> = if v < 0 {
        seq![45u8]
    } else {
        Seq::empty()
    };
    sign + spec_decimal((a / 10000) as nat) + seq![46u8] + spec_frac4((a % 10000) as nat)
}

/// One CSV row: timestamp, interpolated slow value, raw fast value,
/// comma-separated and newline-terminated.
pub open spec fn spec_row(t: int, slow: int, fast: int) -> Seq<u8>
    recommends
        0 <= t,
{
    spec_decimal(t as nat) + seq![44u8] + spec_fixed4(slow) + seq![44u8] + spec_fixed4(fast)
        + seq![10u8]
}

/// Append the decimal digits of `n`.
pub fn push_decimal(out: &mut Vec<u8>, n: u64)
    ensures
        final(out)@ == old(out)@ + spec_decimal(n as nat),
    decreases n,
{
    let ghost pre = out@;
    if n >= 10 {
        push_decimal(out, n / 10);
    }
    out.push(48 + (n % 10) as u8);
    proof {
        if n < 10 {
            assert(spec_decimal(n as nat) =~= seq![(48 + n as nat % 10) as u8]);
        }
        assert(out@ =~= pre + spec_decimal(n as nat));
    }
}

/// Append exactly four zero-padded decimal digits of `n < 10000`.
pub fn push_frac4(out: &mut Vec<u8>, n: u64)
    requires
        n < 10000,
    ensures
        final(out)@ == old(out)@ + spec_frac4(n as nat),
{
    let ghost pre = out@;
    out.push(48 + (n / 1000 % 10) as u8);
    out.push(48 + (n / 100 % 10) as u8);
    out.push(48 + (n / 10 % 10) as u8);
    out.push(48 + (n % 10) as u8);
    proof {
        assert(out@ =~= pre + spec_frac4(n as nat));
    }
}

/// Append the fixed-point value `v` with four fractional digits.
pub fn push_fixed4(out: &mut Vec<u8>, v: i64)
    ensures
        final(out)@ == old(out)@ + spec_fixed4(v as int),
{
    let ghost pre = out@;
    let a: u64 = if v < 0 {
        out.push(45);
        (-(v as i128)) as u64
    } else {
        v as u64
    };
    push_decimal(out, a / 10000);
    out.push(46);
    push_frac4(out, a % 10000);
    proof {
        assert(out@ =~= pre + spec_fixed4(v as int));
    }
}

/// The header row naming the three fields of the output.
pub fn header() -> (r: &'static str)
    ensures
        r@ == "time,sensor 1hz,sensor 100hz\n"@,
{
    "time,sensor 1hz,sensor 100hz\n"
}

/// The sink's verified half: renders rows and counts them. The reported
/// count always equals the number of records rendered.
pub struct Writer {
    written: u64,
    rows: Ghost<Seq<Seq<u8>>>,
}

impl Writer {
    /// Number of records rendered so far.
    pub closed spec fn written(self) -> u64 {
        self.written
    }

    /// Every row rendered so far, in order.
    pub closed spec fn rows(self) -> Seq<Seq<u8>> {
        self.rows@
    }

    /// The running count always equals the number of rendered rows.
    pub closed spec fn wf(self) -> bool {
        self.written as int == self.rows@.len()
    }

    /// The count the sink reports equals exactly the number of records it
    /// has rendered.
    pub proof fn lemma_count_is_row_count(self)
        requires
            self.wf(),
        ensures
            self.written() as int == self.rows().len(),
    {
    }

    /// A sink that has recorded nothing.
    pub fn new() -> (w: Writer)
        ensures
            w.wf(),
            w.written() == 0,
            w.rows() == Seq::<Seq<u8>>::empty(),
    {
        Writer { written: 0, rows: Ghost(Seq::empty()) }
    }

    /// Render one merged record as its CSV row and count it.
    pub fn record(&mut self, m: MergedSample) -> (row: Vec<u8>)
        requires
            old(self).wf(),
            old(self).written() < u64::MAX,
        ensures
            final(self).wf(),
            row@ == spec_row(m.0 as int, m.1 as int, m.2 as int),
            final(self).rows() == old(self).rows().push(row@),
            final(self).written() == old(self).written() + 1,
    {
        let mut row: Vec<u8> = Vec::new();
        push_decimal(&mut row, m.0);
        row.push(44);
        push_fixed4(&mut row, m.1);
        row.push(44);
        push_fixed4(&mut row, m.2);
        row.push(10);
        proof {
            assert(row@ =~= spec_row(m.0 as int, m.1 as int, m.2 as int));
        }
        self.written = self.written + 1;
        self.rows = Ghost(self.rows@.push(row@));
        row
    }

    /// The total the sink reports upon completion.
    pub fn count(&self) -> (n: u64)
        ensures
            n == self.written(),
    {
        self.written
    }
}

} // verus!
