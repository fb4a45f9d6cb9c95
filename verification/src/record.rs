//! The resolved identity of a backend worker: an IPv4 address and a port,
//! together with its exact textual form `a.b.c.d:port`.

use vstd::prelude::*;

verus! {

/// The immutable network address of a provisioned backend worker.
///
/// Once a route is resolved, its record never changes for the life of the
/// process, so the record is a plain copyable value.
#[derive(Clone, Copy, PartialEq, Eq, Structural, Debug)]
pub struct WorkerRecord {
    pub ip0: u8,
    pub ip1: u8,
    pub ip2: u8,
    pub ip3: u8,
    pub port: u16,
}

/// The usual decimal numeral of `n`, as ASCII bytes, without leading zeros
/// (`0` itself is written as one digit).
pub open spec fn dec_rep(n: nat) -> Seq<u8>
    decreases n,
{
    if n < 10 {
        seq![(48 + n) as u8]
    } else {
        dec_rep(n / 10).push((48 + n % 10) as u8)
    }
}

/// Appends the decimal numeral of `n` to `out`.
fn push_decimal(out: &mut Vec<u8>, n: u16)
    ensures
        final(out)@ == old(out)@ + dec_rep(n as nat),
    decreases n,
{
    if n < 10 {
        out.push(48 + n as u8);
        proof {
            assert(out@ =~= old(out)@ + dec_rep(n as nat));
        }
    } else {
        proof {
            assert(n / 10 < n) by (nonlinear_arith)
                requires n >= 10,
            ;
        }
        push_decimal(out, n / 10);
        let d: u16 = n % 10;
        out.push(48 + d as u8);
        proof {
            assert(out@ =~= old(out)@ + dec_rep(n as nat));
        }
    }
}

impl WorkerRecord {
    /// The textual form `a.b.c.d:port` of this address, as a byte sequence.
    pub open spec fn rendered(self) -> Seq<u8> {
        dec_rep(self.ip0 as nat) + seq![46u8] + dec_rep(self.ip1 as nat) + seq![46u8]
            + dec_rep(self.ip2 as nat) + seq![46u8] + dec_rep(self.ip3 as nat) + seq![58u8]
            + dec_rep(self.port as nat)
    }

    /// Renders this address as `a.b.c.d:port`.
    pub fn render(&self) -> (r: Vec<u8>)
        ensures
            r@ == self.rendered(),
    {
        let mut out: Vec<u8> = Vec::new();
        push_decimal(&mut out, self.ip0 as u16);
        out.push(46);
        push_decimal(&mut out, self.ip1 as u16);
        out.push(46);
        push_decimal(&mut out, self.ip2 as u16);
        out.push(46);
        push_decimal(&mut out, self.ip3 as u16);
        out.push(58);
        push_decimal(&mut out, self.port);
        proof {
            assert(out@ =~= self.rendered());
        }
        out
    }
}

} // verus!
