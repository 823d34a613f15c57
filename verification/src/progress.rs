//! The process-wide progress counters: images downloaded and images
//! expected, aggregated over all active chapters. Whenever the two become
//! equal the pair resets to zero — quiescence — so a drained queue always
//! shows zero in both.
use vstd::prelude::*;

use vstd::string::*;

use crate::events::DownloadEvent;
use crate::text::{dec_str_of, u64_to_string};

verus! {

/// Bytes per second as hundredths of a megabyte per second, rounded to
/// the nearest hundredth.
pub open spec fn speed_hundredths(bytes: nat) -> nat {
    (bytes * 100 + 524288) / 1048576
}

/// The two-digit fractional part, zero-padded.
pub open spec fn pad2(n: nat) -> Seq<char> {
    if n < 10 {
        seq!['0'] + dec_str_of(n)
    } else {
        dec_str_of(n)
    }
}

/// The human-readable speed string: whole megabytes, a dot, two fraction
/// digits, and the unit.
pub open spec fn speed_string_spec(bytes: nat) -> Seq<char> {
    let h = speed_hundredths(bytes);
    dec_str_of(h / 100) + "."@ + pad2(h % 100) + " MB/s"@
}

/// Format bytes-per-second as "X.XX MB/s".
pub fn speed_string(bytes: u64) -> (r: String)
    ensures
        r@ == speed_string_spec(bytes as nat),
{
    let h128: u128 = ((bytes as u128) * 100 + 524288) / 1048576;
    proof {
        assert(h128 == speed_hundredths(bytes as nat));
        assert(h128 <= ((u64::MAX as u128) * 100 + 524288) / 1048576) by {
            vstd::arithmetic::div_mod::lemma_div_is_ordered(
                (bytes as u128 * 100 + 524288) as int,
                ((u64::MAX as u128) * 100 + 524288) as int,
                1048576,
            );
        }
    }
    let h: u64 = h128 as u64;
    let mut s = u64_to_string(h / 100);
    s.append(".");
    let frac = h % 100;
    if frac < 10 {
        s.append("0");
        let f = u64_to_string(frac);
        s.append(f.as_str());
        proof {
            reveal_strlit("0");
            assert(s@ =~= dec_str_of((h / 100) as nat) + "."@ + pad2((h % 100) as nat));
        }
    } else {
        let f = u64_to_string(frac);
        s.append(f.as_str());
    }
    s.append(" MB/s");
    proof {
        assert(s@ =~= speed_string_spec(bytes as nat));
    }
    s
}

pub struct GlobalProgress {
    pub downloaded: u64,
    pub total: u64,
}

impl GlobalProgress {
    /// The invariant: never more downloaded than expected, and the counters
    /// are only ever equal at zero.
    pub open spec fn wf(self) -> bool {
        &&& self.downloaded <= self.total
        &&& (self.downloaded == self.total ==> self.total == 0)
    }

    pub fn new() -> (r: GlobalProgress)
        ensures
            r.wf(),
            r.downloaded == 0,
            r.total == 0,
    {
        GlobalProgress { downloaded: 0, total: 0 }
    }

    /// A chapter started: its image count joins the expected total.
    pub fn add_total(&mut self, n: u32)
        requires
            old(self).wf(),
            old(self).total + n <= u64::MAX,
        ensures
            final(self).wf(),
            final(self).total == old(self).total + n,
            final(self).downloaded == old(self).downloaded,
    {
        self.total = self.total + n as u64;
    }

    /// One image task joined. When the counters meet, both reset to zero.
    pub fn image_joined(&mut self)
        requires
            old(self).wf(),
            old(self).downloaded < old(self).total,
        ensures
            final(self).wf(),
            old(self).downloaded + 1 == old(self).total ==> final(self).downloaded == 0
                && final(self).total == 0,
            old(self).downloaded + 1 < old(self).total ==> final(self).downloaded == old(
                self,
            ).downloaded + 1 && final(self).total == old(self).total,
    {
        self.downloaded = self.downloaded + 1;
        if self.downloaded == self.total {
            self.downloaded = 0;
            self.total = 0;
        }
    }

    /// The progress event for the current counters: the percentage is the
    /// integer part of downloaded out of total, in hundredths.
    pub fn progress_event(&self) -> (r: DownloadEvent)
        requires
            self.wf(),
            self.total > 0,
        ensures
            r matches DownloadEvent::OverallProgress { downloaded, total, percentage }
                && downloaded == self.downloaded && total == self.total && percentage
                == self.downloaded * 100 / (self.total as int),
    {
        let pct128: u128 = (self.downloaded as u128) * 100 / (self.total as u128);
        proof {
            assert(self.downloaded * 100 <= u64::MAX * 100);
            assert(pct128 == self.downloaded * 100 / (self.total as int));
            assert(pct128 <= 100) by {
                assert(self.downloaded <= self.total);
                assert(self.downloaded * 100 <= self.total * 100);
                vstd::arithmetic::div_mod::lemma_div_is_ordered(
                    self.downloaded * 100,
                    self.total * 100,
                    self.total as int,
                );
                vstd::arithmetic::div_mod::lemma_div_multiples_vanish(
                    100,
                    self.total as int,
                );
            }
        }
        let pct: u64 = pct128 as u64;
        DownloadEvent::OverallProgress {
            downloaded: self.downloaded,
            total: self.total,
            percentage: pct,
        }
    }
}

/// Quiescence: whenever the queue is drained — every expected image has
/// joined, so the counters meet — both global counters read zero.
pub proof fn lemma_quiescence(p: GlobalProgress)
    requires
        p.wf(),
        p.downloaded == p.total,
    ensures
        p.downloaded == 0,
        p.total == 0,
{
}

} // verus!
