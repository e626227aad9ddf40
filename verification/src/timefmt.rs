use vstd::prelude::*;
use vstd::string::StringExecFns;
use crate::decimal::{dec_digits, u64_to_string};

verus! {

broadcast use vstd::seq::group_seq_axioms;

/// A number zero-padded to two digits.
pub open spec fn pad2(n: nat) -> Seq<char> {
    if n < 10 {
        seq!['0'] + dec_digits(n)
    } else {
        dec_digits(n)
    }
}

/// A number zero-padded to three digits.
pub open spec fn pad3(n: nat) -> Seq<char> {
    if n < 10 {
        seq!['0', '0'] + dec_digits(n)
    } else if n < 100 {
        seq!['0'] + dec_digits(n)
    } else {
        dec_digits(n)
    }
}

/// Human-readable elapsed time, built from whole milliseconds. Units are
/// included only upward of the largest non-zero one, and the second, minute
/// and millisecond parts are zero-padded once a larger unit is shown.
pub open spec fn spec_time_format(total_ms: nat) -> Seq<char> {
    let ms = total_ms % 1000;
    let s = (total_ms / 1000) % 60;
    let m = (total_ms / 60000) % 60;
    let h = total_ms / 3600000;
    if s == 0 {
        dec_digits(ms) + "ms"@
    } else if m == 0 {
        dec_digits(s) + "s"@ + pad3(ms) + "ms"@
    } else if h == 0 {
        dec_digits(m) + "m"@ + pad2(s) + "s"@ + pad3(ms) + "ms"@
    } else {
        dec_digits(h) + "h"@ + pad2(m) + "m"@ + pad2(s) + "s"@ + pad3(ms) + "ms"@
    }
}

fn pad2_exec(n: u64) -> (r: String)
    ensures
        r@ == pad2(n as nat),
{
    proof {
        reveal_strlit("0");
    }
    if n < 10 {
        let mut r = String::from_str("0");
        let d = u64_to_string(n);
        r.append(d.as_str());
        proof {
            assert("0"@ =~= seq!['0']);
            assert(r@ =~= pad2(n as nat));
        }
        r
    } else {
        u64_to_string(n)
    }
}

fn pad3_exec(n: u64) -> (r: String)
    ensures
        r@ == pad3(n as nat),
{
    proof {
        reveal_strlit("0");
        reveal_strlit("00");
    }
    if n < 10 {
        let mut r = String::from_str("00");
        let d = u64_to_string(n);
        r.append(d.as_str());
        proof {
            assert("00"@ =~= seq!['0', '0']);
            assert(r@ =~= pad3(n as nat));
        }
        r
    } else if n < 100 {
        let mut r = String::from_str("0");
        let d = u64_to_string(n);
        r.append(d.as_str());
        proof {
            assert("0"@ =~= seq!['0']);
            assert(r@ =~= pad3(n as nat));
        }
        r
    } else {
        u64_to_string(n)
    }
}

/// Formats elapsed milliseconds exactly as `spec_time_format` states.
pub fn time_format(total_ms: u64) -> (r: String)
    ensures
        r@ == spec_time_format(total_ms as nat),
{
    let ms = total_ms % 1000;
    let s = (total_ms / 1000) % 60;
    let m = (total_ms / 60000) % 60;
    let h = total_ms / 3600000;
    if s == 0 {
        let mut r = u64_to_string(ms);
        r.append("ms");
        proof {
            assert(r@ =~= spec_time_format(total_ms as nat));
        }
        r
    } else if m == 0 {
        let mut r = u64_to_string(s);
        r.append("s");
        let p = pad3_exec(ms);
        r.append(p.as_str());
        r.append("ms");
        proof {
            assert(r@ =~= spec_time_format(total_ms as nat));
        }
        r
    } else if h == 0 {
        let mut r = u64_to_string(m);
        r.append("m");
        let p2 = pad2_exec(s);
        r.append(p2.as_str());
        r.append("s");
        let p3 = pad3_exec(ms);
        r.append(p3.as_str());
        r.append("ms");
        proof {
            assert(r@ =~= spec_time_format(total_ms as nat));
        }
        r
    } else {
        let mut r = u64_to_string(h);
        r.append("h");
        let pm = pad2_exec(m);
        r.append(pm.as_str());
        r.append("m");
        let p2 = pad2_exec(s);
        r.append(p2.as_str());
        r.append("s");
        let p3 = pad3_exec(ms);
        r.append(p3.as_str());
        r.append("ms");
        proof {
            assert(r@ =~= spec_time_format(total_ms as nat));
        }
        r
    }
}

} // verus!
