use vstd::prelude::*;
use vstd::string::StringExecFns;
use crate::decimal::{dec_digits, u64_to_string};
use crate::strfmt::{
    fmt_list, fmt_list_exec, fmt_list_inner, lemma_append_cancel_left, lemma_append_cancel_right,
    lemma_dec_boundary, lemma_fmt_list_inner_injective,
};

verus! {

broadcast use vstd::seq::group_seq_axioms;

/// The canonical index identifier: code widths and the shared training
/// hyperparameters. The noise magnitude arrives already rendered, since its
/// value is a floating-point quantity foreign to this layer.
pub open spec fn spec_index_identifier(
    bits: Seq<nat>,
    n_its: nat,
    n_samples: nat,
    batch_its: nat,
    noise: Seq<char>,
) -> Seq<char> {
    "StochasticHIOB(n_bits="@ + fmt_list(bits) + ",n_its="@ + dec_digits(n_its) + ",n_samples="@
        + dec_digits(n_samples) + ",batch_its="@ + dec_digits(batch_its) + ",noise_std="@ + noise
        + ")"@
}

/// The canonical query-side parameter string: learned scale (as a percentage),
/// iterations per sample, and the probe tuple of this sweep point.
pub open spec fn spec_param_string(scale_pct: nat, its_per_sample: nat, probes: Seq<nat>) -> Seq<
    char,
> {
    "index_params=(scale%="@ + dec_digits(scale_pct) + ",its_per_sample="@ + dec_digits(
        its_per_sample,
    ) + "),query_params=(nprobe="@ + fmt_list(probes) + ")"@
}

/// Builds the index identifier exactly as `spec_index_identifier` states it.
pub fn index_identifier(
    bits: &Vec<u64>,
    n_its: u64,
    n_samples: u64,
    batch_its: u64,
    noise: &str,
) -> (r: String)
    ensures
        r@ == spec_index_identifier(
            bits@.map_values(|v: u64| v as nat),
            n_its as nat,
            n_samples as nat,
            batch_its as nat,
            noise@,
        ),
{
    let mut r = String::from_str("StochasticHIOB(n_bits=");
    let list = fmt_list_exec(bits);
    r.append(list.as_str());
    r.append(",n_its=");
    let a = u64_to_string(n_its);
    r.append(a.as_str());
    r.append(",n_samples=");
    let b = u64_to_string(n_samples);
    r.append(b.as_str());
    r.append(",batch_its=");
    let c = u64_to_string(batch_its);
    r.append(c.as_str());
    r.append(",noise_std=");
    r.append(noise);
    r.append(")");
    proof {
        assert(r@ =~= spec_index_identifier(
            bits@.map_values(|v: u64| v as nat),
            n_its as nat,
            n_samples as nat,
            batch_its as nat,
            noise@,
        ));
    }
    r
}

/// Builds the parameter string exactly as `spec_param_string` states it.
pub fn param_string(scale_pct: u64, its_per_sample: u64, probes: &Vec<u64>) -> (r: String)
    ensures
        r@ == spec_param_string(
            scale_pct as nat,
            its_per_sample as nat,
            probes@.map_values(|v: u64| v as nat),
        ),
{
    let mut r = String::from_str("index_params=(scale%=");
    let a = u64_to_string(scale_pct);
    r.append(a.as_str());
    r.append(",its_per_sample=");
    let b = u64_to_string(its_per_sample);
    r.append(b.as_str());
    r.append("),query_params=(nprobe=");
    let list = fmt_list_exec(probes);
    r.append(list.as_str());
    r.append(")");
    proof {
        assert(r@ =~= spec_param_string(
            scale_pct as nat,
            its_per_sample as nat,
            probes@.map_values(|v: u64| v as nat),
        ));
    }
    r
}

/// The identifier under which results are stored: the index identifier plus
/// the refinement stage's marker.
pub fn stored_index_identifier(id: &str) -> (r: String)
    ensures
        r@ == id@ + " + brute-force"@,
{
    let mut r = id.to_owned();
    r.append(" + brute-force");
    r
}

/// The parameter strings of a whole tuning sweep, one per probe value.
/// Distinct probe values give distinct strings, so no artifact of the sweep
/// overwrites another.
pub fn sweep_param_strings(scale_pct: u64, its_per_sample: u64, probes: &Vec<u64>) -> (r: Vec<
    String,
>)
    ensures
        r.len() == probes.len(),
        forall|i: int|
            0 <= i < r.len() ==> (#[trigger] r[i])@ == spec_param_string(
                scale_pct as nat,
                its_per_sample as nat,
                seq![probes[i] as nat],
            ),
        forall|i: int, j: int|
            0 <= i < j < r.len() && probes[i] != probes[j] ==> r[i]@ != r[j]@,
{
    let mut r: Vec<String> = Vec::new();
    let mut idx: usize = 0;
    while idx < probes.len()
        invariant
            idx <= probes.len(),
            r.len() == idx,
            forall|i: int|
                0 <= i < idx ==> (#[trigger] r[i])@ == spec_param_string(
                    scale_pct as nat,
                    its_per_sample as nat,
                    seq![probes[i] as nat],
                ),
        decreases probes.len() - idx,
    {
        let single = vec![probes[idx]];
        let s = param_string(scale_pct, its_per_sample, &single);
        proof {
            assert(single@.map_values(|v: u64| v as nat) =~= seq![probes[idx as int] as nat]);
        }
        r.push(s);
        idx += 1;
    }
    proof {
        assert forall|i: int, j: int|
            0 <= i < j < r.len() && probes[i] != probes[j] implies r[i]@ != r[j]@ by {
            if r[i]@ == r[j]@ {
                lemma_param_string_injective(
                    scale_pct as nat,
                    its_per_sample as nat,
                    seq![probes[i] as nat],
                    scale_pct as nat,
                    its_per_sample as nat,
                    seq![probes[j] as nat],
                );
                assert(seq![probes[i] as nat][0] == seq![probes[j] as nat][0]);
            }
        }
    }
    r
}

/// The index identifier is injective: configurations that differ anywhere
/// (width list, iteration count, sample count, batch iterations, or the
/// rendered noise magnitude) get distinct identifiers.
#[verifier::rlimit(100)]
pub proof fn lemma_index_identifier_injective(
    bits1: Seq<nat>,
    n_its1: nat,
    n_samples1: nat,
    batch_its1: nat,
    noise1: Seq<char>,
    bits2: Seq<nat>,
    n_its2: nat,
    n_samples2: nat,
    batch_its2: nat,
    noise2: Seq<char>,
)
    requires
        spec_index_identifier(bits1, n_its1, n_samples1, batch_its1, noise1)
            == spec_index_identifier(bits2, n_its2, n_samples2, batch_its2, noise2),
    ensures
        bits1 == bits2,
        n_its1 == n_its2,
        n_samples1 == n_samples2,
        batch_its1 == batch_its2,
        noise1 == noise2,
{
    reveal_strlit("StochasticHIOB(n_bits=");
    reveal_strlit(",n_its=");
    reveal_strlit(",n_samples=");
    reveal_strlit(",batch_its=");
    reveal_strlit(",noise_std=");
    reveal_strlit(")");
    let prefix = "StochasticHIOB(n_bits="@ + seq!['['];
    let tail1 = seq![']'] + (",n_its="@ + (dec_digits(n_its1) + (",n_samples="@ + (dec_digits(
        n_samples1,
    ) + (",batch_its="@ + (dec_digits(batch_its1) + (",noise_std="@ + (noise1 + ")"@))))))));
    let tail2 = seq![']'] + (",n_its="@ + (dec_digits(n_its2) + (",n_samples="@ + (dec_digits(
        n_samples2,
    ) + (",batch_its="@ + (dec_digits(batch_its2) + (",noise_std="@ + (noise2 + ")"@))))))));
    assert(spec_index_identifier(bits1, n_its1, n_samples1, batch_its1, noise1) =~= prefix + (
    fmt_list_inner(bits1) + tail1));
    assert(spec_index_identifier(bits2, n_its2, n_samples2, batch_its2, noise2) =~= prefix + (
    fmt_list_inner(bits2) + tail2));
    lemma_append_cancel_left(prefix, fmt_list_inner(bits1) + tail1, fmt_list_inner(bits2) + tail2);
    assert(tail1[0] == ']');
    assert(tail2[0] == ']');
    lemma_fmt_list_inner_injective(bits1, bits2, tail1, tail2);
    let q1 = seq![']'] + ",n_its="@;
    let rest1a = dec_digits(n_its1) + (",n_samples="@ + (dec_digits(n_samples1) + (",batch_its="@
        + (dec_digits(batch_its1) + (",noise_std="@ + (noise1 + ")"@))))));
    let rest2a = dec_digits(n_its2) + (",n_samples="@ + (dec_digits(n_samples2) + (",batch_its="@
        + (dec_digits(batch_its2) + (",noise_std="@ + (noise2 + ")"@))))));
    assert(tail1 =~= q1 + rest1a);
    assert(tail2 =~= q1 + rest2a);
    lemma_append_cancel_left(q1, rest1a, rest2a);
    let cont1a = ",n_samples="@ + (dec_digits(n_samples1) + (",batch_its="@ + (dec_digits(
        batch_its1,
    ) + (",noise_std="@ + (noise1 + ")"@)))));
    let cont2a = ",n_samples="@ + (dec_digits(n_samples2) + (",batch_its="@ + (dec_digits(
        batch_its2,
    ) + (",noise_std="@ + (noise2 + ")"@)))));
    assert(rest1a =~= dec_digits(n_its1) + cont1a);
    assert(rest2a =~= dec_digits(n_its2) + cont2a);
    assert(cont1a[0] == ',');
    assert(cont2a[0] == ',');
    lemma_dec_boundary(n_its1, n_its2, cont1a, cont2a);
    let rest1b = dec_digits(n_samples1) + (",batch_its="@ + (dec_digits(batch_its1) + (
    ",noise_std="@ + (noise1 + ")"@))));
    let rest2b = dec_digits(n_samples2) + (",batch_its="@ + (dec_digits(batch_its2) + (
    ",noise_std="@ + (noise2 + ")"@))));
    assert(cont1a =~= ",n_samples="@ + rest1b);
    assert(cont2a =~= ",n_samples="@ + rest2b);
    lemma_append_cancel_left(",n_samples="@, rest1b, rest2b);
    let cont1b = ",batch_its="@ + (dec_digits(batch_its1) + (",noise_std="@ + (noise1 + ")"@)));
    let cont2b = ",batch_its="@ + (dec_digits(batch_its2) + (",noise_std="@ + (noise2 + ")"@)));
    assert(rest1b =~= dec_digits(n_samples1) + cont1b);
    assert(rest2b =~= dec_digits(n_samples2) + cont2b);
    assert(cont1b[0] == ',');
    assert(cont2b[0] == ',');
    lemma_dec_boundary(n_samples1, n_samples2, cont1b, cont2b);
    let rest1c = dec_digits(batch_its1) + (",noise_std="@ + (noise1 + ")"@));
    let rest2c = dec_digits(batch_its2) + (",noise_std="@ + (noise2 + ")"@));
    assert(cont1b =~= ",batch_its="@ + rest1c);
    assert(cont2b =~= ",batch_its="@ + rest2c);
    lemma_append_cancel_left(",batch_its="@, rest1c, rest2c);
    let cont1c = ",noise_std="@ + (noise1 + ")"@);
    let cont2c = ",noise_std="@ + (noise2 + ")"@);
    assert(cont1c[0] == ',');
    assert(cont2c[0] == ',');
    lemma_dec_boundary(batch_its1, batch_its2, cont1c, cont2c);
    lemma_append_cancel_left(",noise_std="@, noise1 + ")"@, noise2 + ")"@);
    lemma_append_cancel_right(noise1, noise2, ")"@);
}

/// The parameter string is injective: sweep points that differ in scale,
/// iterations per sample, or probe tuple get distinct strings.
#[verifier::rlimit(100)]
pub proof fn lemma_param_string_injective(
    scale1: nat,
    ips1: nat,
    probes1: Seq<nat>,
    scale2: nat,
    ips2: nat,
    probes2: Seq<nat>,
)
    requires
        spec_param_string(scale1, ips1, probes1) == spec_param_string(scale2, ips2, probes2),
    ensures
        scale1 == scale2,
        ips1 == ips2,
        probes1 == probes2,
{
    reveal_strlit("index_params=(scale%=");
    reveal_strlit(",its_per_sample=");
    reveal_strlit("),query_params=(nprobe=");
    reveal_strlit(")");
    let rest1a = dec_digits(scale1) + (",its_per_sample="@ + (dec_digits(ips1) + (
    "),query_params=(nprobe="@ + (seq!['['] + (fmt_list_inner(probes1) + (seq![']'] + ")"@))))));
    let rest2a = dec_digits(scale2) + (",its_per_sample="@ + (dec_digits(ips2) + (
    "),query_params=(nprobe="@ + (seq!['['] + (fmt_list_inner(probes2) + (seq![']'] + ")"@))))));
    assert(spec_param_string(scale1, ips1, probes1) =~= "index_params=(scale%="@ + rest1a);
    assert(spec_param_string(scale2, ips2, probes2) =~= "index_params=(scale%="@ + rest2a);
    lemma_append_cancel_left("index_params=(scale%="@, rest1a, rest2a);
    let cont1a = ",its_per_sample="@ + (dec_digits(ips1) + ("),query_params=(nprobe="@ + (
    seq!['['] + (fmt_list_inner(probes1) + (seq![']'] + ")"@)))));
    let cont2a = ",its_per_sample="@ + (dec_digits(ips2) + ("),query_params=(nprobe="@ + (
    seq!['['] + (fmt_list_inner(probes2) + (seq![']'] + ")"@)))));
    assert(rest1a =~= dec_digits(scale1) + cont1a);
    assert(rest2a =~= dec_digits(scale2) + cont2a);
    assert(cont1a[0] == ',');
    assert(cont2a[0] == ',');
    lemma_dec_boundary(scale1, scale2, cont1a, cont2a);
    let rest1b = dec_digits(ips1) + ("),query_params=(nprobe="@ + (seq!['['] + (fmt_list_inner(
        probes1,
    ) + (seq![']'] + ")"@))));
    let rest2b = dec_digits(ips2) + ("),query_params=(nprobe="@ + (seq!['['] + (fmt_list_inner(
        probes2,
    ) + (seq![']'] + ")"@))));
    assert(cont1a =~= ",its_per_sample="@ + rest1b);
    assert(cont2a =~= ",its_per_sample="@ + rest2b);
    lemma_append_cancel_left(",its_per_sample="@, rest1b, rest2b);
    let cont1b = "),query_params=(nprobe="@ + (seq!['['] + (fmt_list_inner(probes1) + (seq![']']
        + ")"@)));
    let cont2b = "),query_params=(nprobe="@ + (seq!['['] + (fmt_list_inner(probes2) + (seq![']']
        + ")"@)));
    assert(rest1b =~= dec_digits(ips1) + cont1b);
    assert(rest2b =~= dec_digits(ips2) + cont2b);
    assert(cont1b[0] == ')');
    assert(cont2b[0] == ')');
    lemma_dec_boundary(ips1, ips2, cont1b, cont2b);
    let q = "),query_params=(nprobe="@ + seq!['['];
    let rest1c = fmt_list_inner(probes1) + (seq![']'] + ")"@);
    let rest2c = fmt_list_inner(probes2) + (seq![']'] + ")"@);
    assert(cont1b =~= q + rest1c);
    assert(cont2b =~= q + rest2c);
    lemma_append_cancel_left(q, rest1c, rest2c);
    let close = seq![']'] + ")"@;
    assert(close[0] == ']');
    lemma_fmt_list_inner_injective(probes1, probes2, close, close);
}

} // verus!
