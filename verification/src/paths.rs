use vstd::prelude::*;
use vstd::string::StringExecFns;

verus! {

/// Whether experiments run against the hosted challenge data rather than
/// the mirror.
pub const PRODUCTION_MODE: bool = true;

pub open spec fn spec_base_url() -> Seq<char> {
    if PRODUCTION_MODE {
        "http://sisap-23-challenge.s3.amazonaws.com/SISAP23-Challenge"@
    } else {
        "http://ingeotec.mx/~sadit/metric-datasets/LAION/SISAP23-Challenge"@
    }
}

pub open spec fn spec_dataset_path(base: Seq<char>, kind: Seq<char>, size: Seq<char>) -> Seq<
    char,
> {
    base + "/"@ + kind + "/"@ + size + "/dataset.h5"@
}

pub open spec fn spec_queries_path(base: Seq<char>, kind: Seq<char>) -> Seq<char> {
    base + "/"@ + kind + "/query.h5"@
}

pub open spec fn spec_result_path(
    base: Seq<char>,
    kind: Seq<char>,
    size: Seq<char>,
    index_identifier: Seq<char>,
    param_string: Seq<char>,
) -> Seq<char> {
    base + "/"@ + kind + "/"@ + size + "/"@ + index_identifier + "/"@ + param_string + ".h5"@
}

fn base_url() -> (r: &'static str)
    ensures
        r@ == spec_base_url(),
{
    if PRODUCTION_MODE {
        "http://sisap-23-challenge.s3.amazonaws.com/SISAP23-Challenge"
    } else {
        "http://ingeotec.mx/~sadit/metric-datasets/LAION/SISAP23-Challenge"
    }
}

/// Where a dataset of the given kind and size lives under the input base.
pub fn dataset_path(in_base_path: &str, kind: &str, size: &str) -> (r: String)
    ensures
        r@ == spec_dataset_path(in_base_path@, kind@, size@),
{
    let mut r = in_base_path.to_owned();
    r.append("/");
    r.append(kind);
    r.append("/");
    r.append(size);
    r.append("/dataset.h5");
    proof {
        assert(r@ =~= spec_dataset_path(in_base_path@, kind@, size@));
    }
    r
}

/// Where the query set of the given kind lives under the input base.
pub fn queries_path(in_base_path: &str, kind: &str) -> (r: String)
    ensures
        r@ == spec_queries_path(in_base_path@, kind@),
{
    let mut r = in_base_path.to_owned();
    r.append("/");
    r.append(kind);
    r.append("/query.h5");
    proof {
        assert(r@ =~= spec_queries_path(in_base_path@, kind@));
    }
    r
}

/// Where one experiment's result artifact is stored: keyed by kind, size,
/// index identifier and parameter string, so distinct configurations land
/// in distinct files.
pub fn result_path(
    out_base_path: &str,
    kind: &str,
    size: &str,
    index_identifier: &str,
    param_string: &str,
) -> (r: String)
    ensures
        r@ == spec_result_path(
            out_base_path@,
            kind@,
            size@,
            index_identifier@,
            param_string@,
        ),
{
    let mut r = out_base_path.to_owned();
    r.append("/");
    r.append(kind);
    r.append("/");
    r.append(size);
    r.append("/");
    r.append(index_identifier);
    r.append("/");
    r.append(param_string);
    r.append(".h5");
    proof {
        assert(r@ =~= spec_result_path(
            out_base_path@,
            kind@,
            size@,
            index_identifier@,
            param_string@,
        ));
    }
    r
}

/// The files one experiment needs, as (url, local target) pairs: the query
/// set first, then the dataset. The caller downloads each only if the
/// target is absent; the list itself involves no input or output.
pub fn ensure_files_available(in_base_path: &str, kind: &str, size: &str) -> (r: Vec<
    (String, String),
>)
    ensures
        r.len() == 2,
        r[0].0@ == spec_base_url() + "/public-queries-10k-"@ + kind@ + ".h5"@,
        r[0].1@ == spec_queries_path(in_base_path@, kind@),
        r[1].0@ == spec_base_url() + "/laion2B-en-"@ + kind@ + "-n="@ + size@ + ".h5"@,
        r[1].1@ == spec_dataset_path(in_base_path@, kind@, size@),
{
    let base = base_url();
    let mut query_url = base.to_owned();
    query_url.append("/public-queries-10k-");
    query_url.append(kind);
    query_url.append(".h5");
    let mut data_url = base.to_owned();
    data_url.append("/laion2B-en-");
    data_url.append(kind);
    data_url.append("-n=");
    data_url.append(size);
    data_url.append(".h5");
    proof {
        assert(query_url@ =~= spec_base_url() + "/public-queries-10k-"@ + kind@ + ".h5"@);
        assert(data_url@ =~= spec_base_url() + "/laion2B-en-"@ + kind@ + "-n="@ + size@ + ".h5"@);
    }
    let q_target = queries_path(in_base_path, kind);
    let d_target = dataset_path(in_base_path, kind, size);
    let mut r: Vec<(String, String)> = Vec::new();
    r.push((query_url, q_target));
    r.push((data_url, d_target));
    r
}

} // verus!
