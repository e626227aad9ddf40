use vstd::prelude::*;
use vstd::string::StringExecFns;
use crate::decimal::{
    dec_digits, is_dec_digit, lemma_dec_digits_all_digits, lemma_dec_digits_injective,
    lemma_dec_digits_nonempty, u64_to_string,
};

verus! {

broadcast use vstd::seq::group_seq_axioms;

pub proof fn lemma_append_cancel_left(p: Seq<char>, a: Seq<char>, b: Seq<char>)
    requires
        p + a == p + b,
    ensures
        a == b,
{
    assert((p + a).len() == p.len() + a.len());
    assert((p + b).len() == p.len() + b.len());
    assert(a.len() == b.len());
    assert forall|i: int| 0 <= i < a.len() implies a[i] == b[i] by {
        assert((p + a)[p.len() + i] == a[i]);
        assert((p + b)[p.len() + i] == b[i]);
    }
    assert(a =~= b);
}

pub proof fn lemma_append_cancel_right(a: Seq<char>, b: Seq<char>, s: Seq<char>)
    requires
        a + s == b + s,
    ensures
        a == b,
{
    assert((a + s).len() == a.len() + s.len());
    assert((b + s).len() == b.len() + s.len());
    assert(a.len() == b.len());
    assert forall|i: int| 0 <= i < a.len() implies a[i] == b[i] by {
        assert((a + s)[i] == a[i]);
        assert((b + s)[i] == b[i]);
    }
    assert(a =~= b);
}

/// A run of digits followed by a non-digit can be cut apart in only one way.
pub proof fn lemma_digit_boundary(a: Seq<char>, b: Seq<char>, s: Seq<char>, t: Seq<char>)
    requires
        forall|i: int| 0 <= i < a.len() ==> is_dec_digit(#[trigger] a[i]),
        forall|i: int| 0 <= i < b.len() ==> is_dec_digit(#[trigger] b[i]),
        s.len() > 0,
        t.len() > 0,
        !is_dec_digit(s[0]),
        !is_dec_digit(t[0]),
        a + s == b + t,
    ensures
        a == b,
        s == t,
{
    if a.len() < b.len() {
        assert((a + s)[a.len() as int] == s[0]);
        assert((b + t)[a.len() as int] == b[a.len() as int]);
        assert(false);
    }
    if b.len() < a.len() {
        assert((b + t)[b.len() as int] == t[0]);
        assert((a + s)[b.len() as int] == a[b.len() as int]);
        assert(false);
    }
    assert forall|i: int| 0 <= i < a.len() implies a[i] == b[i] by {
        assert((a + s)[i] == a[i]);
        assert((b + t)[i] == b[i]);
    }
    assert(a =~= b);
    lemma_append_cancel_left(a, s, t);
}

/// Two decimal runs with non-digit continuations agree only on equal numbers
/// and equal continuations.
pub proof fn lemma_dec_boundary(x: nat, y: nat, s: Seq<char>, t: Seq<char>)
    requires
        s.len() > 0,
        t.len() > 0,
        !is_dec_digit(s[0]),
        !is_dec_digit(t[0]),
        dec_digits(x) + s == dec_digits(y) + t,
    ensures
        x == y,
        s == t,
{
    lemma_dec_digits_all_digits(x);
    lemma_dec_digits_all_digits(y);
    lemma_digit_boundary(dec_digits(x), dec_digits(y), s, t);
    lemma_dec_digits_injective(x, y);
}

/// The comma-and-space separated digits inside a bracketed list.
pub open spec fn fmt_list_inner(xs: Seq<nat>) -> Seq<char>
    decreases xs.len(),
{
    if xs.len() == 0 {
        Seq::<char>::empty()
    } else if xs.len() == 1 {
        dec_digits(xs[0])
    } else {
        dec_digits(xs[0]) + seq![',', ' '] + fmt_list_inner(xs.drop_first())
    }
}

/// A numeric list as `{:?}` on a vector renders it: `[8, 4]`.
pub open spec fn fmt_list(xs: Seq<nat>) -> Seq<char> {
    seq!['['] + fmt_list_inner(xs) + seq![']']
}

/// Two rendered lists followed by `]`-led continuations agree only on equal
/// lists and equal continuations.
pub proof fn lemma_fmt_list_inner_injective(
    xs: Seq<nat>,
    ys: Seq<nat>,
    s: Seq<char>,
    t: Seq<char>,
)
    requires
        s.len() > 0,
        t.len() > 0,
        s[0] == ']',
        t[0] == ']',
        fmt_list_inner(xs) + s == fmt_list_inner(ys) + t,
    ensures
        xs == ys,
        s == t,
    decreases xs.len(),
{
    if xs.len() == 0 && ys.len() == 0 {
        assert(fmt_list_inner(xs) =~= Seq::<char>::empty());
        assert(s =~= t);
        assert(xs =~= ys);
    } else if xs.len() == 0 {
        lemma_dec_digits_all_digits(ys[0]);
        lemma_dec_digits_nonempty(ys[0]);
        let rhs = fmt_list_inner(ys) + t;
        assert(rhs[0] == dec_digits(ys[0])[0]);
        assert((fmt_list_inner(xs) + s)[0] == s[0]);
        assert(false);
    } else if ys.len() == 0 {
        lemma_dec_digits_all_digits(xs[0]);
        lemma_dec_digits_nonempty(xs[0]);
        assert((fmt_list_inner(xs) + s)[0] == dec_digits(xs[0])[0]);
        assert((fmt_list_inner(ys) + t)[0] == t[0]);
        assert(false);
    } else {
        let sx: Seq<char> = if xs.len() == 1 {
            s
        } else {
            seq![',', ' '] + fmt_list_inner(xs.drop_first()) + s
        };
        let tx: Seq<char> = if ys.len() == 1 {
            t
        } else {
            seq![',', ' '] + fmt_list_inner(ys.drop_first()) + t
        };
        assert(dec_digits(xs[0]) + sx =~= fmt_list_inner(xs) + s);
        assert(dec_digits(ys[0]) + tx =~= fmt_list_inner(ys) + t);
        assert(sx[0] == ']' || sx[0] == ',');
        assert(tx[0] == ']' || tx[0] == ',');
        lemma_dec_boundary(xs[0], ys[0], sx, tx);
        if xs.len() == 1 && ys.len() == 1 {
            assert(xs =~= ys);
        } else if xs.len() == 1 {
            assert(sx[0] == ']');
            assert(tx[0] == ',');
            assert(false);
        } else if ys.len() == 1 {
            assert(sx[0] == ',');
            assert(tx[0] == ']');
            assert(false);
        } else {
            let comma = seq![',', ' '];
            assert(sx =~= comma + (fmt_list_inner(xs.drop_first()) + s));
            assert(tx =~= comma + (fmt_list_inner(ys.drop_first()) + t));
            lemma_append_cancel_left(
                comma,
                fmt_list_inner(xs.drop_first()) + s,
                fmt_list_inner(ys.drop_first()) + t,
            );
            lemma_fmt_list_inner_injective(xs.drop_first(), ys.drop_first(), s, t);
            assert(xs =~= seq![xs[0]] + xs.drop_first());
            assert(ys =~= seq![ys[0]] + ys.drop_first());
        }
    }
}

fn fmt_list_inner_exec(xs: &Vec<u64>, i: usize) -> (r: String)
    requires
        i <= xs.len(),
    ensures
        r@ == fmt_list_inner(xs@.subrange(i as int, xs@.len() as int).map_values(|v: u64| v as nat)),
    decreases xs.len() - i,
{
    let ghost tail = xs@.subrange(i as int, xs@.len() as int).map_values(|v: u64| v as nat);
    if i == xs.len() {
        assert(tail =~= Seq::<nat>::empty());
        String::new()
    } else if i + 1 == xs.len() {
        assert(tail.len() == 1 && tail[0] == xs@[i as int] as nat);
        u64_to_string(xs[i])
    } else {
        let mut r = u64_to_string(xs[i]);
        proof {
            reveal_strlit(", ");
        }
        r.append(", ");
        let rest = fmt_list_inner_exec(xs, i + 1);
        r.append(rest.as_str());
        proof {
            let next = xs@.subrange(i as int + 1, xs@.len() as int).map_values(|v: u64| v as nat);
            assert(tail.drop_first() =~= next);
            assert(", "@ =~= seq![',', ' ']);
            assert(tail[0] == xs@[i as int] as nat);
            assert(r@ =~= fmt_list_inner(tail));
        }
        r
    }
}

/// Renders a numeric vector the way `{:?}` does, per `fmt_list`.
pub fn fmt_list_exec(xs: &Vec<u64>) -> (r: String)
    ensures
        r@ == fmt_list(xs@.map_values(|v: u64| v as nat)),
{
    proof {
        reveal_strlit("[");
        reveal_strlit("]");
    }
    let mut r = String::from_str("[");
    let inner = fmt_list_inner_exec(xs, 0);
    r.append(inner.as_str());
    r.append("]");
    proof {
        assert(xs@.subrange(0, xs@.len() as int) =~= xs@);
        assert("["@ =~= seq!['[']);
        assert("]"@ =~= seq![']']);
        assert(r@ =~= fmt_list(xs@.map_values(|v: u64| v as nat)));
    }
    r
}

} // verus!
