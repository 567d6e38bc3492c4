use vstd::prelude::*;
use crate::ident::{is_ident, Ident};
use crate::text::decimal;

verus! {

/// The name under which the node type of depth `depth` is derived from the
/// metric's struct name: the name itself at depth 0, and the name followed
/// by `depth + 1` below.
pub open spec fn label_struct_name(struct_name: Seq<char>, depth: nat) -> Seq<char> {
    if depth == 0 {
        struct_name
    } else {
        struct_name + decimal(depth + 1)
    }
}

/// The name of the storage type of depth `depth`.
pub open spec fn inner_name(struct_name: Seq<char>, depth: nat) -> Seq<char> {
    label_struct_name(struct_name, depth) + "Inner"@
}

/// The name of the accessor type of depth `depth`.
pub open spec fn delegator_name(struct_name: Seq<char>, depth: nat) -> Seq<char> {
    label_struct_name(struct_name, depth) + "Delegator"@
}

/// The type of the fields of the storage type of depth `depth`: the metric
/// itself at the leaves, the storage type of the next depth above them.
pub open spec fn inner_member_type(
    struct_name: Seq<char>,
    depth: nat,
    metric_type: Seq<char>,
    is_last: bool,
) -> Seq<char> {
    if is_last {
        metric_type
    } else {
        inner_name(struct_name, depth + 1)
    }
}

/// The type of the fields of the accessor type of depth `depth`: an offset
/// at the leaves, the accessor type of the next depth above them.
pub open spec fn delegator_member_type(struct_name: Seq<char>, depth: nat, is_last: bool) -> Seq<
    char,
> {
    if is_last {
        "usize"@
    } else {
        delegator_name(struct_name, depth + 1)
    }
}

/// The name of the module that encloses what is generated for the metric
/// numbered `id`.
pub open spec fn scope_name(id: nat) -> Seq<char> {
    "prometheus_static_scope_"@ + decimal(id)
}

/// The name of the `k`-th offset of an accessor, counted from 1.
pub open spec fn offset_name(k: nat) -> Seq<char> {
    "offset"@ + decimal(k)
}

/// The name of the parameter that carries the label string chosen at depth
/// `k`.
pub open spec fn label_param(k: nat) -> Seq<char> {
    "label_"@ + decimal(k)
}

/// `s` begins with "Local": the mark of a metric kind that is kept per
/// thread.
pub open spec fn is_local_metric(s: Seq<char>) -> bool {
    s.len() >= 5 && s.subrange(0, 5) == "Local"@
}

/// `s` without a leading "Local", where what is left is a name.
pub open spec fn non_local(s: Seq<char>) -> Seq<char> {
    if is_local_metric(s) && is_ident(s.subrange(5, s.len() as int)) {
        s.subrange(5, s.len() as int)
    } else {
        s
    }
}

/// The name of the shared vector type from which metrics of kind
/// `metric_type` are taken.
pub open spec fn metric_vec_type(metric_type: Seq<char>) -> Seq<char> {
    non_local(metric_type + "Vec"@)
}

/// The name from which the types of depth `label_index` are named.
pub fn get_label_struct_name(struct_name: &Ident, label_index: usize) -> (r: Ident)
    ensures
        r@ == label_struct_name(struct_name@, label_index as nat),
{
    if label_index > 0 {
        struct_name.with_number(label_index as u128 + 1)
    } else {
        struct_name.clone()
    }
}

/// The name from which the types of the depth below `label_index` are
/// named.
fn next_label_struct_name(struct_name: &Ident, label_index: usize) -> (r: Ident)
    ensures
        r@ == label_struct_name(struct_name@, label_index as nat + 1),
{
    struct_name.with_number(label_index as u128 + 2)
}

/// The name of the storage type of depth `label_index`.
pub fn get_inner_struct_name(struct_name: &Ident, label_index: usize) -> (r: Ident)
    ensures
        r@ == inner_name(struct_name@, label_index as nat),
{
    proof {
        reveal_strlit("Inner");
    }
    get_label_struct_name(struct_name, label_index).with_suffix("Inner")
}

/// The name of the accessor type of depth `label_index`.
pub fn get_delegator_struct_name(struct_name: &Ident, label_index: usize) -> (r: Ident)
    ensures
        r@ == delegator_name(struct_name@, label_index as nat),
{
    proof {
        reveal_strlit("Delegator");
    }
    get_label_struct_name(struct_name, label_index).with_suffix("Delegator")
}

/// The type of the fields of the storage type of depth `label_index`.
pub fn get_inner_member_type(
    struct_name: &Ident,
    label_index: usize,
    metric_type: &Ident,
    is_last_label: bool,
) -> (r: Ident)
    ensures
        r@ == inner_member_type(struct_name@, label_index as nat, metric_type@, is_last_label),
{
    if is_last_label {
        metric_type.clone()
    } else {
        proof {
            reveal_strlit("Inner");
        }
        next_label_struct_name(struct_name, label_index).with_suffix("Inner")
    }
}

/// The type of the fields of the accessor type of depth `label_index`.
pub fn get_delegator_member_type(struct_name: &Ident, label_index: usize, is_last_label: bool) -> (r:
    Ident)
    ensures
        r@ == delegator_member_type(struct_name@, label_index as nat, is_last_label),
{
    if is_last_label {
        proof {
            reveal_strlit("usize");
        }
        Ident::from_valid("usize")
    } else {
        proof {
            reveal_strlit("Delegator");
        }
        next_label_struct_name(struct_name, label_index).with_suffix("Delegator")
    }
}

/// The name made of a fixed word and a number.
fn numbered(word: &str, n: u128) -> (r: Ident)
    requires
        is_ident(word@),
    ensures
        r@ == word@ + decimal(n as nat),
{
    Ident::from_valid(word).with_number(n)
}

/// The name of the module for the metric numbered `id`.
pub fn get_scope_name(id: usize) -> (r: Ident)
    ensures
        r@ == scope_name(id as nat),
{
    proof {
        reveal_strlit("prometheus_static_scope_");
    }
    numbered("prometheus_static_scope_", id as u128)
}

/// The name of the `k`-th offset of an accessor.
pub fn get_offset_name(k: usize) -> (r: Ident)
    ensures
        r@ == offset_name(k as nat),
{
    proof {
        reveal_strlit("offset");
    }
    numbered("offset", k as u128)
}

/// The name of the parameter for the label string of depth `k`.
pub fn get_label_param(k: usize) -> (r: Ident)
    ensures
        r@ == label_param(k as nat),
{
    proof {
        reveal_strlit("label_");
    }
    numbered("label_", k as u128)
}

/// Whether metrics of this kind are kept per thread.
pub fn is_local_metric_type(metric_type: &Ident) -> (r: bool)
    ensures
        r == is_local_metric(metric_type@),
{
    let s = metric_type.as_str();
    if s.unicode_len() < 5 {
        return false;
    }
    proof {
        reveal_strlit("Local");
    }
    let head = s.substring_char(0, 5);
    let local = String::from_str("Local");
    let head_owned = String::from_str(head);
    head_owned == local
}

/// The kind of metric without the mark of being kept per thread.
pub fn to_non_local_metric_type(metric_type: Ident) -> (r: Ident)
    ensures
        r@ == non_local(metric_type@),
{
    if is_local_metric_type(&metric_type) {
        let s = metric_type.as_str();
        let n = s.unicode_len();
        let rest = s.substring_char(5, n);
        match Ident::new(rest) {
            Some(id) => id,
            None => metric_type,
        }
    } else {
        metric_type
    }
}

/// The name of the shared vector type for metrics of this kind.
pub fn get_metric_vec_type(metric_type: &Ident) -> (r: Ident)
    ensures
        r@ == metric_vec_type(metric_type@),
{
    proof {
        reveal_strlit("Vec");
    }
    to_non_local_metric_type(metric_type.with_suffix("Vec"))
}

/// A numeral of a number of two or more digits has two or more digits.
pub proof fn lemma_decimal_len(n: nat)
    ensures
        decimal(n).len() >= 1,
        n >= 10 ==> decimal(n).len() >= 2,
    decreases n,
{
    if n >= 10 {
        lemma_decimal_len(n / 10);
    }
}

/// Different digits are written differently.
pub proof fn lemma_digit_injective(c: nat, d: nat)
    requires
        c < 10,
        d < 10,
        crate::text::digit_char(c) == crate::text::digit_char(d),
    ensures
        c == d,
{
    assert(crate::text::digit_char(c) as int == 48 + c);
    assert(crate::text::digit_char(d) as int == 48 + d);
}

/// Different numbers have different numerals.
pub proof fn lemma_decimal_injective(a: nat, b: nat)
    requires
        decimal(a) == decimal(b),
    ensures
        a == b,
    decreases a,
{
    lemma_decimal_len(a);
    lemma_decimal_len(b);
    if a >= 10 && b >= 10 {
        let x = decimal(a / 10).push(crate::text::digit_char(a % 10));
        let y = decimal(b / 10).push(crate::text::digit_char(b % 10));
        assert(x.last() == y.last());
        assert(x.drop_last() =~= decimal(a / 10));
        assert(y.drop_last() =~= decimal(b / 10));
        lemma_decimal_injective(a / 10, b / 10);
        lemma_digit_injective(a % 10, b % 10);
    } else if a < 10 && b < 10 {
        assert(decimal(a)[0] == crate::text::digit_char(a));
        assert(decimal(b)[0] == crate::text::digit_char(b));
        lemma_digit_injective(a, b);
    }
}

/// What follows a common prefix is the same, where the wholes are.
pub proof fn lemma_cancel_prefix(p: Seq<char>, x: Seq<char>, y: Seq<char>)
    requires
        p + x == p + y,
    ensures
        x == y,
{
    assert((p + x).subrange(p.len() as int, (p + x).len() as int) =~= x);
    assert((p + y).subrange(p.len() as int, (p + y).len() as int) =~= y);
}

/// What precedes a common suffix is the same, where the wholes are.
pub proof fn lemma_cancel_suffix(x: Seq<char>, y: Seq<char>, q: Seq<char>)
    requires
        x + q == y + q,
    ensures
        x == y,
{
    assert((x + q).len() == (y + q).len());
    assert((x + q).subrange(0, x.len() as int) =~= x);
    assert((y + q).subrange(0, y.len() as int) =~= y);
}

/// Metrics with different numbers are generated into modules with
/// different names.
pub proof fn lemma_scope_names_distinct(a: nat, b: nat)
    requires
        a != b,
    ensures
        scope_name(a) != scope_name(b),
{
    if scope_name(a) == scope_name(b) {
        lemma_cancel_prefix("prometheus_static_scope_"@, decimal(a), decimal(b));
        lemma_decimal_injective(a, b);
    }
}

/// The names derived from one struct name for different depths differ.
pub proof fn lemma_label_struct_names_distinct(struct_name: Seq<char>, i: nat, j: nat)
    requires
        i != j,
    ensures
        label_struct_name(struct_name, i) != label_struct_name(struct_name, j),
{
    lemma_decimal_len(i + 1);
    lemma_decimal_len(j + 1);
    if label_struct_name(struct_name, i) == label_struct_name(struct_name, j) {
        if i != 0 && j != 0 {
            lemma_cancel_prefix(struct_name, decimal(i + 1), decimal(j + 1));
            lemma_decimal_injective(i + 1, j + 1);
        }
    }
}

/// Within the module of one metric no two generated types have the same
/// name: the storage types and the accessor types of the depths differ
/// from each other and from the public handle.
pub proof fn lemma_type_names_distinct(struct_name: Seq<char>, i: nat, j: nat)
    ensures
        i != j ==> inner_name(struct_name, i) != inner_name(struct_name, j),
        i != j ==> delegator_name(struct_name, i) != delegator_name(struct_name, j),
        inner_name(struct_name, i) != delegator_name(struct_name, j),
        inner_name(struct_name, i) != struct_name,
        delegator_name(struct_name, j) != struct_name,
{
    reveal_strlit("Inner");
    reveal_strlit("Delegator");
    let a = label_struct_name(struct_name, i);
    let b = label_struct_name(struct_name, j);
    if i != j {
        lemma_label_struct_names_distinct(struct_name, i, j);
        if inner_name(struct_name, i) == inner_name(struct_name, j) {
            lemma_cancel_suffix(a, b, "Inner"@);
        }
        if delegator_name(struct_name, i) == delegator_name(struct_name, j) {
            lemma_cancel_suffix(a, b, "Delegator"@);
        }
    }
    let inner = inner_name(struct_name, i);
    let delegator = delegator_name(struct_name, j);
    assert(inner[inner.len() - 2] == 'e');
    assert(delegator[delegator.len() - 2] == 'o');
    assert(inner.len() > struct_name.len());
    assert(delegator.len() > struct_name.len());
}

} // verus!
