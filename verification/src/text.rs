//! Identifier text: decimal numerals, binding names and raw-identifier prefixes.

use vstd::prelude::*;
use vstd::string::*;

verus! {

/// The decimal numeral of a single digit `d` (`d < 10`).
pub open spec fn digit_text(d: nat) -> Seq<char> {
    if d == 0 {
        "0"@
    } else if d == 1 {
        "1"@
    } else if d == 2 {
        "2"@
    } else if d == 3 {
        "3"@
    } else if d == 4 {
        "4"@
    } else if d == 5 {
        "5"@
    } else if d == 6 {
        "6"@
    } else if d == 7 {
        "7"@
    } else if d == 8 {
        "8"@
    } else {
        "9"@
    }
}

/// The decimal numeral of `n`, without leading zeros, as an unsuffixed
/// integer literal prints.
pub open spec fn decimal(n: nat) -> Seq<char>
    decreases n,
{
    if n < 10 {
        digit_text(n)
    } else {
        decimal(n / 10) + digit_text(n % 10)
    }
}

/// The name of a generated binding: `prefix` followed by the index `i`
/// (`self_0`, `resolver_1`, `other_2`, ...).
pub open spec fn binding(prefix: Seq<char>, i: nat) -> Seq<char> {
    prefix + decimal(i)
}

/// The binding name `prefix` followed by the position `k` of a field.
pub open spec fn binding_at(prefix: Seq<char>, k: int) -> Seq<char> {
    binding(prefix, k as nat)
}

/// An identifier's text without its raw-identifier prefix `r#`, if it has one.
pub open spec fn strip_raw_spec(s: Seq<char>) -> Seq<char> {
    if s.len() >= 2 && s[0] == 'r' && s[1] == '#' {
        s.skip(2)
    } else {
        s
    }
}

/// The name of the layout struct of a variant named `variant`:
/// `ArchivedVariant` followed by the variant's name without `r#`.
pub open spec fn archived_variant_name(variant: Seq<char>) -> Seq<char> {
    "ArchivedVariant"@ + strip_raw_spec(variant)
}

proof fn lemma_digit_text(d: nat)
    requires
        d < 10,
    ensures
        digit_text(d).len() == 1,
        digit_text(d)[0] as int == 48 + d,
{
    reveal_strlit("0");
    reveal_strlit("1");
    reveal_strlit("2");
    reveal_strlit("3");
    reveal_strlit("4");
    reveal_strlit("5");
    reveal_strlit("6");
    reveal_strlit("7");
    reveal_strlit("8");
    reveal_strlit("9");
}

/// Every character of a numeral is an ASCII digit, a numeral is never empty,
/// and it has at least two digits exactly when the number is at least ten.
pub proof fn lemma_decimal_shape(n: nat)
    ensures
        decimal(n).len() >= 1,
        n >= 10 <==> decimal(n).len() >= 2,
        forall|k: int| 0 <= k < decimal(n).len() ==> 48 <= #[trigger] decimal(n)[k] as int <= 57,
    decreases n,
{
    if n < 10 {
        lemma_digit_text(n);
    } else {
        lemma_decimal_shape(n / 10);
        lemma_digit_text(n % 10);
        let a = decimal(n / 10);
        let b = digit_text(n % 10);
        assert forall|k: int| 0 <= k < decimal(n).len() implies 48 <= #[trigger] decimal(n)[k] as int
            <= 57 by {
            if k < a.len() {
                assert(decimal(n)[k] == a[k]);
            } else {
                assert(decimal(n)[k] == b[k - a.len()]);
            }
        }
    }
}

/// Distinct numbers have distinct numerals.
pub proof fn lemma_decimal_injective(a: nat, b: nat)
    requires
        decimal(a) == decimal(b),
    ensures
        a == b,
    decreases a + b,
{
    lemma_decimal_shape(a);
    lemma_decimal_shape(b);
    if a < 10 && b < 10 {
        lemma_digit_text(a);
        lemma_digit_text(b);
    } else if a < 10 || b < 10 {
    } else {
        let pa = decimal(a / 10);
        let pb = decimal(b / 10);
        lemma_digit_text(a % 10);
        lemma_digit_text(b % 10);
        let da = digit_text(a % 10);
        let db = digit_text(b % 10);
        assert(decimal(a) == pa + da);
        assert(decimal(b) == pb + db);
        assert(pa.len() == pb.len());
        assert(decimal(a)[pa.len() as int] == da[0]);
        assert(decimal(b)[pb.len() as int] == db[0]);
        assert(a % 10 == b % 10);
        assert(pa =~= decimal(a).take(pa.len() as int));
        assert(pb =~= decimal(b).take(pb.len() as int));
        lemma_decimal_injective(a / 10, b / 10);
    }
}

/// Generated binding names never collide: two names with the same prefix
/// are equal only for equal indices, and names whose prefixes differ in
/// their first character always differ.
pub proof fn lemma_binding_names_distinct(p: Seq<char>, q: Seq<char>, i: nat, j: nat)
    requires
        p.len() >= 1,
        q.len() >= 1,
        p == q || p[0] != q[0],
        binding(p, i) == binding(q, j),
    ensures
        p == q,
        i == j,
{
    assert(binding(p, i)[0] == p[0]);
    assert(binding(q, j)[0] == q[0]);
    assert(p == q);
    assert(decimal(i) =~= binding(p, i).skip(p.len() as int));
    assert(decimal(j) =~= binding(q, j).skip(q.len() as int));
    lemma_decimal_injective(i, j);
}

fn digit_literal(d: usize) -> (s: &'static str)
    requires
        d < 10,
    ensures
        s@ == digit_text(d as nat),
{
    if d == 0 {
        "0"
    } else if d == 1 {
        "1"
    } else if d == 2 {
        "2"
    } else if d == 3 {
        "3"
    } else if d == 4 {
        "4"
    } else if d == 5 {
        "5"
    } else if d == 6 {
        "6"
    } else if d == 7 {
        "7"
    } else if d == 8 {
        "8"
    } else {
        "9"
    }
}

/// The decimal numeral of `n`.
pub fn decimal_string(n: usize) -> (s: String)
    ensures
        s@ == decimal(n as nat),
    decreases n,
{
    if n < 10 {
        String::from_str(digit_literal(n))
    } else {
        let mut s = decimal_string(n / 10);
        s.append(digit_literal(n % 10));
        s
    }
}

/// The binding name `prefix` followed by the numeral of `i`.
pub fn binding_name(prefix: &str, i: usize) -> (s: String)
    ensures
        s@ == binding(prefix@, i as nat),
{
    let mut s = String::from_str(prefix);
    let d = decimal_string(i);
    s.append(d.as_str());
    s
}

/// The identifier's text without a leading `r#`.
pub fn strip_raw(ident: &String) -> (r: String)
    ensures
        r@ == strip_raw_spec(ident@),
{
    let s = ident.as_str();
    let n = s.unicode_len();
    if n >= 2 && s.get_char(0) == 'r' && s.get_char(1) == '#' {
        let rest = s.substring_char(2, n);
        assert(rest@ =~= ident@.skip(2));
        String::from_str(rest)
    } else {
        ident.clone()
    }
}

/// The name of the layout struct of the variant named `variant`.
pub fn archived_variant_ident(variant: &String) -> (r: String)
    ensures
        r@ == archived_variant_name(variant@),
{
    let mut r = String::from_str("ArchivedVariant");
    let stripped = strip_raw(variant);
    r.append(stripped.as_str());
    r
}

} // verus!
