//! Text that the library writes itself: decimal numbers, and the order of names.
use vstd::arithmetic::div_mod::lemma_div_denominator;
use vstd::arithmetic::power::{lemma_pow0, lemma_pow1, lemma_pow_positive, pow};
use vstd::prelude::*;
use vstd::relations::{sorted_by, total_ordering};
use vstd::utf8::encode_utf8;

use crate::ast::{spellings, Ident};

verus! {

/// The character of one decimal digit.
pub open spec fn digit(d: nat) -> char {
    (48 + d) as char
}

/// `n` in decimal, without leading zeros.
pub open spec fn decimal(n: nat) -> Seq<char>
    decreases n,
{
    if n < 10 {
        seq![digit(n)]
    } else {
        decimal(n / 10).push(digit(n % 10))
    }
}

/// Different numbers have different decimal texts.
pub proof fn law_decimal_is_injective(m: nat, n: nat)
    requires
        decimal(m) == decimal(n),
    ensures
        m == n,
    decreases m,
{
    lemma_decimal_is_not_empty(m / 10);
    lemma_decimal_is_not_empty(n / 10);
    let left = decimal(m);
    let right = decimal(n);
    assert(left.last() == digit(m % 10));
    assert(right.last() == digit(n % 10));
    if m >= 10 && n >= 10 {
        assert(left.drop_last() == decimal(m / 10));
        assert(right.drop_last() == decimal(n / 10));
        law_decimal_is_injective(m / 10, n / 10);
    }
}

proof fn lemma_decimal_is_not_empty(n: nat)
    ensures
        decimal(n).len() > 0,
{
}

/// The digit `d` as a string of one character.
fn digit_text(d: u64) -> (res: &'static str)
    requires
        d < 10,
    ensures
        res@ == seq![digit(d as nat)],
{
    proof {
        reveal_strlit("0");
        reveal_strlit("1");
        reveal_strlit("2");
        reveal_strlit("3");
        reveal_strlit("4");
        reveal_strlit("5");
        reveal_strlit("6");
        reveal_strlit("7");
        reveal_strlit("8");
        reveal_strlit("9");
    }
    match d {
        0 => "0",
        1 => "1",
        2 => "2",
        3 => "3",
        4 => "4",
        5 => "5",
        6 => "6",
        7 => "7",
        8 => "8",
        _ => "9",
    }
}

/// Writes `n` in decimal.
pub fn decimal_text(n: u64) -> (res: String)
    ensures
        res@ == decimal(n as nat),
    decreases n,
{
    let mut res = if n < 10 {
        String::new()
    } else {
        decimal_text(n / 10)
    };
    res.append(digit_text(n % 10));
    res
}

/// Whether `a` comes no later than `b` in the lexicographic order of byte strings.
pub open spec fn bytes_at_most(a: Seq<u8>, b: Seq<u8>) -> bool
    decreases a.len(),
{
    if a.len() == 0 {
        true
    } else if b.len() == 0 {
        false
    } else if a[0] != b[0] {
        a[0] < b[0]
    } else {
        bytes_at_most(a.drop_first(), b.drop_first())
    }
}

/// Whether `a` comes no later than `b` in the order of strings, which is that of their UTF-8
/// bytes.
pub open spec fn name_at_most(a: Seq<char>, b: Seq<char>) -> bool {
    bytes_at_most(encode_utf8(a), encode_utf8(b))
}

/// The order of strings as a relation.
pub open spec fn name_order() -> spec_fn(Seq<char>, Seq<char>) -> bool {
    |a: Seq<char>, b: Seq<char>| name_at_most(a, b)
}

proof fn lemma_bytes_reflexive(a: Seq<u8>)
    ensures
        bytes_at_most(a, a),
    decreases a.len(),
{
    if a.len() > 0 {
        lemma_bytes_reflexive(a.drop_first());
    }
}

proof fn lemma_bytes_antisymmetric(a: Seq<u8>, b: Seq<u8>)
    requires
        bytes_at_most(a, b),
        bytes_at_most(b, a),
    ensures
        a == b,
    decreases a.len(),
{
    if a.len() > 0 {
        lemma_bytes_antisymmetric(a.drop_first(), b.drop_first());
        assert(a == seq![a[0]] + a.drop_first());
        assert(b == seq![b[0]] + b.drop_first());
    } else {
        assert(a == b);
    }
}

proof fn lemma_bytes_transitive(a: Seq<u8>, b: Seq<u8>, c: Seq<u8>)
    requires
        bytes_at_most(a, b),
        bytes_at_most(b, c),
    ensures
        bytes_at_most(a, c),
    decreases a.len(),
{
    if a.len() > 0 && a[0] == b[0] && b[0] == c[0] {
        lemma_bytes_transitive(a.drop_first(), b.drop_first(), c.drop_first());
    }
}

proof fn lemma_bytes_total(a: Seq<u8>, b: Seq<u8>)
    ensures
        bytes_at_most(a, b) || bytes_at_most(b, a),
    decreases a.len(),
{
    if a.len() > 0 && b.len() > 0 && a[0] == b[0] {
        lemma_bytes_total(a.drop_first(), b.drop_first());
    }
}

/// The order of strings is a total order.
pub proof fn law_name_order_is_total()
    ensures
        total_ordering(name_order()),
{
    let r = name_order();
    assert forall|a: Seq<char>| #[trigger] r(a, a) by {
        lemma_bytes_reflexive(encode_utf8(a));
    }
    assert forall|a: Seq<char>, b: Seq<char>| #[trigger] r(a, b) && #[trigger] r(b, a) implies a
        == b by {
        lemma_bytes_antisymmetric(encode_utf8(a), encode_utf8(b));
        vstd::utf8::encode_utf8_decode_utf8(a);
        vstd::utf8::encode_utf8_decode_utf8(b);
    }
    assert forall|a: Seq<char>, b: Seq<char>, c: Seq<char>| #[trigger]
        r(a, b) && #[trigger] r(b, c) implies r(a, c) by {
        lemma_bytes_transitive(encode_utf8(a), encode_utf8(b), encode_utf8(c));
    }
    assert forall|a: Seq<char>, b: Seq<char>| #[trigger] r(a, b) || #[trigger] r(b, a) by {
        lemma_bytes_total(encode_utf8(a), encode_utf8(b));
    }
}

/// Compares two strings by the order of strings.
fn is_at_most(a: &str, b: &str) -> (res: bool)
    ensures
        res == name_at_most(a@, b@),
{
    let left = a.as_bytes();
    let right = b.as_bytes();
    let mut i: usize = 0;
    proof {
        assert(left@.skip(0) == left@);
        assert(right@.skip(0) == right@);
    }
    while i < left.len() && i < right.len() && left[i] == right[i]
        invariant
            i <= left@.len(),
            i <= right@.len(),
            left@ == encode_utf8(a@),
            right@ == encode_utf8(b@),
            name_at_most(a@, b@) == bytes_at_most(left@.skip(i as int), right@.skip(i as int)),
        decreases left@.len() - i,
    {
        proof {
            assert(left@.skip(i as int).drop_first() == left@.skip(i + 1));
            assert(right@.skip(i as int).drop_first() == right@.skip(i + 1));
        }
        i = i + 1;
    }
    if i >= left.len() {
        true
    } else if i >= right.len() {
        false
    } else {
        left[i] < right[i]
    }
}

/// Puts `ident` in front of the first identifier of a sorted vector that it does not come after.
fn insert_sorted(sorted: &mut Vec<Ident>, ident: Ident)
    requires
        sorted_by(spellings(old(sorted)@), name_order()),
    ensures
        sorted_by(spellings(final(sorted)@), name_order()),
        final(sorted)@.to_multiset() == old(sorted)@.to_multiset().insert(ident),
{
    let ghost before = sorted@;
    let mut i: usize = 0;
    while i < sorted.len() && !is_at_most(ident.as_str(), sorted[i].as_str())
        invariant
            i <= sorted@.len(),
            sorted@ == before,
            forall|j: int| 0 <= j < i ==> !name_at_most(ident@, #[trigger] sorted@[j]@),
        decreases sorted@.len() - i,
    {
        i = i + 1;
    }
    let ghost at = ident;
    sorted.insert(i, ident);
    proof {
        let r = name_order();
        law_name_order_is_total();
        broadcast use vstd::seq_lib::group_to_multiset_ensures;
        before.to_multiset_ensures();
        assert(before.insert(i as int, at).to_multiset() =~= before.to_multiset().insert(at));
        let names = spellings(before);
        let now = spellings(sorted@);
        assert forall|j: int, k: int| 0 <= j < k < now.len() implies #[trigger] r(now[j], now[k]) by {
            if j < i && k == i {
                assert(r(now[k], now[j]) || r(now[j], now[k]));
            } else if j == i {
                assert(r(at@, names[i as int]));
                assert(now[k] == names[k - 1]);
                if k - 1 > i {
                    assert(r(names[i as int], names[k - 1]));
                }
            } else {
                let jj = if j < i { j } else { j - 1 };
                let kk = if k < i { k } else { k - 1 };
                assert(r(names[jj], names[kk]));
            }
        }
    }
}

/// Sorts identifiers by their spelling.
pub fn sort_idents(idents: Vec<Ident>) -> (res: Vec<Ident>)
    ensures
        sorted_by(spellings(res@), name_order()),
        res@.to_multiset() == idents@.to_multiset(),
{
    let mut rest = idents;
    let mut res: Vec<Ident> = Vec::new();
    proof {
        broadcast use vstd::seq_lib::group_to_multiset_ensures;
        res@.to_multiset_ensures();
        assert(res@.to_multiset().add(rest@.to_multiset()) =~= idents@.to_multiset());
    }
    while rest.len() > 0
        invariant
            sorted_by(spellings(res@), name_order()),
            res@.to_multiset().add(rest@.to_multiset()) == idents@.to_multiset(),
        decreases rest@.len(),
    {
        let ghost before = rest@;
        let last = rest.pop();
        if let Some(ident) = last {
            proof {
                broadcast use vstd::seq_lib::group_to_multiset_ensures;
                assert(before == rest@.push(ident));
                rest@.to_multiset_ensures();
            }
            let ghost placed = res@;
            insert_sorted(&mut res, ident);
            proof {
                assert(res@.to_multiset().add(rest@.to_multiset()) =~= placed.to_multiset().add(
                    before.to_multiset(),
                ));
            }
        }
    }
    proof {
        rest@.to_multiset_ensures();
        assert(rest@.to_multiset() =~= vstd::multiset::Multiset::empty());
        assert(res@.to_multiset() =~= idents@.to_multiset());
    }
    res
}

/// The digit at place `i` of a number's decimal text, counted from its end, is the number's digit
/// at that power of ten.
pub proof fn law_decimal_has_the_numbers_digits(n: nat, i: nat)
    requires
        i < decimal(n).len(),
    ensures
        decimal(n)[decimal(n).len() - 1 - i] as int == 48 + (n as int / pow(10, i)) % 10,
    decreases n,
{
    let last = n % 10;
    assert(digit(last) as int == 48 + last);
    if i == 0 {
        lemma_pow0(10);
        assert(n as int / pow(10, 0) == n);
    } else {
        assert(n >= 10);
        let front = decimal(n / 10);
        assert(decimal(n) == front.push(digit(last)));
        let j = (i - 1) as nat;
        law_decimal_has_the_numbers_digits(n / 10, j);
        lemma_pow_positive(10, j);
        reveal(pow);
        assert(pow(10, i) == 10 * pow(10, j));
        lemma_div_denominator(n as int, 10, pow(10, j));
        assert(decimal(n)[decimal(n).len() - 1 - i] == front[front.len() - 1 - j]);
    }
}

/// The decimal text of a number has as many digits as the number takes: it starts with no zero,
/// but for zero itself.
pub proof fn law_decimal_has_no_leading_zero(n: nat)
    ensures
        decimal(n).len() > 0,
        n < pow(10, decimal(n).len()),
        decimal(n).len() > 1 ==> pow(10, (decimal(n).len() - 1) as nat) <= n,
    decreases n,
{
    reveal(pow);
    if n < 10 {
        lemma_pow1(10);
    } else {
        let front = decimal(n / 10);
        law_decimal_has_no_leading_zero(n / 10);
        assert(decimal(n).len() == front.len() + 1);
        assert(pow(10, decimal(n).len()) == 10 * pow(10, front.len()));
        if front.len() > 1 {
            assert(pow(10, front.len()) == 10 * pow(10, (front.len() - 1) as nat));
        } else {
            lemma_pow1(10);
        }
    }
}

/// One name comes no later than another exactly if its UTF-8 bytes are a prefix of the other's, or
/// are smaller at the first byte in which the two differ.
pub proof fn law_names_are_ordered_by_their_bytes(a: Seq<char>, b: Seq<char>)
    ensures
        name_at_most(a, b) <==> {
            ||| encode_utf8(a).is_prefix_of(encode_utf8(b))
            ||| exists|k: int|
                #![trigger encode_utf8(a)[k]]
                0 <= k < encode_utf8(a).len() && k < encode_utf8(b).len() && encode_utf8(a).take(k)
                    == encode_utf8(b).take(k) && encode_utf8(a)[k] < encode_utf8(b)[k]
        },
        name_order()(a, b) == name_at_most(a, b),
{
    lemma_bytes_order(encode_utf8(a), encode_utf8(b));
}

proof fn lemma_bytes_order(a: Seq<u8>, b: Seq<u8>)
    ensures
        bytes_at_most(a, b) <==> {
            ||| a.is_prefix_of(b)
            ||| exists|k: int|
                #![trigger a[k]]
                0 <= k < a.len() && k < b.len() && a.take(k) == b.take(k) && a[k] < b[k]
        },
    decreases a.len(),
{
    let smaller = exists|k: int|
        #![trigger a[k]]
        0 <= k < a.len() && k < b.len() && a.take(k) == b.take(k) && a[k] < b[k];
    if a.len() > 0 && b.len() > 0 {
        let x = a.drop_first();
        let y = b.drop_first();
        lemma_bytes_order(x, y);
        if a[0] != b[0] {
            if a[0] < b[0] {
                assert(a.take(0) == b.take(0));
                assert(smaller);
            }
            if smaller {
                let k = choose|k: int|
                    #![trigger a[k]]
                    0 <= k < a.len() && k < b.len() && a.take(k) == b.take(k) && a[k] < b[k];
                if k > 0 {
                    assert(a.take(k)[0] == b.take(k)[0]);
                }
            }
        } else {
            if bytes_at_most(x, y) {
                if x.is_prefix_of(y) {
                    assert(a.is_prefix_of(b)) by {
                        assert forall|i: int| 0 <= i < a.len() implies a[i] == b[i] by {
                            if i > 0 {
                                assert(x[i - 1] == y[i - 1]);
                            }
                        }
                        assert(a == b.take(a.len() as int));
                    }
                } else {
                    let k = choose|k: int|
                        #![trigger x[k]]
                        0 <= k < x.len() && k < y.len() && x.take(k) == y.take(k) && x[k] < y[k];
                    assert forall|i: int| 0 <= i < k + 1 implies a[i] == b[i] by {
                        if i > 0 {
                            assert(x.take(k)[i - 1] == y.take(k)[i - 1]);
                        }
                    }
                    assert(a.take(k + 1) == b.take(k + 1));
                    assert(a[k + 1] < b[k + 1]);
                    assert(smaller);
                }
            }
            if a.is_prefix_of(b) {
                assert(x.is_prefix_of(y)) by {
                    assert(x == y.take(x.len() as int));
                }
            }
            if smaller {
                let k = choose|k: int|
                    #![trigger a[k]]
                    0 <= k < a.len() && k < b.len() && a.take(k) == b.take(k) && a[k] < b[k];
                assert(k > 0);
                assert forall|i: int| 0 <= i < k - 1 implies x[i] == y[i] by {
                    assert(a.take(k)[i + 1] == b.take(k)[i + 1]);
                }
                assert(x.take(k - 1) == y.take(k - 1));
                assert(x[k - 1] < y[k - 1]);
            }
        }
    } else if a.len() == 0 {
        assert(a.is_prefix_of(b));
    }
}

} // verus!
