//! Character-sequence utilities shared by the signer and the response
//! classifier: a lexicographic order on strings, separator joins, and
//! decimal rendering of integers.
use vstd::prelude::*;

verus! {

use vstd::relations::{sorted_by, total_ordering};
use vstd::string::*;

// ---------- character classes ----------

pub open spec fn is_ascii_alphanumeric_char(c: char) -> bool {
    (48 <= c as int && c as int <= 57) || (65 <= c as int && c as int <= 90) || (97 <= c as int
        && c as int <= 122)
}

/// True when `c` occurs somewhere in `s`.
pub open spec fn has_char(s: Seq<char>, c: char) -> bool
    decreases s.len(),
{
    if s.len() == 0 {
        false
    } else {
        s[0] == c || has_char(s.drop_first(), c)
    }
}

pub proof fn lemma_has_char_index(s: Seq<char>, c: char)
    ensures
        has_char(s, c) <==> exists|i: int| 0 <= i < s.len() && s[i] == c,
    decreases s.len(),
{
    if s.len() > 0 {
        lemma_has_char_index(s.drop_first(), c);
        if has_char(s.drop_first(), c) {
            let j = choose|j: int| 0 <= j < s.drop_first().len() && s.drop_first()[j] == c;
            assert(s[j + 1] == c);
        }
        if exists|i: int| 0 <= i < s.len() && s[i] == c {
            let i = choose|i: int| 0 <= i < s.len() && s[i] == c;
            if i > 0 {
                assert(s.drop_first()[i - 1] == c);
            }
        }
    }
}

// ---------- scanning up to a delimiter ----------

/// The longest prefix of `s` before the first occurrence of `c`; all of
/// `s` when `c` does not occur.
pub open spec fn take_until(s: Seq<char>, c: char) -> Seq<char>
    decreases s.len(),
{
    if s.len() == 0 {
        s
    } else if s[0] == c {
        Seq::empty()
    } else {
        seq![s[0]] + take_until(s.drop_first(), c)
    }
}

/// What follows the first occurrence of `c` in `s`; empty when `c` does
/// not occur.
pub open spec fn after_char(s: Seq<char>, c: char) -> Seq<char>
    decreases s.len(),
{
    if s.len() == 0 {
        s
    } else if s[0] == c {
        s.drop_first()
    } else {
        after_char(s.drop_first(), c)
    }
}

/// Scanning by index: when the first `i` characters differ from `c` and
/// position `i` (if inside) holds `c`, the scan splits `s` at `i`.
pub proof fn lemma_scan_split(s: Seq<char>, c: char, i: int)
    requires
        0 <= i <= s.len(),
        forall|j: int| 0 <= j < i ==> s[j] != c,
        i < s.len() ==> s[i] == c,
    ensures
        take_until(s, c) == s.subrange(0, i),
        after_char(s, c) == if i < s.len() {
            s.subrange(i + 1, s.len() as int)
        } else {
            Seq::<char>::empty()
        },
    decreases i,
{
    if s.len() == 0 {
        assert(s.subrange(0, 0) =~= s);
    } else if i == 0 {
        assert(s.subrange(0, 0) =~= Seq::<char>::empty());
        assert(s.drop_first() =~= s.subrange(1, s.len() as int));
    } else {
        lemma_scan_split(s.drop_first(), c, i - 1);
        assert(seq![s[0]] + s.drop_first().subrange(0, i - 1) =~= s.subrange(0, i));
        if i < s.len() {
            assert(s.drop_first().subrange(i, s.drop_first().len() as int) =~= s.subrange(
                i + 1,
                s.len() as int,
            ));
        }
    }
}

/// Scanning a concatenation `a + [c] + b` where `a` is free of `c`
/// yields `a` and `b`.
pub proof fn lemma_scan_concat(a: Seq<char>, b: Seq<char>, c: char)
    requires
        !has_char(a, c),
    ensures
        take_until(a + seq![c] + b, c) == a,
        after_char(a + seq![c] + b, c) == b,
    decreases a.len(),
{
    if a.len() == 0 {
        assert(a + seq![c] + b =~= seq![c] + b);
        assert((seq![c] + b)[0] == c);
        assert((seq![c] + b).drop_first() =~= b);
        assert(take_until(a + seq![c] + b, c) =~= a);
    } else {
        assert((a + seq![c] + b)[0] == a[0]);
        assert(a[0] != c);
        assert((a + seq![c] + b).drop_first() =~= a.drop_first() + seq![c] + b);
        lemma_scan_concat(a.drop_first(), b, c);
        assert(seq![a[0]] + a.drop_first() =~= a);
    }
}

/// Splits `s` at the first occurrence of `c`: the prefix before it, the
/// remainder after it, and whether `c` occurred at all.
pub fn split_at_char<'a>(s: &'a str, c: char) -> (r: (&'a str, &'a str, bool))
    ensures
        r.0@ == take_until(s@, c),
        r.1@ == after_char(s@, c),
        r.2 == has_char(s@, c),
{
    let n = s.unicode_len();
    let mut i: usize = 0;
    while i < n && s.get_char(i) != c
        invariant
            i <= n,
            n == s@.len(),
            forall|j: int| 0 <= j < i ==> s@[j] != c,
        decreases n - i,
    {
        i += 1;
    }
    proof {
        lemma_scan_split(s@, c, i as int);
        lemma_has_char_index(s@, c);
    }
    let pre = s.substring_char(0, i);
    if i < n {
        let rest = s.substring_char(i + 1, n);
        (pre, rest, true)
    } else {
        let rest = s.substring_char(n, n);
        proof {
            assert(rest@ =~= Seq::<char>::empty());
        }
        (pre, rest, false)
    }
}

// ---------- lexicographic order ----------

/// `a` comes no later than `b` in the lexicographic order on character
/// sequences, comparing code points position by position.
pub open spec fn lex_leq(a: Seq<char>, b: Seq<char>) -> bool
    decreases a.len(),
{
    if a.len() == 0 {
        true
    } else if b.len() == 0 {
        false
    } else if a[0] != b[0] {
        (a[0] as int) < (b[0] as int)
    } else {
        lex_leq(a.drop_first(), b.drop_first())
    }
}

pub open spec fn lex_leq_fn() -> spec_fn(Seq<char>, Seq<char>) -> bool {
    |a: Seq<char>, b: Seq<char>| lex_leq(a, b)
}

pub proof fn lemma_lex_leq_reflexive(a: Seq<char>)
    ensures
        lex_leq(a, a),
    decreases a.len(),
{
    if a.len() > 0 {
        lemma_lex_leq_reflexive(a.drop_first());
    }
}

pub proof fn lemma_lex_leq_antisymmetric(a: Seq<char>, b: Seq<char>)
    requires
        lex_leq(a, b),
        lex_leq(b, a),
    ensures
        a == b,
    decreases a.len(),
{
    if a.len() == 0 {
        assert(b.len() == 0);
        assert(a =~= b);
    } else {
        lemma_lex_leq_antisymmetric(a.drop_first(), b.drop_first());
        assert(a =~= seq![a[0]] + a.drop_first());
        assert(b =~= seq![b[0]] + b.drop_first());
    }
}

pub proof fn lemma_lex_leq_transitive(a: Seq<char>, b: Seq<char>, c: Seq<char>)
    requires
        lex_leq(a, b),
        lex_leq(b, c),
    ensures
        lex_leq(a, c),
    decreases a.len(),
{
    if a.len() > 0 && b.len() > 0 && c.len() > 0 {
        if a[0] == b[0] && b[0] == c[0] {
            lemma_lex_leq_transitive(a.drop_first(), b.drop_first(), c.drop_first());
        }
    }
}

pub proof fn lemma_lex_leq_connected(a: Seq<char>, b: Seq<char>)
    ensures
        lex_leq(a, b) || lex_leq(b, a),
    decreases a.len(),
{
    if a.len() > 0 && b.len() > 0 && a[0] == b[0] {
        lemma_lex_leq_connected(a.drop_first(), b.drop_first());
    }
}

/// The lexicographic order is a total order, which makes a sorted
/// arrangement of any multiset of strings unique.
pub proof fn lemma_lex_total_ordering()
    ensures
        total_ordering(lex_leq_fn()),
{
    let r = lex_leq_fn();
    assert forall|a: Seq<char>| #[trigger] r(a, a) by {
        lemma_lex_leq_reflexive(a);
    }
    assert forall|a: Seq<char>, b: Seq<char>| #[trigger] r(a, b) && #[trigger] r(b, a) implies a
        == b by {
        lemma_lex_leq_antisymmetric(a, b);
    }
    assert forall|a: Seq<char>, b: Seq<char>, c: Seq<char>|
        #[trigger] r(a, b) && #[trigger] r(b, c) implies r(a, c) by {
        lemma_lex_leq_transitive(a, b, c);
    }
    assert forall|a: Seq<char>, b: Seq<char>| !(#[trigger] r(a, b)) implies r(b, a) by {
        lemma_lex_leq_connected(a, b);
    }
}

pub proof fn lemma_lex_leq_skip(a: Seq<char>, b: Seq<char>, i: int)
    requires
        0 <= i <= a.len(),
        i <= b.len(),
        forall|j: int| 0 <= j < i ==> a[j] == b[j],
    ensures
        lex_leq(a, b) == lex_leq(a.skip(i), b.skip(i)),
    decreases i,
{
    if i > 0 {
        assert(a.drop_first().skip(i - 1) =~= a.skip(i));
        assert(b.drop_first().skip(i - 1) =~= b.skip(i));
        lemma_lex_leq_skip(a.drop_first(), b.drop_first(), i - 1);
    } else {
        assert(a.skip(0) =~= a);
        assert(b.skip(0) =~= b);
    }
}

/// Decides the lexicographic order on two string slices.
pub fn str_lex_leq(a: &str, b: &str) -> (r: bool)
    ensures
        r == lex_leq(a@, b@),
{
    let alen = a.unicode_len();
    let blen = b.unicode_len();
    let mut i: usize = 0;
    while i < alen && i < blen
        invariant
            i <= alen,
            i <= blen,
            alen == a@.len(),
            blen == b@.len(),
            forall|j: int| 0 <= j < i ==> a@[j] == b@[j],
        decreases alen - i,
    {
        let ca = a.get_char(i);
        let cb = b.get_char(i);
        if ca != cb {
            proof {
                lemma_lex_leq_skip(a@, b@, i as int);
                assert(a@.skip(i as int)[0] == a@[i as int]);
                assert(b@.skip(i as int)[0] == b@[i as int]);
            }
            return (ca as u32) < (cb as u32);
        }
        i += 1;
    }
    proof {
        lemma_lex_leq_skip(a@, b@, i as int);
        if i == alen {
            assert(a@.skip(i as int).len() == 0);
        } else {
            assert(b@.skip(i as int).len() == 0);
            assert(a@.skip(i as int).len() > 0);
        }
    }
    i == alen
}

/// Decides equality of two string slices, character by character.
pub fn str_eq(a: &str, b: &str) -> (r: bool)
    ensures
        r == (a@ == b@),
{
    let alen = a.unicode_len();
    let blen = b.unicode_len();
    if alen != blen {
        return false;
    }
    let mut i: usize = 0;
    while i < alen
        invariant
            i <= alen,
            alen == a@.len(),
            alen == b@.len(),
            forall|j: int| 0 <= j < i ==> a@[j] == b@[j],
        decreases alen - i,
    {
        if a.get_char(i) != b.get_char(i) {
            return false;
        }
        i += 1;
    }
    proof {
        assert(a@ =~= b@);
    }
    true
}

// ---------- joining ----------

/// The parts joined with the separator between neighbours.
pub open spec fn join_with(parts: Seq<Seq<char>>, sep: Seq<char>) -> Seq<char>
    decreases parts.len(),
{
    if parts.len() == 0 {
        Seq::empty()
    } else if parts.len() == 1 {
        parts[0]
    } else {
        parts[0] + sep + join_with(parts.drop_first(), sep)
    }
}

pub proof fn lemma_join_with_push(parts: Seq<Seq<char>>, x: Seq<char>, sep: Seq<char>)
    ensures
        join_with(parts.push(x), sep) == if parts.len() == 0 {
            x
        } else {
            join_with(parts, sep) + sep + x
        },
    decreases parts.len(),
{
    if parts.len() == 0 {
        assert(parts.push(x)[0] == x);
    } else {
        assert(parts.push(x).drop_first() =~= parts.drop_first().push(x));
        lemma_join_with_push(parts.drop_first(), x, sep);
        if parts.len() == 1 {
            assert(join_with(parts, sep) == parts[0]);
        } else {
            assert((parts[0] + sep + (join_with(parts.drop_first(), sep) + sep + x)) =~= (parts[0]
                + sep + join_with(parts.drop_first(), sep)) + sep + x);
        }
    }
}

/// Joins the strings with the separator, as `join_with` describes.
pub fn join_strings(parts: &Vec<String>, sep: &str) -> (r: String)
    ensures
        r@ == join_with(parts.deep_view(), sep@),
{
    let mut r = String::new();
    let n = parts.len();
    let mut i: usize = 0;
    while i < n
        invariant
            i <= n,
            n == parts@.len(),
            r@ == join_with(parts.deep_view().take(i as int), sep@),
        decreases n - i,
    {
        if i > 0 {
            r.append(sep);
        }
        r.append(parts[i].as_str());
        proof {
            lemma_join_with_push(parts.deep_view().take(i as int), parts.deep_view()[i as int],
                sep@);
            assert(parts.deep_view().take(i + 1) =~= parts.deep_view().take(i as int).push(
                parts.deep_view()[i as int]));
        }
        i += 1;
    }
    proof {
        assert(parts.deep_view().take(n as int) =~= parts.deep_view());
    }
    r
}

/// Mapping a function over two arrangements of the same elements yields
/// two arrangements of the same images.
pub proof fn lemma_map_values_multiset<A, B>(s1: Seq<A>, s2: Seq<A>, f: spec_fn(A) -> B)
    requires
        s1.to_multiset() == s2.to_multiset(),
    ensures
        s1.map_values(f).to_multiset() == s2.map_values(f).to_multiset(),
    decreases s1.len(),
{
    broadcast use vstd::seq_lib::group_to_multiset_ensures;
    broadcast use vstd::multiset::group_multiset_axioms;

    if s1.len() == 0 {
        assert(s1.to_multiset().len() == s1.len());
        assert(s2.to_multiset().len() == s2.len());
        assert(s2.len() == 0);
        assert(s1.map_values(f) =~= Seq::<B>::empty());
        assert(s2.map_values(f) =~= Seq::<B>::empty());
    } else {
        let x = s1[0];
        assert(s1.contains(x));
        assert(s2.to_multiset().count(x) > 0);
        assert(s2.contains(x));
        let j = choose|j: int| 0 <= j < s2.len() && s2[j] == x;
        vstd::seq_lib::to_multiset_remove(s1, 0);
        vstd::seq_lib::to_multiset_remove(s2, j);
        lemma_map_values_multiset(s1.remove(0), s2.remove(j), f);
        assert(s1.remove(0).map_values(f) =~= s1.map_values(f).remove(0));
        assert(s2.remove(j).map_values(f) =~= s2.map_values(f).remove(j));
        vstd::seq_lib::to_multiset_remove(s1.map_values(f), 0);
        vstd::seq_lib::to_multiset_remove(s2.map_values(f), j);
        let m1 = s1.map_values(f).to_multiset();
        let m2 = s2.map_values(f).to_multiset();
        assert(m1.remove(f(x)) == m2.remove(f(x)));
        assert(s1.map_values(f).contains(f(x)));
        assert(s2.map_values(f)[j] == f(x));
        assert(s2.map_values(f).contains(f(x)));
        assert(m1.count(f(x)) > 0);
        assert(m2.count(f(x)) > 0);
        assert forall|y: B| m1.count(y) == m2.count(y) by {
            if y == f(x) {
                assert(m1.remove(f(x)).count(y) == m1.count(y) - 1);
                assert(m2.remove(f(x)).count(y) == m2.count(y) - 1);
            } else {
                assert(m1.remove(f(x)).count(y) == m1.count(y));
                assert(m2.remove(f(x)).count(y) == m2.count(y));
            }
        }
        assert(m1 =~= m2);
    }
}

// ---------- sorting ----------

fn insert_sorted(v: &mut Vec<String>, x: String)
    requires
        sorted_by(old(v).deep_view(), lex_leq_fn()),
    ensures
        sorted_by(final(v).deep_view(), lex_leq_fn()),
        final(v).deep_view().to_multiset() == old(v).deep_view().to_multiset().insert(x@),
        final(v)@.len() == old(v)@.len() + 1,
{
    let n = v.len();
    let mut idx: usize = 0;
    while idx < n && str_lex_leq(v[idx].as_str(), x.as_str())
        invariant
            idx <= n,
            n == v@.len(),
            *v == *old(v),
            forall|j: int| 0 <= j < idx ==> lex_leq(v.deep_view()[j], x@),
        decreases n - idx,
    {
        idx += 1;
    }
    proof {
        if idx < n {
            assert(!lex_leq(v.deep_view()[idx as int], x@));
            lemma_lex_leq_connected(v.deep_view()[idx as int], x@);
        }
    }
    let ghost old_deep = v.deep_view();
    v.insert(idx, x);
    proof {
        let d = v.deep_view();
        assert(d =~= old_deep.insert(idx as int, x@));
        vstd::seq_lib::to_multiset_insert(old_deep, idx as int, x@);
        assert forall|i: int, j: int| 0 <= i < j < d.len() implies lex_leq_fn()(d[i], d[j]) by {
            if i == idx {
                // d[i] is x@; everything after comes from position j - 1 >= idx
                if j - 1 > idx {
                    assert(lex_leq_fn()(old_deep[idx as int], old_deep[j - 1]));
                    lemma_lex_leq_transitive(x@, old_deep[idx as int], old_deep[j - 1]);
                }
            } else if j == idx {
                assert(lex_leq(old_deep[i], x@));
            } else {
                let i0: int = if i < idx {
                    i
                } else {
                    i - 1
                };
                let j0: int = if j < idx {
                    j
                } else {
                    j - 1
                };
                assert(lex_leq_fn()(old_deep[i0], old_deep[j0]));
            }
        }
    }
}

/// Sorts the strings into the lexicographic order. The result is the
/// canonical sorted arrangement of the input: it is sorted, it holds
/// exactly the input strings, and it equals `sort_by` on the views.
pub fn sort_strings(v: &Vec<String>) -> (r: Vec<String>)
    ensures
        sorted_by(r.deep_view(), lex_leq_fn()),
        r.deep_view().to_multiset() == v.deep_view().to_multiset(),
        r.deep_view() == v.deep_view().sort_by(lex_leq_fn()),
{
    broadcast use vstd::seq_lib::group_to_multiset_ensures;

    let mut out: Vec<String> = Vec::new();
    let n = v.len();
    let mut i: usize = 0;
    while i < n
        invariant
            i <= n,
            n == v@.len(),
            sorted_by(out.deep_view(), lex_leq_fn()),
            out.deep_view().to_multiset() == v.deep_view().take(i as int).to_multiset(),
        decreases n - i,
    {
        insert_sorted(&mut out, v[i].clone());
        proof {
            let d = v.deep_view();
            assert(v[i as int]@ == d[i as int]);
            assert(d.take(i + 1) =~= d.take(i as int).push(d[i as int]));
            vstd::seq_lib::to_multiset_build(d.take(i as int), d[i as int]);
        }
        i += 1;
    }
    proof {
        assert(v.deep_view().take(n as int) =~= v.deep_view());
        lemma_lex_total_ordering();
        v.deep_view().lemma_sort_by_ensures(lex_leq_fn());
        vstd::seq_lib::lemma_sorted_unique(out.deep_view(), v.deep_view().sort_by(lex_leq_fn()),
            lex_leq_fn());
    }
    out
}

// ---------- decimal rendering ----------

pub open spec fn decimal_digit(d: int) -> char {
    (d + 48) as char
}

/// The usual decimal rendering of `n`, most significant digit first,
/// with no leading zeroes (a single `'0'` for zero).
pub open spec fn decimal_of(n: nat) -> Seq<char>
    decreases n,
{
    if n < 10 {
        seq![decimal_digit(n as int)]
    } else {
        decimal_of(n / 10) + seq![decimal_digit((n % 10) as int)]
    }
}

fn digit_str(d: u64) -> (r: &'static str)
    requires
        d < 10,
    ensures
        r@ == seq![decimal_digit(d as int)],
{
    let r = match d {
        0 => "0",
        1 => "1",
        2 => "2",
        3 => "3",
        4 => "4",
        5 => "5",
        6 => "6",
        7 => "7",
        8 => "8",
        _ => "9",
    };
    proof {
        reveal_strlit("0");
        reveal_strlit("1");
        reveal_strlit("2");
        reveal_strlit("3");
        reveal_strlit("4");
        reveal_strlit("5");
        reveal_strlit("6");
        reveal_strlit("7");
        reveal_strlit("8");
        reveal_strlit("9");
        assert(r@ =~= seq![decimal_digit(d as int)]);
    }
    r
}

/// Renders `n` in decimal, as `decimal_of` describes.
pub fn u64_to_decimal(n: u64) -> (r: String)
    ensures
        r@ == decimal_of(n as nat),
    decreases n,
{
    if n < 10 {
        String::from_str(digit_str(n))
    } else {
        let front = u64_to_decimal(n / 10);
        front.concat(digit_str(n % 10))
    }
}

pub proof fn lemma_decimal_digit_value(d: int)
    requires
        0 <= d <= 9,
    ensures
        48 <= decimal_digit(d) as int <= 57,
{
    assert(decimal_digit(d) as int == d + 48);
}

/// Every character of a decimal rendering is a digit, so in particular
/// no quotation mark occurs in it.
pub proof fn lemma_decimal_has_no_char(n: nat, c: char)
    requires
        !(48 <= c as int <= 57),
    ensures
        !has_char(decimal_of(n), c),
    decreases n,
{
    lemma_has_char_index(decimal_of(n), c);
    if n < 10 {
        lemma_decimal_digit_value(n as int);
        assert forall|i: int| 0 <= i < decimal_of(n).len() implies decimal_of(n)[i] != c by {
            assert(decimal_of(n)[i] == decimal_digit(n as int));
        }
    } else {
        lemma_decimal_digit_value((n % 10) as int);
        lemma_decimal_has_no_char(n / 10, c);
        lemma_has_char_index(decimal_of(n / 10), c);
        assert forall|i: int| 0 <= i < decimal_of(n).len() implies decimal_of(n)[i] != c by {
            if i < decimal_of(n / 10).len() {
                assert(decimal_of(n)[i] == decimal_of(n / 10)[i]);
            } else {
                assert(decimal_of(n)[i] == decimal_digit((n % 10) as int));
            }
        }
    }
}

} // verus!
