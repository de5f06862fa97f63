//! Verified string-building helpers shared by the keybinding summary and the
//! display strings: appending single characters, lexicographic comparison
//! and insertion sort of strings, and decimal rendering of counters.

use vstd::prelude::*;
use vstd::string::StrSliceExecFns;

verus! {

/// Relies on `String::push`: appends exactly the one character to the end.
#[verifier::external_body]
pub(crate) fn push_char(s: &mut String, c: char)
    ensures
        final(s)@ == old(s)@ + seq![c],
{
    s.push(c)
}

/// Lexicographic order on character sequences by Unicode scalar value, with
/// a prefix ordered before its extensions. This is the order in which `str`
/// values compare, since UTF-8 preserves scalar order byte-wise.
pub open spec fn lex_le(a: Seq<char>, b: Seq<char>) -> bool
    decreases a.len(),
{
    if a.len() == 0 {
        true
    } else if b.len() == 0 {
        false
    } else if (a[0] as u32) < (b[0] as u32) {
        true
    } else if (a[0] as u32) > (b[0] as u32) {
        false
    } else {
        lex_le(a.drop_first(), b.drop_first())
    }
}

/// Whether `a` compares at or before `b` in lexicographic order.
pub fn str_lex_le(a: &str, b: &str) -> (r: bool)
    ensures
        r == lex_le(a@, b@),
{
    let a_len = a.unicode_len();
    let b_len = b.unicode_len();
    let mut i: usize = 0;
    proof {
        assert(a@.skip(0) =~= a@);
        assert(b@.skip(0) =~= b@);
    }
    loop
        invariant
            i <= a_len,
            i <= b_len,
            a_len == a@.len(),
            b_len == b@.len(),
            forall|j: int| 0 <= j < i ==> a@[j] == b@[j],
            lex_le(a@, b@) == lex_le(a@.skip(i as int), b@.skip(i as int)),
        decreases a_len - i,
    {
        if i >= a_len {
            return true;
        }
        if i >= b_len {
            return false;
        }
        let ca = a.get_char(i);
        let cb = b.get_char(i);
        if (ca as u32) < (cb as u32) {
            return true;
        }
        if (ca as u32) > (cb as u32) {
            return false;
        }
        proof {
            assert(a@.skip(i as int).drop_first() =~= a@.skip(i + 1));
            assert(b@.skip(i as int).drop_first() =~= b@.skip(i + 1));
        }
        i = i + 1;
    }
}

/// `x` placed before the first element of `s` that it compares at or before;
/// on a sorted `s` this is insertion sort's single step.
pub open spec fn spec_insert_sorted(x: Seq<char>, s: Seq<Seq<char>>) -> Seq<Seq<char>>
    decreases s.len(),
{
    if s.len() == 0 {
        seq![x]
    } else if lex_le(x, s[0]) {
        seq![x] + s
    } else {
        seq![s[0]] + spec_insert_sorted(x, s.drop_first())
    }
}

/// Insertion sort of a sequence of character sequences, smallest first.
pub open spec fn spec_sort(s: Seq<Seq<char>>) -> Seq<Seq<char>>
    decreases s.len(),
{
    if s.len() == 0 {
        Seq::empty()
    } else {
        spec_insert_sorted(s[0], spec_sort(s.drop_first()))
    }
}

/// The views of a sequence of strings.
pub open spec fn seq_views(s: Seq<String>) -> Seq<Seq<char>> {
    s.map_values(|p: String| p@)
}

/// Inserting at position `i` — past every element `x` does not compare at or
/// before, and no further — is exactly `spec_insert_sorted`.
proof fn lemma_insert_sorted_at(x: Seq<char>, s: Seq<Seq<char>>, i: int)
    requires
        0 <= i <= s.len(),
        forall|j: int| 0 <= j < i ==> !lex_le(x, s[j]),
        i < s.len() ==> lex_le(x, s[i]),
    ensures
        spec_insert_sorted(x, s) == s.insert(i, x),
    decreases s.len(),
{
    if i == 0 {
        if s.len() == 0 {
            assert(spec_insert_sorted(x, s) =~= s.insert(0, x));
        } else {
            assert(spec_insert_sorted(x, s) =~= s.insert(0, x));
        }
    } else {
        let rest = s.drop_first();
        assert(!lex_le(x, s[0]));
        assert(forall|j: int| 0 <= j < i - 1 ==> rest[j] == s[j + 1]);
        lemma_insert_sorted_at(x, rest, i - 1);
        assert(seq![s[0]] + rest.insert(i - 1, x) =~= s.insert(i, x));
    }
}

/// Insert `x` into the sorted vector `v`, keeping it sorted; the result is
/// `spec_insert_sorted` of the views.
pub fn insert_into_sorted(v: &mut Vec<String>, x: String)
    ensures
        seq_views(final(v)@) == spec_insert_sorted(x@, seq_views(old(v)@)),
{
    let ghost views = seq_views(v@);
    let mut i: usize = 0;
    while i < v.len() && !str_lex_le(x.as_str(), v[i].as_str())
        invariant
            i <= v@.len(),
            v@ == old(v)@,
            forall|j: int| 0 <= j < i ==> !lex_le(x@, views[j]),
            views == seq_views(v@),
        decreases v@.len() - i,
    {
        proof {
            assert(views[i as int] == v@[i as int]@);
        }
        i = i + 1;
    }
    proof {
        assert(i < v@.len() ==> lex_le(x@, views[i as int])) by {
            assert(i < v@.len() ==> views[i as int] == v@[i as int]@);
        }
        lemma_insert_sorted_at(x@, views, i as int);
    }
    v.insert(i, x);
    proof {
        assert(seq_views(v@) =~= views.insert(i as int, x@));
    }
}

/// Sort the strings in `v`, smallest first; the result is `spec_sort` of the
/// original views.
pub fn sort_strings(v: Vec<String>) -> (r: Vec<String>)
    ensures
        seq_views(r@) == spec_sort(seq_views(v@)),
{
    let ghost orig = seq_views(v@);
    let mut remaining = v;
    let mut sorted: Vec<String> = Vec::new();
    proof {
        assert(orig.skip(remaining@.len() as int) =~= Seq::<Seq<char>>::empty());
        assert(seq_views(sorted@) =~= Seq::<Seq<char>>::empty());
    }
    while remaining.len() > 0
        invariant
            remaining@.len() <= orig.len(),
            forall|j: int| 0 <= j < remaining@.len() ==> remaining@[j]@ == orig[j],
            seq_views(sorted@) == spec_sort(orig.skip(remaining@.len() as int)),
        decreases remaining@.len(),
    {
        let ghost k = remaining@.len() as int;
        let x = remaining.pop().unwrap();
        proof {
            assert(x@ == orig[k - 1]);
            let suffix = orig.skip(k - 1);
            assert(suffix[0] == orig[k - 1]);
            assert(suffix.drop_first() =~= orig.skip(k));
            assert(spec_sort(suffix)
                == spec_insert_sorted(orig[k - 1], spec_sort(orig.skip(k))));
        }
        insert_into_sorted(&mut sorted, x);
    }
    proof {
        assert(orig.skip(0) =~= orig);
    }
    sorted
}

/// The decimal digit character for a value below ten.
pub open spec fn spec_digit_char(d: int) -> char {
    if d == 0 { '0' }
    else if d == 1 { '1' }
    else if d == 2 { '2' }
    else if d == 3 { '3' }
    else if d == 4 { '4' }
    else if d == 5 { '5' }
    else if d == 6 { '6' }
    else if d == 7 { '7' }
    else if d == 8 { '8' }
    else { '9' }
}

/// The decimal rendering of `n`, most significant digit first, no leading
/// zeros except for zero itself.
pub open spec fn spec_decimal(n: int) -> Seq<char>
    decreases n,
{
    if n < 10 {
        seq![spec_digit_char(n)]
    } else {
        spec_decimal(n / 10) + seq![spec_digit_char(n % 10)]
    }
}

/// The decimal rendering of `n` padded with a leading zero to at least two
/// digits, as the minute and second fields of a clock display use.
pub open spec fn spec_decimal_pad2(n: int) -> Seq<char> {
    if n < 10 {
        seq!['0'] + spec_decimal(n)
    } else {
        spec_decimal(n)
    }
}

/// The digit character for `d`.
fn digit_char(d: u64) -> (c: char)
    requires
        d < 10,
    ensures
        c == spec_digit_char(d as int),
{
    if d == 0 { '0' }
    else if d == 1 { '1' }
    else if d == 2 { '2' }
    else if d == 3 { '3' }
    else if d == 4 { '4' }
    else if d == 5 { '5' }
    else if d == 6 { '6' }
    else if d == 7 { '7' }
    else if d == 8 { '8' }
    else { '9' }
}

/// Append the decimal rendering of `n` to `out`.
pub fn push_decimal(out: &mut String, n: u64)
    ensures
        final(out)@ == old(out)@ + spec_decimal(n as int),
    decreases n,
{
    if n >= 10 {
        push_decimal(out, n / 10);
    }
    let c = digit_char(n % 10);
    push_char(out, c);
    proof {
        if n < 10 {
            assert(old(out)@ + seq![spec_digit_char(n as int)]
                =~= old(out)@ + spec_decimal(n as int));
        } else {
            assert((old(out)@ + spec_decimal(n as int / 10))
                + seq![spec_digit_char(n as int % 10)]
                =~= old(out)@ + spec_decimal(n as int));
        }
    }
}

/// Append the decimal rendering of `n`, zero-padded to at least two digits.
pub fn push_decimal_pad2(out: &mut String, n: u64)
    ensures
        final(out)@ == old(out)@ + spec_decimal_pad2(n as int),
{
    if n < 10 {
        push_char(out, '0');
    }
    push_decimal(out, n);
    proof {
        if n < 10 {
            assert((old(out)@ + seq!['0']) + spec_decimal(n as int)
                =~= old(out)@ + spec_decimal_pad2(n as int));
        }
    }
}

} // verus!
