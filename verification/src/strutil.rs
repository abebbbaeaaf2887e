//! Small string-building helpers shared by the rest of the crate.

use vstd::prelude::*;

verus! {

use vstd::std_specs::iter::IteratorSpec;
use vstd::string::StringExecFns;

/// Relies on std's `String::push`: appends exactly the given character.
#[verifier::external_body]
pub(crate) fn push_char(s: &mut String, c: char)
    ensures
        final(s)@ == old(s)@.push(c),
{
    s.push(c);
}

/// The given text with leading and trailing whitespace removed.
/// A function of the characters alone.
pub uninterp spec fn trim_of(s: Seq<char>) -> Seq<char>;

/// Relies on std's `str::trim`: returns the text with leading and trailing
/// whitespace removed, a function of the characters alone.
#[verifier::external_body]
pub(crate) fn trim(s: &str) -> (r: &str)
    ensures
        r@ == trim_of(s@),
{
    s.trim()
}

/// The characters of a string slice, as an indexable vector.
pub(crate) fn chars_vec(s: &str) -> (v: Vec<char>)
    ensures
        v@ == s@,
{
    let mut it = s.chars();
    let mut v: Vec<char> = Vec::new();
    loop
        invariant
            it.obeys_prophetic_iter_laws(),
            it.decrease() is Some,
            v@ + it.remaining() == s@,
        ensures
            v@ == s@,
        decreases it.decrease()->0,
    {
        match it.next() {
            Some(c) => {
                v.push(c);
            },
            None => {
                assert(v@ + it.remaining() == s@);
                assert(it.remaining().len() == 0);
                assert(v@ =~= s@);
                break ;
            },
        }
    }
    v
}

/// The index of the first `{}` placeholder in the text, if any.
pub open spec fn find_placeholder(s: Seq<char>) -> Option<int>
    decreases s.len(),
{
    if s.len() < 2 {
        None
    } else if s[0] == '{' && s[1] == '}' {
        Some(0)
    } else {
        match find_placeholder(s.drop_first()) {
            None => None,
            Some(i) => Some(i + 1),
        }
    }
}

/// The text with its first `{}` placeholder replaced by the given value;
/// the text unchanged when it has no placeholder.
pub open spec fn spec_subst(t: Seq<char>, v: Seq<char>) -> Seq<char> {
    match find_placeholder(t) {
        None => t,
        Some(i) => t.take(i) + v + t.skip(i + 2),
    }
}

proof fn lemma_find_placeholder_none(s: Seq<char>)
    requires
        forall|i: int| 0 <= i < s.len() - 1 ==> !(#[trigger] s[i] == '{' && s[i + 1] == '}'),
    ensures
        find_placeholder(s) is None,
    decreases s.len(),
{
    if s.len() >= 2 {
        assert(forall|i: int|
            0 <= i < s.drop_first().len() ==> #[trigger] s.drop_first()[i] == s[i + 1]);
        lemma_find_placeholder_none(s.drop_first());
    }
}

proof fn lemma_find_placeholder_at(s: Seq<char>, k: int)
    requires
        0 <= k < s.len() - 1,
        s[k] == '{',
        s[k + 1] == '}',
        forall|i: int| 0 <= i < k ==> !(#[trigger] s[i] == '{' && s[i + 1] == '}'),
    ensures
        find_placeholder(s) == Some(k),
    decreases k,
{
    if k > 0 {
        assert(forall|i: int|
            0 <= i < s.drop_first().len() ==> #[trigger] s.drop_first()[i] == s[i + 1]);
        lemma_find_placeholder_at(s.drop_first(), k - 1);
    }
}

/// Replaces the first `{}` placeholder of the template with the value;
/// a template without a placeholder comes back unchanged.
pub(crate) fn subst_placeholder(template: &str, value: &str) -> (r: String)
    ensures
        r@ == spec_subst(template@, value@),
{
    let cs = chars_vec(template);
    let n = cs.len();
    if n < 2 {
        proof {
            lemma_find_placeholder_none(template@);
        }
        return template.to_owned();
    }
    let mut k: usize = 0;
    while k < n - 1 && !(cs[k] == '{' && cs[k + 1] == '}')
        invariant
            cs@ == template@,
            n == cs.len(),
            n >= 2,
            k <= n - 1,
            forall|i: int| 0 <= i < k ==> !(#[trigger] template@[i] == '{' && template@[i + 1]
                == '}'),
        decreases n - k,
    {
        k = k + 1;
    }
    if k == n - 1 {
        proof {
            lemma_find_placeholder_none(template@);
        }
        return template.to_owned();
    }
    proof {
        lemma_find_placeholder_at(template@, k as int);
    }
    let mut r = String::new();
    let mut i: usize = 0;
    while i < k
        invariant
            cs@ == template@,
            n == cs.len(),
            k + 1 < n,
            i <= k,
            r@ =~= template@.take(i as int),
        decreases k - i,
    {
        push_char(&mut r, cs[i]);
        assert(r@ =~= template@.take(i + 1));
        i = i + 1;
    }
    r.append(value);
    let mut j: usize = k + 2;
    while j < n
        invariant
            cs@ == template@,
            n == cs.len(),
            k + 2 <= j <= n,
            r@ =~= template@.take(k as int) + value@ + template@.subrange(k + 2, j as int),
        decreases n - j,
    {
        push_char(&mut r, cs[j]);
        assert(r@ =~= template@.take(k as int) + value@ + template@.subrange(k + 2, j + 1));
        j = j + 1;
    }
    assert(template@.subrange(k + 2, n as int) =~= template@.skip(k + 2));
    r
}

/// The decimal digit character for a value below ten.
pub open spec fn dec_digit(n: nat) -> char {
    if n == 0 {
        '0'
    } else if n == 1 {
        '1'
    } else if n == 2 {
        '2'
    } else if n == 3 {
        '3'
    } else if n == 4 {
        '4'
    } else if n == 5 {
        '5'
    } else if n == 6 {
        '6'
    } else if n == 7 {
        '7'
    } else if n == 8 {
        '8'
    } else {
        '9'
    }
}

/// The usual decimal rendering of a number, without leading zeros.
pub open spec fn spec_u64_dec(n: nat) -> Seq<char>
    decreases n,
{
    if n < 10 {
        seq![dec_digit(n)]
    } else {
        spec_u64_dec(n / 10).push(dec_digit(n % 10))
    }
}

/// Renders a number in decimal.
pub(crate) fn u64_to_dec(n: u64) -> (r: String)
    ensures
        r@ == spec_u64_dec(n as nat),
    decreases n,
{
    let d: u64 = n % 10;
    let c: char = match d {
        0 => '0',
        1 => '1',
        2 => '2',
        3 => '3',
        4 => '4',
        5 => '5',
        6 => '6',
        7 => '7',
        8 => '8',
        _ => '9',
    };
    assert(c == dec_digit((n % 10) as nat));
    if n < 10 {
        let mut r = String::new();
        push_char(&mut r, c);
        assert(r@ =~= spec_u64_dec(n as nat));
        r
    } else {
        let mut r = u64_to_dec(n / 10);
        push_char(&mut r, c);
        assert(r@ =~= spec_u64_dec(n as nat));
        r
    }
}

/// The final path component: everything after the last `/`, or the whole
/// text when it has none.
pub open spec fn spec_basename(s: Seq<char>) -> Seq<char>
    decreases s.len(),
{
    if s.len() == 0 {
        s
    } else if s.last() == '/' {
        Seq::empty()
    } else {
        spec_basename(s.drop_last()).push(s.last())
    }
}

proof fn lemma_basename_no_slash(s: Seq<char>)
    requires
        forall|i: int| 0 <= i < s.len() ==> #[trigger] s[i] != '/',
    ensures
        spec_basename(s) == s,
    decreases s.len(),
{
    if s.len() > 0 {
        assert(forall|i: int|
            0 <= i < s.drop_last().len() ==> #[trigger] s.drop_last()[i] == s[i]);
        lemma_basename_no_slash(s.drop_last());
        assert(s.drop_last().push(s.last()) =~= s);
    }
}

proof fn lemma_basename_after(s: Seq<char>, k: int)
    requires
        0 <= k < s.len(),
        s[k] == '/',
        forall|i: int| k < i < s.len() ==> #[trigger] s[i] != '/',
    ensures
        spec_basename(s) == s.skip(k + 1),
    decreases s.len(),
{
    if k == s.len() - 1 {
        assert(s.skip(k + 1) =~= Seq::<char>::empty());
    } else {
        assert(forall|i: int|
            0 <= i < s.drop_last().len() ==> #[trigger] s.drop_last()[i] == s[i]);
        lemma_basename_after(s.drop_last(), k);
        assert(s.drop_last().skip(k + 1).push(s.last()) =~= s.skip(k + 1));
    }
}

/// Returns the final path component: everything after the last `/`, or the
/// whole text when it has none.
pub fn basename(s: &str) -> (r: String)
    ensures
        r@ == spec_basename(s@),
{
    let cs = chars_vec(s);
    let n = cs.len();
    let mut e: usize = n;
    while e > 0 && cs[e - 1] != '/'
        invariant
            cs@ == s@,
            n == cs.len(),
            e <= n,
            forall|i: int| e <= i < n ==> #[trigger] s@[i] != '/',
        decreases e,
    {
        e = e - 1;
    }
    proof {
        if e == 0 {
            lemma_basename_no_slash(s@);
        } else {
            lemma_basename_after(s@, e - 1);
        }
    }
    let mut r = String::new();
    let mut i: usize = e;
    while i < n
        invariant
            cs@ == s@,
            n == cs.len(),
            e <= i <= n,
            r@ =~= s@.subrange(e as int, i as int),
        decreases n - i,
    {
        push_char(&mut r, cs[i]);
        assert(r@ =~= s@.subrange(e as int, i + 1));
        i = i + 1;
    }
    assert(s@.subrange(e as int, n as int) =~= s@.skip(e as int));
    r
}

/// Joins a directory and a file name with a single separator.
pub(crate) fn join_path(dir: &str, name: &str) -> (r: String)
    ensures
        r@ == dir@ + "/"@ + name@,
{
    dir.to_owned().concat("/").concat(name)
}

/// Equality of two string slices, stated over their character views.
pub(crate) fn str_eq(a: &str, b: &str) -> (r: bool)
    ensures
        r == (a@ == b@),
{
    let sa: String = a.to_owned();
    let sb: String = b.to_owned();
    sa == sb
}

} // verus!
