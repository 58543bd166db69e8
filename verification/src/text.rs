//! Strings and lists of strings as sequences of characters.

use vstd::prelude::*;

verus! {

/// `needle` occurs in `hay` as a contiguous run of characters.
pub open spec fn is_substring(needle: Seq<char>, hay: Seq<char>) -> bool {
    exists|i: int|
        0 <= i && i + needle.len() <= hay.len() && #[trigger] hay.subrange(i, i + needle.len())
            == needle
}

/// The decimal digit for a value below ten.
pub open spec fn digit_char(d: nat) -> char {
    if d == 0 {
        '0'
    } else if d == 1 {
        '1'
    } else if d == 2 {
        '2'
    } else if d == 3 {
        '3'
    } else if d == 4 {
        '4'
    } else if d == 5 {
        '5'
    } else if d == 6 {
        '6'
    } else if d == 7 {
        '7'
    } else if d == 8 {
        '8'
    } else {
        '9'
    }
}

/// The decimal numeral of `n`, most significant digit first, without leading zeros.
pub open spec fn decimal(n: nat) -> Seq<char>
    decreases n,
{
    if n < 10 {
        seq![digit_char(n)]
    } else {
        decimal(n / 10).push(digit_char(n % 10))
    }
}

/// Two lists have an element in common.
pub open spec fn intersects(a: Seq<Seq<char>>, b: Seq<Seq<char>>) -> bool {
    exists|i: int| 0 <= i < a.len() && b.contains(#[trigger] a[i])
}

/// The elements of `a` that occur in `b`, in the order of `a`.
pub open spec fn retain_in(a: Seq<Seq<char>>, b: Seq<Seq<char>>) -> Seq<Seq<char>> {
    a.filter(|s: Seq<char>| b.contains(s))
}

/// The elements of `a` that hold `pattern` as a substring, in the order of `a`.
pub open spec fn retain_matching(a: Seq<Seq<char>>, pattern: Seq<char>) -> Seq<Seq<char>> {
    a.filter(|s: Seq<char>| is_substring(pattern, s))
}

/// One step of `Seq::filter` from the front of a sequence.
pub proof fn lemma_filter_take_step<A>(s: Seq<A>, pred: spec_fn(A) -> bool, i: int)
    requires
        0 <= i < s.len(),
    ensures
        s.take(i + 1).filter(pred) == if pred(s[i]) {
            s.take(i).filter(pred).push(s[i])
        } else {
            s.take(i).filter(pred)
        },
{
    reveal(Seq::filter);
    assert(s.take(i + 1).drop_last() =~= s.take(i));
}

/// Comparison of two string slices, as `str`'s `==` gives it: equal exactly
/// when they hold the same characters.
#[verifier::external_body]
pub(crate) fn str_eq(a: &str, b: &str) -> (r: bool)
    ensures
        r == (a@ == b@),
{
    a == b
}

/// `str::contains` with a string pattern: true exactly when the pattern
/// matches a contiguous part of the string.
#[verifier::external_body]
pub(crate) fn str_contains(hay: &str, needle: &str) -> (r: bool)
    ensures
        r == is_substring(needle@, hay@),
{
    hay.contains(needle)
}

/// The decimal digit for a value below ten, as a text.
fn digit_text(d: u128) -> (r: &'static str)
    requires
        d < 10,
    ensures
        r@ == seq![digit_char(d as nat)],
{
    proof {
        reveal_strlit("0");
        reveal_strlit("1");
        reveal_strlit("2");
        reveal_strlit("3");
        reveal_strlit("4");
        reveal_strlit("5");
        reveal_strlit("6");
        reveal_strlit("7");
        reveal_strlit("8");
        reveal_strlit("9");
    }
    let text = if d == 0 {
        "0"
    } else if d == 1 {
        "1"
    } else if d == 2 {
        "2"
    } else if d == 3 {
        "3"
    } else if d == 4 {
        "4"
    } else if d == 5 {
        "5"
    } else if d == 6 {
        "6"
    } else if d == 7 {
        "7"
    } else if d == 8 {
        "8"
    } else {
        "9"
    };
    assert(text@ =~= seq![digit_char(d as nat)]);
    text
}

/// The decimal numeral of a number.
pub fn decimal_string(n: u128) -> (r: String)
    ensures
        r@ == decimal(n as nat),
    decreases n,
{
    if n < 10 {
        String::from_str(digit_text(n))
    } else {
        let front = decimal_string(n / 10);
        let ghost before = front@;
        let all = front.concat(digit_text(n % 10));
        assert(all@ =~= before.push(digit_char((n % 10) as nat)));
        all
    }
}

/// `prefix` followed by the decimal numeral of `n`.
pub fn numbered(prefix: &str, n: usize) -> (r: String)
    ensures
        r@ == prefix@ + decimal(n as nat),
{
    let digits = decimal_string(n as u128);
    String::from_str(prefix).concat(digits.as_str())
}

/// The concatenation of two strings.
pub fn join2(a: &str, b: &str) -> (r: String)
    ensures
        r@ == a@ + b@,
{
    String::from_str(a).concat(b)
}

/// The concatenation of three strings.
pub fn join3(a: &str, b: &str, c: &str) -> (r: String)
    ensures
        r@ == a@ + b@ + c@,
{
    String::from_str(a).concat(b).concat(c)
}

/// Appends a text to a list.
pub fn push_text(list: &mut Vec<String>, text: String)
    ensures
        final(list).deep_view() == old(list).deep_view().push(text@),
{
    let ghost before = list.deep_view();
    list.push(text);
    assert(list.deep_view() =~= before.push(text@));
}

/// A copy of a list of strings.
pub fn clone_strings(list: &Vec<String>) -> (r: Vec<String>)
    ensures
        r.deep_view() == list.deep_view(),
{
    let r = list.clone();
    assert(r.deep_view() =~= list.deep_view());
    r
}

/// Whether `item` occurs in `list`.
pub fn contains_string(list: &Vec<String>, item: &str) -> (r: bool)
    ensures
        r == list.deep_view().contains(item@),
{
    let mut i: usize = 0;
    while i < list.len()
        invariant
            i <= list.len(),
            forall|k: int| 0 <= k < i ==> list.deep_view()[k] != item@,
        decreases list.len() - i,
    {
        if str_eq(list[i].as_str(), item) {
            assert(list.deep_view()[i as int] == item@);
            return true;
        }
        i += 1;
    }
    false
}

/// Whether two lists have an element in common.
pub fn lists_intersect(a: &Vec<String>, b: &Vec<String>) -> (r: bool)
    ensures
        r == intersects(a.deep_view(), b.deep_view()),
{
    let mut i: usize = 0;
    while i < a.len()
        invariant
            i <= a.len(),
            forall|k: int| 0 <= k < i ==> !b.deep_view().contains(#[trigger] a.deep_view()[k]),
        decreases a.len() - i,
    {
        if contains_string(b, a[i].as_str()) {
            assert(b.deep_view().contains(a.deep_view()[i as int]));
            return true;
        }
        i += 1;
    }
    false
}

/// The elements of `a` that occur in `b`, in the order of `a`.
pub fn retain_listed(a: &Vec<String>, b: &Vec<String>) -> (r: Vec<String>)
    ensures
        r.deep_view() == retain_in(a.deep_view(), b.deep_view()),
{
    let mut out: Vec<String> = Vec::new();
    let mut i: usize = 0;
    let ghost pred = |s: Seq<char>| b.deep_view().contains(s);
    proof {
        reveal(Seq::filter);
        assert(a.deep_view().take(0) =~= Seq::<Seq<char>>::empty());
        assert(out.deep_view() =~= Seq::<Seq<char>>::empty());
    }
    while i < a.len()
        invariant
            i <= a.len(),
            pred == (|s: Seq<char>| b.deep_view().contains(s)),
            out.deep_view() == a.deep_view().take(i as int).filter(pred),
        decreases a.len() - i,
    {
        let keep = contains_string(b, a[i].as_str());
        proof {
            lemma_filter_take_step(a.deep_view(), pred, i as int);
        }
        if keep {
            let ghost before = out.deep_view();
            out.push(a[i].clone());
            assert(out.deep_view() =~= before.push(a.deep_view()[i as int]));
        }
        i += 1;
    }
    assert(a.deep_view().take(a.len() as int) =~= a.deep_view());
    out
}

/// The elements of `a` that hold `pattern` as a substring, in the order of `a`.
pub fn retain_containing(a: &Vec<String>, pattern: &str) -> (r: Vec<String>)
    ensures
        r.deep_view() == retain_matching(a.deep_view(), pattern@),
{
    let mut out: Vec<String> = Vec::new();
    let mut i: usize = 0;
    let ghost pred = |s: Seq<char>| is_substring(pattern@, s);
    proof {
        reveal(Seq::filter);
        assert(a.deep_view().take(0) =~= Seq::<Seq<char>>::empty());
        assert(out.deep_view() =~= Seq::<Seq<char>>::empty());
    }
    while i < a.len()
        invariant
            i <= a.len(),
            pred == (|s: Seq<char>| is_substring(pattern@, s)),
            out.deep_view() == a.deep_view().take(i as int).filter(pred),
        decreases a.len() - i,
    {
        let keep = str_contains(a[i].as_str(), pattern);
        proof {
            lemma_filter_take_step(a.deep_view(), pred, i as int);
        }
        if keep {
            let ghost before = out.deep_view();
            out.push(a[i].clone());
            assert(out.deep_view() =~= before.push(a.deep_view()[i as int]));
        }
        i += 1;
    }
    assert(a.deep_view().take(a.len() as int) =~= a.deep_view());
    out
}

} // verus!
