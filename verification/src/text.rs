//! Small verified text operations on `str`, stated over the character
//! sequence that vstd gives a string as its view.
use vstd::prelude::*;
use vstd::string::*;

verus! {

/// `needle` occurs in `s` as a contiguous run of characters.
pub open spec fn occurs_in(s: Seq<char>, needle: Seq<char>) -> bool {
    exists|i: int|
        0 <= i && i + needle.len() <= s.len() && #[trigger] s.subrange(i, i + needle.len()) == needle
}

/// `s` with every occurrence of the character `c` replaced by `with`.
pub open spec fn replace_char(s: Seq<char>, c: char, with: Seq<char>) -> Seq<char>
    decreases s.len(),
{
    if s.len() == 0 {
        Seq::empty()
    } else {
        let head = if s[0] == c { with } else { seq![s[0]] };
        head + replace_char(s.drop_first(), c, with)
    }
}

proof fn lemma_replace_char_push(s: Seq<char>, c: char, with: Seq<char>, x: char)
    ensures
        replace_char(s.push(x), c, with) == replace_char(s, c, with) + (if x == c {
            with
        } else {
            seq![x]
        }),
    decreases s.len(),
{
    if s.len() == 0 {
        assert(s.push(x).drop_first() =~= Seq::<char>::empty());
        assert(replace_char(Seq::<char>::empty(), c, with) == Seq::<char>::empty());
        assert(s.push(x)[0] == x);
        assert(replace_char(s.push(x), c, with) =~= (if x == c { with } else { seq![x] }));
    } else {
        lemma_replace_char_push(s.drop_first(), c, with, x);
        assert(s.push(x).drop_first() =~= s.drop_first().push(x));
        let head = if s[0] == c { with } else { seq![s[0]] };
        let tail = if x == c { with } else { seq![x] };
        assert(head + (replace_char(s.drop_first(), c, with) + tail) =~= (head + replace_char(
            s.drop_first(),
            c,
            with,
        )) + tail);
    }
}

/// Replacing a character that does not occur changes nothing, and where
/// the replacement does not hold the character, none is left: every
/// occurrence is replaced, not only the first.
pub proof fn lemma_replace_char_all(s: Seq<char>, c: char, with: Seq<char>)
    ensures
        !s.contains(c) ==> replace_char(s, c, with) == s,
        !with.contains(c) ==> !replace_char(s, c, with).contains(c),
    decreases s.len(),
{
    if s.len() > 0 {
        let t = s.drop_first();
        lemma_replace_char_all(t, c, with);
        let head = if s[0] == c { with } else { seq![s[0]] };
        let r = replace_char(s, c, with);
        assert(r == head + replace_char(t, c, with));
        if !s.contains(c) {
            assert forall|i: int| 0 <= i < t.len() implies t[i] != c by {
                assert(t[i] == s[i + 1]);
            }
            assert(s[0] != c);
            assert(s =~= seq![s[0]] + t);
        }
        if !with.contains(c) {
            let rt = replace_char(t, c, with);
            assert forall|i: int| 0 <= i < r.len() implies r[i] != c by {
                if i < head.len() {
                    assert(r[i] == head[i]);
                    if s[0] != c {
                        assert(head[i] == s[0]);
                    }
                } else {
                    assert(r[i] == rt[i - head.len()]);
                }
            }
        }
    }
}

/// The decimal digit `d`.
pub open spec fn digit_char(d: nat) -> char {
    if d == 0 {
        '0'
    } else if d == 1 {
        '1'
    } else if d == 2 {
        '2'
    } else if d == 3 {
        '3'
    } else if d == 4 {
        '4'
    } else if d == 5 {
        '5'
    } else if d == 6 {
        '6'
    } else if d == 7 {
        '7'
    } else if d == 8 {
        '8'
    } else {
        '9'
    }
}

/// The decimal text of `n`, without leading zeros.
pub open spec fn decimal(n: nat) -> Seq<char>
    decreases n,
{
    if n < 10 {
        seq![digit_char(n)]
    } else {
        decimal(n / 10).push(digit_char(n % 10))
    }
}

/// The value of the decimal digit character `c`, by its code.
pub open spec fn digit_value(c: char) -> int {
    (c as u32) as int - ('0' as u32) as int
}

/// The number that the decimal numeral `s` writes, most significant digit
/// first.
pub open spec fn numeral_value(s: Seq<char>) -> int
    decreases s.len(),
{
    if s.len() == 0 {
        0
    } else {
        numeral_value(s.drop_last()) * 10 + digit_value(s.last())
    }
}

/// The digit character of `d` is the character whose code is that of `0`
/// plus `d`.
pub proof fn lemma_digit_char_code(d: nat)
    requires
        d < 10,
    ensures
        (digit_char(d) as u32) as int == ('0' as u32) as int + d,
        digit_value(digit_char(d)) == d,
{
}

/// `decimal(n)` is the base-10 numeral of `n`: it is made of digit
/// characters only, has no leading zero, and reads back as `n`.
pub proof fn lemma_decimal_reads_back(n: nat)
    ensures
        decimal(n).len() > 0,
        forall|i: int|
            0 <= i < decimal(n).len() ==> '0' <= #[trigger] decimal(n)[i] && decimal(n)[i] <= '9',
        n > 0 ==> decimal(n)[0] != '0',
        numeral_value(decimal(n)) == n,
    decreases n,
{
    if n < 10 {
        lemma_digit_char_code(n);
        let s = decimal(n);
        assert(s.drop_last() =~= Seq::<char>::empty());
        assert(numeral_value(s.drop_last()) == 0);
        assert(numeral_value(s) == n);
    } else {
        lemma_decimal_reads_back(n / 10);
        lemma_digit_char_code(n % 10);
        let s = decimal(n);
        let t = decimal(n / 10);
        assert(s.drop_last() =~= t);
        assert(s.last() == digit_char(n % 10));
        assert(s[0] == t[0]);
        assert(numeral_value(s) == numeral_value(t) * 10 + digit_value(s.last()));
        assert(n == (n / 10) * 10 + n % 10) by (nonlinear_arith);
        assert forall|i: int| 0 <= i < s.len() implies '0' <= #[trigger] s[i] && s[i] <= '9' by {
            if i < t.len() {
                assert(s[i] == t[i]);
            }
        }
    }
}

/// The text of the decimal digit `d`.
fn digit_text(d: u32) -> (r: &'static str)
    requires
        d < 10,
    ensures
        r@ == seq![digit_char(d as nat)],
{
    if d == 0 {
        proof {
            reveal_strlit("0");
        }
        assert("0"@ =~= seq!['0']);
        "0"
    } else if d == 1 {
        proof {
            reveal_strlit("1");
        }
        assert("1"@ =~= seq!['1']);
        "1"
    } else if d == 2 {
        proof {
            reveal_strlit("2");
        }
        assert("2"@ =~= seq!['2']);
        "2"
    } else if d == 3 {
        proof {
            reveal_strlit("3");
        }
        assert("3"@ =~= seq!['3']);
        "3"
    } else if d == 4 {
        proof {
            reveal_strlit("4");
        }
        assert("4"@ =~= seq!['4']);
        "4"
    } else if d == 5 {
        proof {
            reveal_strlit("5");
        }
        assert("5"@ =~= seq!['5']);
        "5"
    } else if d == 6 {
        proof {
            reveal_strlit("6");
        }
        assert("6"@ =~= seq!['6']);
        "6"
    } else if d == 7 {
        proof {
            reveal_strlit("7");
        }
        assert("7"@ =~= seq!['7']);
        "7"
    } else if d == 8 {
        proof {
            reveal_strlit("8");
        }
        assert("8"@ =~= seq!['8']);
        "8"
    } else {
        proof {
            reveal_strlit("9");
        }
        assert("9"@ =~= seq!['9']);
        "9"
    }
}

/// The decimal text of `n`, as `u32`'s `Display` writes it.
pub fn decimal_text(n: u32) -> (r: String)
    ensures
        r@ == decimal(n as nat),
        numeral_value(r@) == n as int,
    decreases n,
{
    proof {
        lemma_decimal_reads_back(n as nat);
    }
    if n < 10 {
        to_owned_text(digit_text(n))
    } else {
        let mut r = decimal_text(n / 10);
        r.append(digit_text(n % 10));
        r
    }
}

/// A fresh `String` holding the characters of `s`.
pub fn to_owned_text(s: &str) -> (r: String)
    ensures
        r@ == s@,
{
    <String as StringExecFns>::from_str(s)
}

/// `a` followed by `b`, as a fresh `String`.
pub fn concat_text(a: &str, b: &str) -> (r: String)
    ensures
        r@ == a@ + b@,
{
    let mut r = <String as StringExecFns>::from_str(a);
    r.append(b);
    r
}

/// Whether two strings hold the same characters.
pub fn text_eq(a: &str, b: &str) -> (r: bool)
    ensures
        r == (a@ == b@),
{
    let n = a.unicode_len();
    let m = b.unicode_len();
    if n != m {
        return false;
    }
    let mut i: usize = 0;
    while i < n
        invariant
            n == a@.len(),
            m == b@.len(),
            n == m,
            i <= n,
            forall|j: int| 0 <= j < i ==> a@[j] == b@[j],
        decreases n - i,
    {
        if a.get_char(i) != b.get_char(i) {
            return false;
        }
        i = i + 1;
    }
    assert(a@ =~= b@);
    true
}

/// Whether the characters of `s` begin with those of `p`.
pub fn has_prefix(s: &str, p: &str) -> (r: bool)
    ensures
        r == p@.is_prefix_of(s@),
{
    let n = s.unicode_len();
    let m = p.unicode_len();
    if m > n {
        return false;
    }
    let mut i: usize = 0;
    while i < m
        invariant
            n == s@.len(),
            m == p@.len(),
            m <= n,
            i <= m,
            forall|j: int| 0 <= j < i ==> s@[j] == p@[j],
        decreases m - i,
    {
        if s.get_char(i) != p.get_char(i) {
            assert(s@.subrange(0, m as int)[i as int] != p@[i as int]);
            return false;
        }
        i = i + 1;
    }
    assert(p@ =~= s@.subrange(0, m as int));
    true
}

/// Whether the first character of `s` is `c`.
pub fn first_char_is(s: &str, c: char) -> (r: bool)
    ensures
        r == (s@.len() > 0 && s@[0] == c),
{
    if s.unicode_len() == 0 {
        false
    } else {
        s.get_char(0) == c
    }
}

/// Whether `s` matches `needle` at position `i`.
fn matches_at(s: &str, needle: &str, i: usize, n: usize, m: usize) -> (r: bool)
    requires
        n == s@.len(),
        m == needle@.len(),
        i + m <= n,
    ensures
        r == (s@.subrange(i as int, i + m) == needle@),
{
    let mut k: usize = 0;
    while k < m
        invariant
            n == s@.len(),
            m == needle@.len(),
            i + m <= n,
            k <= m,
            forall|j: int| 0 <= j < k ==> s@[i + j] == needle@[j],
        decreases m - k,
    {
        if s.get_char(i + k) != needle.get_char(k) {
            assert(s@.subrange(i as int, i + m)[k as int] != needle@[k as int]);
            return false;
        }
        k = k + 1;
    }
    assert(s@.subrange(i as int, i + m) =~= needle@);
    true
}

/// Whether `needle` occurs somewhere in `s`.
pub fn contains_text(s: &str, needle: &str) -> (r: bool)
    ensures
        r == occurs_in(s@, needle@),
{
    let n = s.unicode_len();
    let m = needle.unicode_len();
    if m > n {
        return false;
    }
    let last = n - m;
    let mut i: usize = 0;
    loop
        invariant
            n == s@.len(),
            m == needle@.len(),
            m <= n,
            last == n - m,
            i <= last,
            forall|j: int| 0 <= j < i ==> #[trigger] s@.subrange(j, j + m) != needle@,
        decreases last - i,
    {
        if matches_at(s, needle, i, n, m) {
            return true;
        }
        if i == last {
            return false;
        }
        i = i + 1;
    }
}

/// `s` with every `*` replaced by `with`, as a fresh `String`.
pub fn replace_star(s: &str, with: &str) -> (r: String)
    ensures
        r@ == replace_char(s@, '*', with@),
{
    let n = s.unicode_len();
    let mut r = String::new();
    let mut i: usize = 0;
    assert(s@.subrange(0, 0) =~= Seq::<char>::empty());
    while i < n
        invariant
            n == s@.len(),
            i <= n,
            r@ == replace_char(s@.subrange(0, i as int), '*', with@),
        decreases n - i,
    {
        let c = s.get_char(i);
        proof {
            lemma_replace_char_push(s@.subrange(0, i as int), '*', with@, c);
            assert(s@.subrange(0, i as int).push(c) =~= s@.subrange(0, i + 1));
        }
        if c == '*' {
            r.append(with);
        } else {
            let one = s.substring_char(i, i + 1);
            assert(one@ =~= seq![c]);
            r.append(one);
        }
        i = i + 1;
    }
    assert(s@.subrange(0, n as int) =~= s@);
    r
}

} // verus!
