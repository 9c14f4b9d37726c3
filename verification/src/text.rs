//! Character-sequence utilities: whitespace trimming, delimiter search and
//! splitting, prefix tests, and decimal rendering of integers.

use vstd::prelude::*;

verus! {

/// The whitespace characters stripped from the ends of a filter token: the
/// Unicode White_Space set, the same set that std's trimming strips.
pub open spec fn is_space(c: char) -> bool {
    c == ' ' || c == '\t' || c == '\n' || c == '\u{000B}' || c == '\u{000C}' || c == '\r'
        || c == '\u{0085}' || c == '\u{00A0}' || c == '\u{1680}' || c == '\u{2000}'
        || c == '\u{2001}' || c == '\u{2002}' || c == '\u{2003}' || c == '\u{2004}'
        || c == '\u{2005}' || c == '\u{2006}' || c == '\u{2007}' || c == '\u{2008}'
        || c == '\u{2009}' || c == '\u{200A}' || c == '\u{2028}' || c == '\u{2029}'
        || c == '\u{202F}' || c == '\u{205F}' || c == '\u{3000}'
}

pub fn char_is_space(c: char) -> (b: bool)
    ensures
        b == is_space(c),
{
    c == ' ' || c == '\t' || c == '\n' || c == '\u{000B}' || c == '\u{000C}' || c == '\r'
        || c == '\u{0085}' || c == '\u{00A0}' || c == '\u{1680}' || c == '\u{2000}'
        || c == '\u{2001}' || c == '\u{2002}' || c == '\u{2003}' || c == '\u{2004}'
        || c == '\u{2005}' || c == '\u{2006}' || c == '\u{2007}' || c == '\u{2008}'
        || c == '\u{2009}' || c == '\u{200A}' || c == '\u{2028}' || c == '\u{2029}'
        || c == '\u{202F}' || c == '\u{205F}' || c == '\u{3000}'
}

/// Whether the sequence holds the character anywhere.
pub open spec fn contains_char(s: Seq<char>, c: char) -> bool
    decreases s.len(),
{
    if s.len() == 0 {
        false
    } else {
        s[0] == c || contains_char(s.skip(1), c)
    }
}

/// `contains_char` holds exactly when some position holds the character.
pub proof fn lemma_contains_iff(s: Seq<char>, c: char)
    ensures
        contains_char(s, c) <==> exists|j: int| 0 <= j < s.len() && s[j] == c,
    decreases s.len(),
{
    if s.len() > 0 {
        lemma_contains_iff(s.skip(1), c);
        if exists|j: int| 0 <= j < s.skip(1).len() && s.skip(1)[j] == c {
            let j = choose|j: int| 0 <= j < s.skip(1).len() && s.skip(1)[j] == c;
            assert(s[j + 1] == c);
        }
        if exists|j: int| 0 <= j < s.len() && s[j] == c {
            let j = choose|j: int| 0 <= j < s.len() && s[j] == c;
            if j > 0 {
                assert(s.skip(1)[j - 1] == c);
            }
        }
    }
}

pub fn str_contains_char(s: &str, c: char) -> (b: bool)
    ensures
        b == contains_char(s@, c),
    decreases s@.len(),
{
    let n = s.unicode_len();
    if n == 0 {
        false
    } else if s.get_char(0) == c {
        true
    } else {
        let rest = s.substring_char(1, n);
        let b = str_contains_char(rest, c);
        proof {
            assert(rest@ =~= s@.skip(1));
        }
        b
    }
}

/// The sequence without its leading whitespace.
pub open spec fn trim_start(s: Seq<char>) -> Seq<char>
    decreases s.len(),
{
    if s.len() > 0 && is_space(s[0]) {
        trim_start(s.skip(1))
    } else {
        s
    }
}

/// The sequence without its trailing whitespace.
pub open spec fn trim_end(s: Seq<char>) -> Seq<char>
    decreases s.len(),
{
    if s.len() > 0 && is_space(s[s.len() - 1]) {
        trim_end(s.drop_last())
    } else {
        s
    }
}

/// The sequence without leading or trailing whitespace.
pub open spec fn trim(s: Seq<char>) -> Seq<char> {
    trim_end(trim_start(s))
}

pub fn str_trim_start<'a>(s: &'a str) -> (t: &'a str)
    ensures
        t@ == trim_start(s@),
    decreases s@.len(),
{
    let n = s.unicode_len();
    if n > 0 && char_is_space(s.get_char(0)) {
        let rest = s.substring_char(1, n);
        proof {
            assert(rest@ =~= s@.skip(1));
        }
        str_trim_start(rest)
    } else {
        s
    }
}

pub fn str_trim_end<'a>(s: &'a str) -> (t: &'a str)
    ensures
        t@ == trim_end(s@),
    decreases s@.len(),
{
    let n = s.unicode_len();
    if n > 0 && char_is_space(s.get_char(n - 1)) {
        let rest = s.substring_char(0, n - 1);
        proof {
            assert(rest@ =~= s@.drop_last());
        }
        str_trim_end(rest)
    } else {
        s
    }
}

pub fn str_trim<'a>(s: &'a str) -> (t: &'a str)
    ensures
        t@ == trim(s@),
{
    str_trim_end(str_trim_start(s))
}

/// Whether `pre` is an initial segment of `s`, decided character by character.
pub fn str_has_prefix(s: &str, pre: &str) -> (b: bool)
    ensures
        b == pre@.is_prefix_of(s@),
{
    let pn = pre.unicode_len();
    let sn = s.unicode_len();
    if pn > sn {
        return false;
    }
    let mut i: usize = 0;
    while i < pn
        invariant
            0 <= i <= pn,
            pn == pre@.len(),
            sn == s@.len(),
            pn <= sn,
            forall|j: int| 0 <= j < i ==> pre@[j] == s@[j],
        decreases pn - i,
    {
        if pre.get_char(i) != s.get_char(i) {
            proof {
                if pre@.is_prefix_of(s@) {
                    assert(pre@[i as int] == s@.subrange(0, pn as int)[i as int]);
                }
            }
            return false;
        }
        i = i + 1;
    }
    proof {
        assert(pre@ =~= s@.subrange(0, pn as int));
    }
    true
}

/// The position of the first occurrence of `c` in `s`, if any.
pub fn find_char(s: &str, c: char) -> (r: Option<usize>)
    ensures
        match r {
            Some(i) => {
                &&& i < s@.len()
                &&& s@[i as int] == c
                &&& forall|j: int| 0 <= j < i ==> s@[j] != c
            },
            None => forall|j: int| 0 <= j < s@.len() ==> s@[j] != c,
        },
{
    let n = s.unicode_len();
    let mut i: usize = 0;
    while i < n
        invariant
            0 <= i <= n,
            n == s@.len(),
            forall|j: int| 0 <= j < i ==> s@[j] != c,
        decreases n - i,
    {
        if s.get_char(i) == c {
            return Some(i);
        }
        i = i + 1;
    }
    None
}

/// The split of `s` at every occurrence of the delimiter `d`: the tokens
/// between occurrences, in order, with an empty token between adjacent
/// delimiters and at either end.
pub open spec fn split_on(s: Seq<char>, d: char) -> Seq<Seq<char>>
    decreases s.len(),
{
    if s.len() == 0 {
        seq![s]
    } else if s[0] == d {
        seq![Seq::<char>::empty()] + split_on(s.skip(1), d)
    } else {
        let rest = split_on(s.skip(1), d);
        seq![seq![s[0]] + rest[0]] + rest.skip(1)
    }
}

/// A sequence free of the delimiter splits into itself alone.
pub proof fn lemma_split_no_delim(s: Seq<char>, d: char)
    requires
        forall|j: int| 0 <= j < s.len() ==> s[j] != d,
    ensures
        split_on(s, d) == seq![s],
    decreases s.len(),
{
    if s.len() == 0 {
    } else {
        assert(forall|j: int| 0 <= j < s.skip(1).len() ==> s.skip(1)[j] != d);
        lemma_split_no_delim(s.skip(1), d);
        let rest = split_on(s.skip(1), d);
        assert(rest[0] == s.skip(1));
        assert(seq![s[0]] + s.skip(1) =~= s);
        assert(rest.skip(1) =~= Seq::<Seq<char>>::empty());
        assert(split_on(s, d) =~= seq![s]);
    }
}

/// Splitting peels off everything before the first delimiter as the first
/// token and continues after it.
pub proof fn lemma_split_at_first(s: Seq<char>, d: char, i: int)
    requires
        0 <= i < s.len(),
        s[i] == d,
        forall|j: int| 0 <= j < i ==> s[j] != d,
    ensures
        split_on(s, d) == seq![s.take(i)] + split_on(s.skip(i + 1), d),
    decreases i,
{
    if i == 0 {
        assert(s.take(0) =~= Seq::<char>::empty());
        assert(split_on(s, d) =~= seq![s.take(0)] + split_on(s.skip(1), d));
    } else {
        assert(s.skip(1)[i - 1] == d);
        assert(forall|j: int| 0 <= j < i - 1 ==> s.skip(1)[j] != d);
        lemma_split_at_first(s.skip(1), d, i - 1);
        let rest = split_on(s.skip(1), d);
        assert(rest == seq![s.skip(1).take(i - 1)] + split_on(s.skip(1).skip(i), d));
        assert(s.skip(1).skip(i) =~= s.skip(i + 1));
        assert(rest[0] == s.skip(1).take(i - 1));
        assert(seq![s[0]] + s.skip(1).take(i - 1) =~= s.take(i));
        assert(rest.skip(1) =~= split_on(s.skip(i + 1), d));
        assert(split_on(s, d) =~= seq![s.take(i)] + split_on(s.skip(i + 1), d));
    }
}

/// The views of a vector of strings.
pub open spec fn string_views(v: Seq<String>) -> Seq<Seq<char>> {
    v.map_values(|t: String| t@)
}

/// Splits the string at every occurrence of the delimiter.
pub fn split_str(s: &str, d: char) -> (toks: Vec<String>)
    ensures
        string_views(toks@) == split_on(s@, d),
    decreases s@.len(),
{
    let n = s.unicode_len();
    match find_char(s, d) {
        None => {
            let mut v: Vec<String> = Vec::new();
            v.push(String::from_str(s));
            proof {
                lemma_split_no_delim(s@, d);
                assert(string_views(v@) =~= seq![s@]);
            }
            v
        },
        Some(i) => {
            let head = String::from_str(s.substring_char(0, i));
            let tail = s.substring_char(i + 1, n);
            let mut rest = split_str(tail, d);
            let mut v: Vec<String> = Vec::new();
            v.push(head);
            v.append(&mut rest);
            proof {
                lemma_split_at_first(s@, d, i as int);
                assert(tail@ =~= s@.skip(i + 1));
                assert(head@ =~= s@.take(i as int));
                assert(string_views(v@) =~= seq![s@.take(i as int)] + split_on(s@.skip(i + 1), d));
            }
            v
        },
    }
}

/// The decimal digit character for a value below ten.
pub open spec fn digit_char(d: int) -> char {
    if d == 0 {
        '0'
    } else if d == 1 {
        '1'
    } else if d == 2 {
        '2'
    } else if d == 3 {
        '3'
    } else if d == 4 {
        '4'
    } else if d == 5 {
        '5'
    } else if d == 6 {
        '6'
    } else if d == 7 {
        '7'
    } else if d == 8 {
        '8'
    } else {
        '9'
    }
}

/// The decimal digit characters of a number, most significant first.
pub open spec fn dec_rep(n: nat) -> Seq<char>
    decreases n,
{
    if n < 10 {
        seq![digit_char(n as int)]
    } else {
        dec_rep(n / 10).push(digit_char((n % 10) as int))
    }
}

fn digit_str(d: u64) -> (r: &'static str)
    requires
        d < 10,
    ensures
        r@ == seq![digit_char(d as int)],
{
    proof {
        reveal_strlit("0");
        reveal_strlit("1");
        reveal_strlit("2");
        reveal_strlit("3");
        reveal_strlit("4");
        reveal_strlit("5");
        reveal_strlit("6");
        reveal_strlit("7");
        reveal_strlit("8");
        reveal_strlit("9");
    }
    let r: &'static str = if d == 0 {
        "0"
    } else if d == 1 {
        "1"
    } else if d == 2 {
        "2"
    } else if d == 3 {
        "3"
    } else if d == 4 {
        "4"
    } else if d == 5 {
        "5"
    } else if d == 6 {
        "6"
    } else if d == 7 {
        "7"
    } else if d == 8 {
        "8"
    } else {
        "9"
    };
    proof {
        assert(r@ =~= seq![digit_char(d as int)]);
    }
    r
}

/// Renders a number in decimal.
pub fn u64_to_dec(n: u64) -> (s: String)
    ensures
        s@ == dec_rep(n as nat),
    decreases n,
{
    if n < 10 {
        String::from_str(digit_str(n))
    } else {
        let mut s = u64_to_dec(n / 10);
        s.append(digit_str(n % 10));
        proof {
            assert(s@ =~= dec_rep((n / 10) as nat).push(digit_char((n % 10) as int)));
        }
        s
    }
}

} // verus!
