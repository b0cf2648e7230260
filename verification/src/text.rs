//! Character-level utilities shared by the wire reader and the router:
//! exact string comparison, prefix tests, whitespace tokenization, and
//! decimal parsing/formatting, each with a full functional specification.

use vstd::prelude::*;

verus! {

/// Whitespace for the purposes of request-line tokenization:
/// the blank and tab characters.
pub open spec fn is_ws(c: char) -> bool {
    c == ' ' || c == '\t'
}

/// True when `p` is a prefix of `s`.
pub open spec fn has_prefix(s: Seq<char>, p: Seq<char>) -> bool {
    s.len() >= p.len() && s.take(p.len() as int) == p
}

/// Exact equality of two string slices, decided character by character.
pub fn str_eq(a: &str, b: &str) -> (r: bool)
    ensures
        r == (a@ == b@),
{
    let a_len: usize = a.unicode_len();
    let b_len: usize = b.unicode_len();
    if a_len != b_len {
        proof {
            assert(a@ != b@) by {
                assert(a@.len() != b@.len());
            }
        }
        return false;
    }
    let mut i: usize = 0;
    while i < a_len
        invariant
            i <= a_len,
            a_len == a@.len(),
            a_len == b@.len(),
            forall|j: int| 0 <= j < i ==> a@[j] == b@[j],
        decreases a_len - i,
    {
        if a.get_char(i) != b.get_char(i) {
            proof {
                assert(a@ != b@) by {
                    assert(a@[i as int] != b@[i as int]);
                }
            }
            return false;
        }
        i = i + 1;
    }
    proof {
        assert(a@ =~= b@);
    }
    true
}

/// True when `s` begins with `p`, decided character by character.
pub fn str_has_prefix(s: &str, p: &str) -> (r: bool)
    ensures
        r == has_prefix(s@, p@),
{
    let s_len: usize = s.unicode_len();
    let p_len: usize = p.unicode_len();
    if s_len < p_len {
        return false;
    }
    let mut i: usize = 0;
    while i < p_len
        invariant
            i <= p_len,
            p_len == p@.len(),
            s_len == s@.len(),
            s_len >= p_len,
            forall|j: int| 0 <= j < i ==> s@[j] == p@[j],
        decreases p_len - i,
    {
        if s.get_char(i) != p.get_char(i) {
            proof {
                assert(!has_prefix(s@, p@)) by {
                    assert(s@.take(p@.len() as int)[i as int] != p@[i as int]);
                }
            }
            return false;
        }
        i = i + 1;
    }
    proof {
        assert(s@.take(p@.len() as int) =~= p@);
    }
    true
}

/// The whitespace-separated tokens of `s`, in order; runs of whitespace
/// separate tokens and contribute nothing themselves.
pub open spec fn tokens_of(s: Seq<char>) -> Seq<Seq<char>>
    decreases s.len(),
{
    if s.len() == 0 {
        seq![]
    } else {
        let rest = tokens_of(s.drop_last());
        let c = s.last();
        if is_ws(c) {
            rest
        } else if s.len() >= 2 && !is_ws(s[s.len() - 2]) {
            rest.update(rest.len() - 1, rest.last().push(c))
        } else {
            rest.push(seq![c])
        }
    }
}

/// Splits `s` at whitespace, returning the tokens in order.
pub fn split_whitespace(s: &str) -> (toks: Vec<String>)
    ensures
        toks.deep_view() == tokens_of(s@),
{
    let len: usize = s.unicode_len();
    let mut toks: Vec<String> = Vec::new();
    let mut start: usize = 0;
    let mut open: bool = false;
    let mut i: usize = 0;
    while i < len
        invariant
            i <= len,
            len == s@.len(),
            !open ==> (i == 0 || is_ws(s@[i - 1])) && toks.deep_view() == tokens_of(s@.take(i as int)),
            open ==> start < i && (start == 0 || is_ws(s@[start as int - 1]))
                && (forall|j: int| start <= j < i ==> !is_ws(s@[j]))
                && tokens_of(s@.take(i as int)) == toks.deep_view().push(s@.subrange(start as int, i as int)),
        decreases len - i,
    {
        let c = s.get_char(i);
        let ws = c == ' ' || c == '\t';
        proof {
            assert(s@.take(i as int + 1).drop_last() =~= s@.take(i as int));
            assert(s@.take(i as int + 1).last() == s@[i as int]);
        }
        if ws {
            if open {
                let tok = s.substring_char(start, i);
                toks.push(String::from_str(tok));
                proof {
                    assert(toks.deep_view() =~= tokens_of(s@.take(i as int + 1)));
                }
                open = false;
            }
        } else {
            if !open {
                start = i;
                open = true;
                proof {
                    assert(s@.subrange(i as int, i as int + 1) =~= seq![s@[i as int]]);
                    assert(tokens_of(s@.take(i as int + 1))
                        =~= toks.deep_view().push(s@.subrange(i as int, i as int + 1)));
                }
            } else {
                proof {
                    let rest = tokens_of(s@.take(i as int));
                    assert(rest.last() == s@.subrange(start as int, i as int));
                    assert(rest.last().push(s@[i as int]) =~= s@.subrange(start as int, i as int + 1));
                    assert(rest.update(rest.len() - 1, rest.last().push(s@[i as int]))
                        =~= toks.deep_view().push(s@.subrange(start as int, i as int + 1)));
                }
            }
        }
        i = i + 1;
    }
    if open {
        let tok = s.substring_char(start, len);
        toks.push(String::from_str(tok));
        proof {
            assert(s@.take(len as int) =~= s@);
            assert(toks.deep_view() =~= tokens_of(s@));
        }
    } else {
        proof {
            assert(s@.take(len as int) =~= s@);
        }
    }
    toks
}

/// The character for a single decimal digit.
pub open spec fn digit_char(d: int) -> char
    recommends
        0 <= d < 10,
{
    ((d + 48) as u8) as char
}

/// The decimal digits of `n`, most significant first, with no leading zeros
/// (a single `'0'` for zero).
pub open spec fn dec_chars(n: nat) -> Seq<char>
    decreases n,
{
    if n < 10 {
        seq![digit_char(n as int)]
    } else {
        dec_chars(n / 10).push(digit_char((n % 10) as int))
    }
}

/// The string slice holding exactly one decimal digit.
fn digit_str(d: usize) -> (s: &'static str)
    requires
        d < 10,
    ensures
        s@ == seq![digit_char(d as int)],
{
    let s: &'static str = match d {
        0 => "0",
        1 => "1",
        2 => "2",
        3 => "3",
        4 => "4",
        5 => "5",
        6 => "6",
        7 => "7",
        8 => "8",
        _ => "9",
    };
    proof {
        reveal_strlit("0");
        reveal_strlit("1");
        reveal_strlit("2");
        reveal_strlit("3");
        reveal_strlit("4");
        reveal_strlit("5");
        reveal_strlit("6");
        reveal_strlit("7");
        reveal_strlit("8");
        reveal_strlit("9");
        assert(s@ =~= seq![digit_char(d as int)]);
    }
    s
}

/// Formats `n` in decimal.
pub fn usize_to_string(n: usize) -> (s: String)
    ensures
        s@ == dec_chars(n as nat),
    decreases n,
{
    if n < 10 {
        String::from_str(digit_str(n))
    } else {
        let mut s = usize_to_string(n / 10);
        s.append(digit_str(n % 10));
        proof {
            assert(s@ =~= dec_chars(n as nat));
        }
        s
    }
}

/// True for the characters `'0'` through `'9'`.
pub open spec fn is_digit(c: char) -> bool {
    48 <= c as u32 <= 57
}

/// The numeric value of a digit character.
pub open spec fn digit_val(c: char) -> int {
    c as u32 - 48
}

pub open spec fn all_digits(s: Seq<char>) -> bool {
    forall|i: int| 0 <= i < s.len() ==> is_digit(s[i])
}

/// The value of a digit string read in base ten.
pub open spec fn digits_val(s: Seq<char>) -> int
    decreases s.len(),
{
    if s.len() == 0 {
        0
    } else {
        digits_val(s.drop_last()) * 10 + digit_val(s.last())
    }
}

/// A string parses as a `usize` when it is a nonempty run of digits whose
/// value fits the machine word.
pub open spec fn parses_as_usize(s: Seq<char>) -> bool {
    s.len() > 0 && all_digits(s) && digits_val(s) <= usize::MAX
}

proof fn lemma_digits_val_nonneg(s: Seq<char>)
    requires
        all_digits(s),
    ensures
        digits_val(s) >= 0,
    decreases s.len(),
{
    if s.len() > 0 {
        assert(all_digits(s.drop_last())) by {
            assert(forall|i: int| 0 <= i < s.len() - 1 ==> s.drop_last()[i] == s[i]);
        }
        lemma_digits_val_nonneg(s.drop_last());
    }
}

proof fn lemma_digits_val_prefix_le(s: Seq<char>, i: int)
    requires
        all_digits(s),
        0 <= i <= s.len(),
    ensures
        digits_val(s.take(i)) <= digits_val(s),
    decreases s.len() - i,
{
    if i < s.len() {
        assert(all_digits(s.take(i + 1))) by {
            assert(forall|j: int| 0 <= j < i + 1 ==> s.take(i + 1)[j] == s[j]);
        }
        assert(s.take(i + 1).drop_last() =~= s.take(i));
        lemma_digits_val_nonneg(s.take(i));
        assert(digits_val(s.take(i)) <= digits_val(s.take(i + 1)));
        lemma_digits_val_prefix_le(s, i + 1);
    } else {
        assert(s.take(i) =~= s);
    }
}

/// Parses `s` as a decimal `usize`; `None` when `s` is empty, holds a
/// non-digit, or names a value above `usize::MAX`.
pub fn parse_usize(s: &str) -> (r: Option<usize>)
    ensures
        match r {
            Some(v) => parses_as_usize(s@) && v == digits_val(s@),
            None => !parses_as_usize(s@),
        },
{
    let len: usize = s.unicode_len();
    if len == 0 {
        return None;
    }
    let mut acc: usize = 0;
    let mut i: usize = 0;
    while i < len
        invariant
            i <= len,
            len == s@.len(),
            len > 0,
            all_digits(s@.take(i as int)),
            acc == digits_val(s@.take(i as int)),
        decreases len - i,
    {
        let c = s.get_char(i);
        let u = c as u32;
        if u < 48 || u > 57 {
            proof {
                assert(!all_digits(s@)) by {
                    assert(!is_digit(s@[i as int]));
                }
            }
            return None;
        }
        let d: usize = (u - 48) as usize;
        proof {
            assert(s@.take(i as int + 1).drop_last() =~= s@.take(i as int));
            assert(all_digits(s@.take(i as int + 1))) by {
                assert(forall|j: int| 0 <= j < i ==> s@.take(i as int + 1)[j] == s@.take(i as int)[j]);
            }
        }
        if acc > (usize::MAX - d) / 10 {
            proof {
                assert(acc * 10 + d > usize::MAX) by (nonlinear_arith)
                    requires
                        acc > (usize::MAX - d) / 10,
                        d <= usize::MAX,
                ;
                if all_digits(s@) {
                    lemma_digits_val_prefix_le(s@, i as int + 1);
                    assert(digits_val(s@) > usize::MAX);
                }
            }
            return None;
        }
        proof {
            assert(acc * 10 + d <= usize::MAX) by (nonlinear_arith)
                requires
                    acc <= (usize::MAX - d) / 10,
                    d <= usize::MAX,
            ;
        }
        acc = acc * 10 + d;
        i = i + 1;
    }
    proof {
        assert(s@.take(len as int) =~= s@);
    }
    Some(acc)
}

/// `s` without its leading whitespace.
pub open spec fn trim_start(s: Seq<char>) -> Seq<char>
    decreases s.len(),
{
    if s.len() == 0 {
        s
    } else if is_ws(s[0]) {
        trim_start(s.drop_first())
    } else {
        s
    }
}

/// `s` without its trailing whitespace.
pub open spec fn trim_end(s: Seq<char>) -> Seq<char>
    decreases s.len(),
{
    if s.len() == 0 {
        s
    } else if is_ws(s.last()) {
        trim_end(s.drop_last())
    } else {
        s
    }
}

/// `s` without leading or trailing whitespace.
pub open spec fn trim(s: Seq<char>) -> Seq<char> {
    trim_end(trim_start(s))
}

proof fn lemma_trim_start_at(s: Seq<char>, a: int)
    requires
        0 <= a <= s.len(),
        forall|j: int| 0 <= j < a ==> is_ws(s[j]),
        a < s.len() ==> !is_ws(s[a]),
    ensures
        trim_start(s) == s.skip(a),
    decreases a,
{
    if a == 0 {
        assert(s.skip(0) =~= s);
    } else {
        lemma_trim_start_at(s.drop_first(), a - 1);
        assert(s.drop_first().skip(a - 1) =~= s.skip(a));
    }
}

proof fn lemma_trim_end_at(s: Seq<char>, b: int)
    requires
        0 <= b <= s.len(),
        forall|j: int| b <= j < s.len() ==> is_ws(s[j]),
        b > 0 ==> !is_ws(s[b - 1]),
    ensures
        trim_end(s) == s.take(b),
    decreases s.len() - b,
{
    if b == s.len() {
        if s.len() > 0 {
            assert(s.take(b) =~= s);
        } else {
            assert(s.take(0) =~= s);
        }
    } else {
        lemma_trim_end_at(s.drop_last(), b);
        assert(s.drop_last().take(b) =~= s.take(b));
    }
}

/// True when `s`, stripped of surrounding whitespace, equals `target`.
pub fn trims_to(s: &str, target: &str) -> (r: bool)
    ensures
        r == (trim(s@) == target@),
{
    let len: usize = s.unicode_len();
    let mut a: usize = 0;
    while a < len
        invariant
            a <= len,
            len == s@.len(),
            forall|j: int| 0 <= j < a ==> is_ws(s@[j]),
        ensures
            a <= len,
            forall|j: int| 0 <= j < a ==> is_ws(s@[j]),
            a < len ==> !is_ws(s@[a as int]),
        decreases len - a,
    {
        let c = s.get_char(a);
        if !(c == ' ' || c == '\t') {
            break;
        }
        a = a + 1;
    }
    let mut b: usize = len;
    while b > a
        invariant
            a <= b <= len,
            len == s@.len(),
            forall|j: int| b <= j < len ==> is_ws(s@[j]),
        ensures
            a <= b <= len,
            forall|j: int| b <= j < len ==> is_ws(s@[j]),
            b > a ==> !is_ws(s@[b - 1]),
        decreases b,
    {
        let c = s.get_char(b - 1);
        if !(c == ' ' || c == '\t') {
            break;
        }
        b = b - 1;
    }
    proof {
        lemma_trim_start_at(s@, a as int);
        lemma_trim_end_at(s@.skip(a as int), b - a);
        assert(s@.skip(a as int).take(b - a) =~= s@.subrange(a as int, b as int));
    }
    let sub = s.substring_char(a, b);
    str_eq(sub, target)
}

/// The segments of `s` between commas, in order; empty segments are kept,
/// and the empty string has one empty segment.
pub open spec fn comma_split(s: Seq<char>) -> Seq<Seq<char>>
    decreases s.len(),
{
    if s.len() == 0 {
        seq![Seq::empty()]
    } else {
        let rest = comma_split(s.drop_last());
        if s.last() == ',' {
            rest.push(Seq::empty())
        } else {
            rest.update(rest.len() - 1, rest.last().push(s.last()))
        }
    }
}

pub proof fn lemma_comma_split_len(s: Seq<char>)
    ensures
        comma_split(s).len() >= 1,
    decreases s.len(),
{
    if s.len() > 0 {
        lemma_comma_split_len(s.drop_last());
    }
}

/// Splits `s` at commas, returning every segment in order.
pub fn split_commas(s: &str) -> (segs: Vec<String>)
    ensures
        segs.deep_view() == comma_split(s@),
{
    let len: usize = s.unicode_len();
    let mut segs: Vec<String> = Vec::new();
    let mut start: usize = 0;
    let mut i: usize = 0;
    proof {
        assert(s@.subrange(0, 0) =~= Seq::<char>::empty());
        assert(comma_split(s@.take(0)) =~= segs.deep_view().push(s@.subrange(0, 0)));
    }
    while i < len
        invariant
            start <= i <= len,
            len == s@.len(),
            comma_split(s@.take(i as int)) == segs.deep_view().push(
                s@.subrange(start as int, i as int),
            ),
        decreases len - i,
    {
        proof {
            assert(s@.take(i as int + 1).drop_last() =~= s@.take(i as int));
            assert(s@.take(i as int + 1).last() == s@[i as int]);
            lemma_comma_split_len(s@.take(i as int));
        }
        let c = s.get_char(i);
        if c == ',' {
            let seg = s.substring_char(start, i);
            segs.push(String::from_str(seg));
            start = i + 1;
            proof {
                assert(s@.subrange(i as int + 1, i as int + 1) =~= Seq::<char>::empty());
                assert(comma_split(s@.take(i as int + 1)) =~= segs.deep_view().push(
                    s@.subrange(i as int + 1, i as int + 1),
                ));
            }
        } else {
            proof {
                let rest = comma_split(s@.take(i as int));
                assert(rest.last() == s@.subrange(start as int, i as int));
                assert(rest.last().push(s@[i as int]) =~= s@.subrange(start as int, i as int + 1));
                assert(rest.update(rest.len() - 1, rest.last().push(s@[i as int]))
                    =~= segs.deep_view().push(s@.subrange(start as int, i as int + 1)));
            }
        }
        i = i + 1;
    }
    let seg = s.substring_char(start, len);
    segs.push(String::from_str(seg));
    proof {
        assert(s@.take(len as int) =~= s@);
        assert(segs.deep_view() =~= comma_split(s@));
    }
    segs
}

/// Uppercases an ASCII letter and leaves every other character alone.
pub open spec fn to_upper(c: char) -> char {
    if 97 <= c as u32 && c as u32 <= 122 {
        (((c as u32) - 32) as u8) as char
    } else {
        c
    }
}

/// `s` with its ASCII letters uppercased.
pub open spec fn upper_ascii(s: Seq<char>) -> Seq<char> {
    s.map_values(|c: char| to_upper(c))
}

/// True when `s`, uppercased ASCII-wise, equals `t`.
pub fn upper_eq(s: &str, t: &str) -> (r: bool)
    ensures
        r == (upper_ascii(s@) == t@),
{
    let s_len: usize = s.unicode_len();
    let t_len: usize = t.unicode_len();
    if s_len != t_len {
        proof {
            assert(upper_ascii(s@) != t@) by {
                assert(upper_ascii(s@).len() != t@.len());
            }
        }
        return false;
    }
    let mut i: usize = 0;
    while i < s_len
        invariant
            i <= s_len,
            s_len == s@.len(),
            s_len == t@.len(),
            forall|j: int| 0 <= j < i ==> to_upper(s@[j]) == t@[j],
        decreases s_len - i,
    {
        let c = s.get_char(i);
        let u = c as u32;
        let up: char = if u >= 97 && u <= 122 {
            ((u - 32) as u8) as char
        } else {
            c
        };
        if up != t.get_char(i) {
            proof {
                assert(upper_ascii(s@) != t@) by {
                    assert(upper_ascii(s@)[i as int] != t@[i as int]);
                }
            }
            return false;
        }
        i = i + 1;
    }
    proof {
        assert(upper_ascii(s@) =~= t@);
    }
    true
}

} // verus!
